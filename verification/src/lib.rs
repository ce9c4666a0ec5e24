//! Measurement acquisition and export for a BLE caliper.
//!
//! The library keeps an ordered log of measurement samples, selects the
//! target device among a list of peripheral names, and renders the log as a
//! semicolon-delimited text file with a fixed three-column header.

mod device;
mod export;
mod log;
mod text;

pub use device::contains_seq;
pub use device::find_device;
pub use device::is_match_at;
pub use device::model_name;
pub use device::scan_outcome;
pub use device::str_contains;
pub use export::count_char;
pub use export::export_content;
pub use export::export_csv;
pub use export::header_seq;
pub use export::lemma_export_append;
pub use export::lemma_export_header;
pub use export::lemma_export_line_count;
pub use export::row_seq;
pub use export::rows_seq;
pub use log::lemma_shape_chars;
pub use log::lemma_timestamp_plain;
pub use log::timestamp_chars;
pub use log::timestamp_shape;
pub use log::ts_digit;
pub use log::year_digits;
pub use log::Measurement;
pub use log::MeasurementLog;
pub use text::csv_plain;
pub use text::dec_seq;
pub use text::digit_char;
pub use text::lemma_dec_seq_plain;
pub use text::lemma_mm_seq_plain;
pub use text::mm_seq;
pub use text::mm_to_string;
pub use text::u64_to_string;
