//! Rendering of the log as a semicolon-delimited text file: a fixed
//! three-column header, then one row per sample in log order, each row
//! listing the ordinal, the timestamp, and the millimetre value.

use vstd::prelude::*;

use crate::log::lemma_timestamp_plain;
use crate::log::timestamp_chars;
use crate::log::Measurement;
use crate::log::MeasurementLog;
use crate::text::csv_plain;
use crate::text::dec_seq;
use crate::text::lemma_dec_seq_plain;
use crate::text::lemma_mm_seq_plain;
use crate::text::mm_seq;
use crate::text::mm_to_string;
use crate::text::u64_to_string;

verus! {

/// An in-memory writer of delimited rows. Verus sees nothing of the field:
/// what the writer has produced is reached only through `writer_content`
/// and `writer_semicolon`.
#[verifier::external_body]
pub struct CsvBuffer {
    writer: csv::Writer<Vec<u8>>,
}

/// The text the writer has produced so far.
pub uninterp spec fn writer_content(w: CsvBuffer) -> Seq<char>;

/// The configuration the library's writers are made with: the delimiter is
/// the semicolon, rows end in a line feed, and what was produced so far is
/// well-formed text.
pub uninterp spec fn writer_semicolon(w: CsvBuffer) -> bool;

/// Relies on `csv::WriterBuilder::from_writer` over an empty `Vec`: the new
/// writer has produced nothing. Its delimiter is set to `;`, and rows may
/// differ in width, so no row is ever refused.
#[verifier::external_body]
fn csv_writer_new() -> (w: CsvBuffer)
    ensures
        writer_semicolon(w),
        writer_content(w) == Seq::<char>::empty(),
{
    CsvBuffer {
        writer: csv::WriterBuilder::new().delimiter(b';').flexible(true).from_writer(Vec::new()),
    }
}

/// Relies on `csv::Writer::write_record`: a field holding neither the
/// delimiter, nor a quote, nor a line break is written as it is; the fields
/// are joined by the delimiter and the row is closed with a line feed.
/// Writing into a `Vec` cannot fail.
#[verifier::external_body]
fn csv_write_row(w: &mut CsvBuffer, a: &str, b: &str, c: &str)
    requires
        writer_semicolon(*old(w)),
        csv_plain(a@),
        csv_plain(b@),
        csv_plain(c@),
    ensures
        writer_semicolon(*final(w)),
        writer_content(*final(w)) == writer_content(*old(w)) + a@ + seq![';'] + b@ + seq![';']
            + c@ + seq!['\n'],
{
    let _ = w.writer.write_record(&[a, b, c]);
}

/// Relies on `csv::Writer::into_inner` and `String::from_utf8`: flushing
/// into a `Vec` cannot fail, and a writer fed only string slices has
/// produced valid text.
#[verifier::external_body]
fn csv_into_string(w: CsvBuffer) -> (r: String)
    requires
        writer_semicolon(w),
    ensures
        r@ == writer_content(w),
{
    match w.writer.into_inner() {
        Ok(bytes) => String::from_utf8(bytes).unwrap_or_default(),
        Err(_) => String::new(),
    }
}

/// The header row: the three column titles joined by the delimiter.
pub open spec fn header_seq() -> Seq<char> {
    "Número de medición"@ + seq![';'] + "Timestamp"@ + seq![';'] + "Valor (mm)"@ + seq!['\n']
}

/// The row of one sample: its ordinal, its timestamp, and its value in
/// millimetres, in that order, joined by the delimiter.
pub open spec fn row_seq(m: Measurement) -> Seq<char> {
    dec_seq(m.number as nat) + seq![';'] + m.timestamp@ + seq![';'] + mm_seq(m.value_um as nat)
        + seq!['\n']
}

/// The rows of the samples, in log order.
pub open spec fn rows_seq(ms: Seq<Measurement>) -> Seq<char>
    decreases ms.len(),
{
    if ms.len() == 0 {
        Seq::empty()
    } else {
        rows_seq(ms.drop_last()) + row_seq(ms.last())
    }
}

/// The whole exported file: the header row, then one row per sample.
pub open spec fn export_content(ms: Seq<Measurement>) -> Seq<char> {
    header_seq() + rows_seq(ms)
}

/// Renders the log as the exported file.
pub fn export_csv(log: &MeasurementLog) -> (r: String)
    requires
        log.wf(),
    ensures
        r@ == export_content(log@),
{
    let mut w = csv_writer_new();
    proof {
        reveal_strlit("Número de medición");
        reveal_strlit("Timestamp");
        reveal_strlit("Valor (mm)");
    }
    csv_write_row(&mut w, "Número de medición", "Timestamp", "Valor (mm)");
    proof {
        assert(log@.subrange(0, 0) =~= Seq::<Measurement>::empty());
        assert(writer_content(w) =~= header_seq() + rows_seq(log@.subrange(0, 0)));
    }
    let n = log.len();
    let mut i: usize = 0;
    while i < n
        invariant
            log.wf(),
            n == log@.len(),
            0 <= i <= n,
            writer_semicolon(w),
            writer_content(w) == header_seq() + rows_seq(log@.subrange(0, i as int)),
        decreases n - i,
    {
        let m = log.get(i);
        let num_s = u64_to_string(m.number as u64);
        let val_s = mm_to_string(m.value_um);
        proof {
            lemma_dec_seq_plain(m.number as nat);
            lemma_mm_seq_plain(m.value_um as nat);
            lemma_timestamp_plain(m.timestamp@);
        }
        csv_write_row(&mut w, num_s.as_str(), m.timestamp.as_str(), val_s.as_str());
        proof {
            let pre = log@.subrange(0, i as int);
            let post = log@.subrange(0, i + 1);
            assert(post.drop_last() =~= pre);
            assert(post.last() == log@[i as int]);
            assert(writer_content(w) =~= header_seq() + rows_seq(post));
        }
        i += 1;
    }
    proof {
        assert(log@.subrange(0, n as int) =~= log@);
    }
    csv_into_string(w)
}

/// The exported file always begins with the header row, whatever the log
/// holds.
pub proof fn lemma_export_header(ms: Seq<Measurement>)
    ensures
        export_content(ms).len() >= header_seq().len(),
        export_content(ms).subrange(0, header_seq().len() as int) == header_seq(),
{
    assert(export_content(ms).subrange(0, header_seq().len() as int) =~= header_seq());
}

/// Exporting after one more sample appends exactly that sample's row, so
/// the order and the layout of earlier rows never change.
pub proof fn lemma_export_append(ms: Seq<Measurement>, m: Measurement)
    ensures
        export_content(ms.push(m)) == export_content(ms) + row_seq(m),
{
    assert(ms.push(m).drop_last() =~= ms);
    assert(ms.push(m).last() == m);
    assert(export_content(ms.push(m)) =~= export_content(ms) + row_seq(m));
}

/// How often `c` occurs in `s`.
pub open spec fn count_char(s: Seq<char>, c: char) -> nat
    decreases s.len(),
{
    if s.len() == 0 {
        0
    } else {
        count_char(s.drop_last(), c) + (if s.last() == c {
            1nat
        } else {
            0nat
        })
    }
}

proof fn lemma_count_concat(a: Seq<char>, b: Seq<char>, c: char)
    ensures
        count_char(a + b, c) == count_char(a, c) + count_char(b, c),
    decreases b.len(),
{
    if b.len() == 0 {
        assert(a + b =~= a);
    } else {
        lemma_count_concat(a, b.drop_last(), c);
        assert((a + b).drop_last() =~= a + b.drop_last());
        assert((a + b).last() == b.last());
    }
}

proof fn lemma_count_single(c: char, d: char)
    ensures
        count_char(seq![c], d) == (if c == d {
            1nat
        } else {
            0nat
        }),
{
    assert(seq![c].drop_last() =~= Seq::<char>::empty());
    assert(count_char(Seq::<char>::empty(), d) == 0);
    assert(seq![c].last() == c);
}

proof fn lemma_count_plain_newline(s: Seq<char>)
    requires
        csv_plain(s),
    ensures
        count_char(s, '\n') == 0,
    decreases s.len(),
{
    if s.len() > 0 {
        lemma_count_plain_newline(s.drop_last());
    }
}

proof fn lemma_row_one_newline(m: Measurement)
    requires
        timestamp_chars(m.timestamp@),
    ensures
        count_char(row_seq(m), '\n') == 1,
{
    let d = dec_seq(m.number as nat);
    let t = m.timestamp@;
    let v = mm_seq(m.value_um as nat);
    let semi = seq![';'];
    let nl = seq!['\n'];
    lemma_dec_seq_plain(m.number as nat);
    lemma_mm_seq_plain(m.value_um as nat);
    lemma_timestamp_plain(t);
    lemma_count_plain_newline(d);
    lemma_count_plain_newline(t);
    lemma_count_plain_newline(v);
    lemma_count_single(';', '\n');
    lemma_count_single('\n', '\n');
    lemma_count_concat(d, semi, '\n');
    lemma_count_concat(d + semi, t, '\n');
    lemma_count_concat(d + semi + t, semi, '\n');
    lemma_count_concat(d + semi + t + semi, v, '\n');
    lemma_count_concat(d + semi + t + semi + v, nl, '\n');
}

proof fn lemma_header_one_newline()
    ensures
        count_char(header_seq(), '\n') == 1,
{
    reveal_strlit("Número de medición");
    reveal_strlit("Timestamp");
    reveal_strlit("Valor (mm)");
    let a = "Número de medición"@;
    let b = "Timestamp"@;
    let c = "Valor (mm)"@;
    let semi = seq![';'];
    let nl = seq!['\n'];
    lemma_count_plain_newline(a);
    lemma_count_plain_newline(b);
    lemma_count_plain_newline(c);
    lemma_count_single(';', '\n');
    lemma_count_single('\n', '\n');
    lemma_count_concat(a, semi, '\n');
    lemma_count_concat(a + semi, b, '\n');
    lemma_count_concat(a + semi + b, semi, '\n');
    lemma_count_concat(a + semi + b + semi, c, '\n');
    lemma_count_concat(a + semi + b + semi + c, nl, '\n');
}

proof fn lemma_rows_newlines(ms: Seq<Measurement>)
    requires
        forall|i: int| 0 <= i < ms.len() ==> timestamp_chars((#[trigger] ms[i]).timestamp@),
    ensures
        count_char(rows_seq(ms), '\n') == ms.len(),
    decreases ms.len(),
{
    if ms.len() > 0 {
        lemma_rows_newlines(ms.drop_last());
        lemma_row_one_newline(ms.last());
        lemma_count_concat(rows_seq(ms.drop_last()), row_seq(ms.last()), '\n');
    }
}

/// The exported file holds exactly one line per sample beside the header
/// line: rows end in a line feed and nothing else contains one.
pub proof fn lemma_export_line_count(ms: Seq<Measurement>)
    requires
        forall|i: int| 0 <= i < ms.len() ==> timestamp_chars((#[trigger] ms[i]).timestamp@),
    ensures
        count_char(export_content(ms), '\n') == 1 + ms.len(),
{
    lemma_header_one_newline();
    lemma_rows_newlines(ms);
    lemma_count_concat(header_seq(), rows_seq(ms), '\n');
}

} // verus!
