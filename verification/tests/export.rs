use sylvac::export_csv;
use sylvac::MeasurementLog;

const HEADER: &str = "N\u{fa}mero de medici\u{f3}n;Timestamp;Valor (mm)\n";

#[test]
fn empty_log_exports_header_only() {
    let log = MeasurementLog::new();
    assert_eq!(export_csv(&log), HEADER);
}

#[test]
fn one_sample_makes_one_row() {
    let mut log = MeasurementLog::new();
    log.record("2024-01-01 00:00:00.000000000".to_string(), 12_345);
    let expected = format!("{}0;2024-01-01 00:00:00.000000000;12.345\n", HEADER);
    assert_eq!(export_csv(&log), expected);
}

#[test]
fn rows_keep_log_order_and_ordinals() {
    let mut log = MeasurementLog::new();
    log.record("2024-01-01 00:00:00.000000000".to_string(), 12_345);
    log.record("2024-01-01 00:00:00.500000000".to_string(), 7);
    log.record("2024-01-01 00:00:01.000000000".to_string(), 1_000_000);
    let expected = format!(
        "{}0;2024-01-01 00:00:00.000000000;12.345\n\
         1;2024-01-01 00:00:00.500000000;0.007\n\
         2;2024-01-01 00:00:01.000000000;1000.000\n",
        HEADER
    );
    assert_eq!(export_csv(&log), expected);
}

#[test]
fn data_row_count_equals_sample_count() {
    let mut log = MeasurementLog::new();
    for _ in 0..25 {
        log.record("2024-01-01 00:00:00.000000000".to_string(), 12_345);
    }
    let text = export_csv(&log);
    let newlines = text.chars().filter(|c| *c == '\n').count();
    assert_eq!(newlines, 1 + 25);
    assert_eq!(text.lines().count(), 1 + 25);
}

#[test]
fn header_always_first_line() {
    let mut log = MeasurementLog::new();
    log.record("2024-06-30 12:59:59.123456789".to_string(), 0);
    let text = export_csv(&log);
    assert!(text.starts_with(HEADER));
    assert_eq!(text.lines().next().unwrap(), HEADER.trim_end());
}

#[test]
fn fields_stand_in_declaration_order() {
    let mut log = MeasurementLog::new();
    log.record("2024-01-01 00:00:00.000000000".to_string(), 42);
    let text = export_csv(&log);
    let row = text.lines().nth(1).unwrap();
    let fields: Vec<&str> = row.split(';').collect();
    assert_eq!(fields, vec!["0", "2024-01-01 00:00:00.000000000", "0.042"]);
}

#[test]
fn rows_of_a_second_acquisition_restart_at_zero() {
    let mut log = MeasurementLog::new();
    log.start_acquisition();
    log.record("2024-01-01 00:00:00.000000000".to_string(), 1);
    log.start_acquisition();
    log.record("2024-01-01 00:00:01.000000000".to_string(), 2);
    let expected = format!(
        "{}0;2024-01-01 00:00:00.000000000;0.001\n\
         0;2024-01-01 00:00:01.000000000;0.002\n",
        HEADER
    );
    assert_eq!(export_csv(&log), expected);
}

#[test]
fn recorded_now_timestamp_has_the_calendar_shape() {
    let mut log = MeasurementLog::new();
    log.record_now(12_345);
    assert_eq!(log.len(), 1);
    let m = log.get(0);
    assert_eq!(m.number, 0);
    assert_eq!(m.value_um, 12_345);
    assert!(m.timestamp.len() >= 29);
    assert!(m.timestamp.chars().all(|c| {
        c.is_ascii_digit() || c == '-' || c == '+' || c == ' ' || c == ':' || c == '.'
    }));
    let tail: Vec<char> = m.timestamp.chars().rev().take(25).collect();
    let suffix: String = tail.into_iter().rev().collect();
    let bytes: Vec<char> = suffix.chars().collect();
    assert_eq!(bytes[0], '-');
    assert_eq!(bytes[3], '-');
    assert_eq!(bytes[6], ' ');
    assert_eq!(bytes[9], ':');
    assert_eq!(bytes[12], ':');
    assert_eq!(bytes[15], '.');
    for (i, c) in bytes.iter().enumerate() {
        if ![0usize, 3, 6, 9, 12, 15].contains(&i) {
            assert!(c.is_ascii_digit(), "position {i} of {suffix} is not a digit");
        }
    }
    let year: String = m.timestamp.chars().take(m.timestamp.chars().count() - 25).collect();
    assert!(year.len() >= 4);
    assert!(year.chars().enumerate().all(|(i, c)| {
        c.is_ascii_digit() || (i == 0 && (c == '+' || c == '-'))
    }));
    let text = export_csv(&log);
    assert_eq!(text.lines().count(), 2);
    let row = text.lines().nth(1).unwrap();
    assert_eq!(row.split(';').count(), 3);
    assert!(row.starts_with("0;"));
    assert!(row.ends_with(";12.345"));
}
