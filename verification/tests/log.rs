use sylvac::MeasurementLog;

#[test]
fn new_log_is_empty() {
    let log = MeasurementLog::new();
    assert_eq!(log.len(), 0);
}

#[test]
fn record_appends_in_order() {
    let mut log = MeasurementLog::new();
    log.record("2024-01-01 00:00:00.000000000".to_string(), 1);
    log.record("2024-01-01 00:00:00.500000000".to_string(), 2);
    assert_eq!(log.len(), 2);
    let first = log.get(0);
    assert_eq!(first.number, 0);
    assert_eq!(first.timestamp, "2024-01-01 00:00:00.000000000");
    assert_eq!(first.value_um, 1);
    let second = log.get(1);
    assert_eq!(second.number, 1);
    assert_eq!(second.value_um, 2);
}

#[test]
fn numbering_restarts_with_each_acquisition() {
    let mut log = MeasurementLog::new();
    log.start_acquisition();
    log.record("2024-01-01 00:00:00.000000000".to_string(), 1);
    log.record("2024-01-01 00:00:00.500000000".to_string(), 2);
    log.start_acquisition();
    log.record("2024-01-01 00:00:01.000000000".to_string(), 3);
    log.record("2024-01-01 00:00:01.500000000".to_string(), 4);
    assert_eq!(log.len(), 4);
    assert_eq!(log.get(0).number, 0);
    assert_eq!(log.get(1).number, 1);
    assert_eq!(log.get(2).number, 0);
    assert_eq!(log.get(3).number, 1);
    assert_eq!(log.get(3).value_um, 4);
}

#[test]
fn recording_without_new_acquisition_continues_the_run() {
    let mut log = MeasurementLog::new();
    log.start_acquisition();
    log.record("2024-01-01 00:00:00.000000000".to_string(), 1);
    log.record("2024-01-01 00:00:00.500000000".to_string(), 2);
    log.record("2024-01-01 00:00:01.000000000".to_string(), 3);
    assert_eq!(log.get(2).number, 2);
}

#[test]
fn ordinal_counts_through_a_full_run() {
    let mut log = MeasurementLog::new();
    for k in 0..100 {
        log.record("2024-01-01 00:00:00.000000000".to_string(), k);
    }
    assert_eq!(log.len(), 100);
    for k in 0..100 {
        let m = log.get(k);
        assert_eq!(m.number, k);
        assert_eq!(m.value_um, k as u64);
    }
}
