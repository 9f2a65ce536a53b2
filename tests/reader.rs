use hwinfo_prometheus::error::{ReaderError, SVMOpenError};
use hwinfo_prometheus::hwinfo_reader::{has_advanced, startup_action, Reader, StartupAction, OPEN_ATTEMPTS};
use hwinfo_prometheus::hwinfo_types::{SensorReadingType, READING_RECORD_SIZE, SENSOR_RECORD_SIZE};
use hwinfo_prometheus::metrics::Metrics;

fn text_field(out: &mut Vec<u8>, text: &str, width: usize) {
    let mut field = vec![0u8; width];
    field[..text.len()].copy_from_slice(text.as_bytes());
    out.extend_from_slice(&field);
}

/// A region with one sensor and one temperature reading per value.
fn fixture(poll_time: i64, period: u32, values: &[f64]) -> Vec<u8> {
    fixture_with_index(poll_time, period, values, 0)
}

fn fixture_with_index(poll_time: i64, period: u32, values: &[f64], sensor_index: u32) -> Vec<u8> {
    let sensor_offset = 48u32;
    let reading_offset = sensor_offset + SENSOR_RECORD_SIZE as u32;
    let mut out = Vec::new();
    for v in [1u32, 2, 3] {
        out.extend_from_slice(&v.to_le_bytes());
    }
    out.extend_from_slice(&poll_time.to_le_bytes());
    for v in [
        sensor_offset,
        SENSOR_RECORD_SIZE as u32,
        1,
        reading_offset,
        READING_RECORD_SIZE as u32,
        values.len() as u32,
        period,
    ] {
        out.extend_from_slice(&v.to_le_bytes());
    }
    out.extend_from_slice(&7u32.to_le_bytes());
    out.extend_from_slice(&0u32.to_le_bytes());
    text_field(&mut out, "CPU", 128);
    text_field(&mut out, "CPU", 128);
    text_field(&mut out, "CPU", 128);
    for (i, v) in values.iter().enumerate() {
        out.push(1);
        out.extend_from_slice(&sensor_index.to_le_bytes());
        out.extend_from_slice(&(i as u32).to_le_bytes());
        text_field(&mut out, "Core", 128);
        text_field(&mut out, "Core", 128);
        text_field(&mut out, "C", 16);
        for _ in 0..4 {
            out.extend_from_slice(&v.to_le_bytes());
        }
        text_field(&mut out, &format!("Core {}", i), 128);
        text_field(&mut out, "C", 16);
    }
    out
}

fn values_of(r: &Reader) -> Vec<f64> {
    r.readings.iter().map(|e| f64::from_bits(e.value_bits)).collect()
}

#[test]
fn construction_without_region_is_not_available() {
    assert!(matches!(Reader::new(Err(SVMOpenError)), Err(ReaderError::NotAvailable)));
    assert!(!SVMOpenError.message().is_empty());
}

#[test]
fn construction_decodes_both_arrays() {
    let b = fixture(100, 1000, &[40.0, 41.0]);
    let r = Reader::new(Ok(&b)).unwrap();
    assert_eq!(r.sensors.len(), 1);
    assert_eq!(r.sensors[0].sensor_id, 7);
    assert_eq!(values_of(&r), vec![40.0, 41.0]);
    assert_eq!(r.previous_update, 100);
    assert_eq!(r.failed_updates, 0);
    assert_eq!(r.info.poll_time, 100);
    assert!(!r.needs_reinit());
}

#[test]
fn construction_rejects_corrupt_regions() {
    let b = fixture(100, 1000, &[40.0]);
    assert!(matches!(Reader::new(Ok(&b[..40])), Err(ReaderError::CorruptLayout)));
    assert!(matches!(Reader::new(Ok(&b[..b.len() - 1])), Err(ReaderError::CorruptLayout)));
    let bad_index = fixture_with_index(100, 1000, &[40.0], 1);
    assert!(matches!(Reader::new(Ok(&bad_index)), Err(ReaderError::CorruptLayout)));
}

#[test]
fn accepted_then_stale_end_to_end() {
    let mut r = Reader::new(Ok(&fixture(100, 1000, &[40.0]))).unwrap();
    let second = fixture(101, 1000, &[42.0]);
    assert!(r.update_readings(Ok(&second)).is_ok());
    assert_eq!(r.failed_updates, 0);
    assert_eq!(r.previous_update, 101);
    assert_eq!(values_of(&r), vec![42.0]);
    let third = fixture(101, 1000, &[43.0]);
    assert!(matches!(r.update_readings(Ok(&third)), Err(ReaderError::StaleUpdate)));
    assert_eq!(r.failed_updates, 1);
    assert_eq!(values_of(&r), vec![42.0]);
}

#[test]
fn repeated_stale_updates_count_one_each() {
    let b = fixture(100, 1000, &[40.0, 41.0]);
    let mut r = Reader::new(Ok(&b)).unwrap();
    assert!(matches!(r.update_readings(Ok(&b)), Err(ReaderError::StaleUpdate)));
    assert_eq!(r.failed_updates, 1);
    assert_eq!(values_of(&r), vec![40.0, 41.0]);
    assert!(matches!(r.update_readings(Ok(&b)), Err(ReaderError::StaleUpdate)));
    assert_eq!(r.failed_updates, 2);
    assert_eq!(values_of(&r), vec![40.0, 41.0]);
}

#[test]
fn fourth_update_after_three_failures_reinitializes() {
    let b = fixture(100, 1000, &[40.0]);
    let mut r = Reader::new(Ok(&b)).unwrap();
    for n in 1..=3u32 {
        assert!(r.update_readings(Ok(&b)).is_err());
        assert_eq!(r.failed_updates, n);
    }
    assert!(r.needs_reinit());
    let fresh = fixture(500, 1000, &[50.0, 51.0, 52.0]);
    assert!(r.update_readings(Ok(&fresh)).is_ok());
    assert_eq!(r.failed_updates, 0);
    assert_eq!(r.previous_update, 500);
    assert_eq!(values_of(&r), vec![50.0, 51.0, 52.0]);
    assert!(!r.needs_reinit());
}

#[test]
fn failed_reinit_keeps_last_good_state() {
    let b = fixture(100, 1000, &[40.0]);
    let mut r = Reader::new(Ok(&b)).unwrap();
    for _ in 0..3 {
        let _ = r.update_readings(Err(SVMOpenError));
    }
    assert_eq!(r.failed_updates, 3);
    assert!(matches!(r.update_readings(Err(SVMOpenError)), Err(ReaderError::ReinitFailed)));
    assert!(matches!(r.update_readings(Ok(&b[..30])), Err(ReaderError::ReinitFailed)));
    assert_eq!(r.failed_updates, 3);
    assert_eq!(values_of(&r), vec![40.0]);
    assert_eq!(r.previous_update, 100);
}

#[test]
fn corrupt_refresh_counts_a_failure() {
    let mut r = Reader::new(Ok(&fixture(100, 1000, &[40.0]))).unwrap();
    let moved = fixture(102, 1000, &[41.0]);
    assert!(matches!(r.update_readings(Ok(&moved[..moved.len() - 5])), Err(ReaderError::CorruptLayout)));
    assert!(matches!(r.update_readings(Ok(&moved[..10])), Err(ReaderError::CorruptLayout)));
    let bad_index = fixture_with_index(103, 1000, &[41.0], 4);
    assert!(matches!(r.update_readings(Ok(&bad_index)), Err(ReaderError::CorruptLayout)));
    assert_eq!(r.failed_updates, 3);
    assert_eq!(values_of(&r), vec![40.0]);
}

#[test]
fn staleness_compares_in_milliseconds() {
    assert!(has_advanced(100, 101, 1000));
    assert!(!has_advanced(100, 100, 1000));
    assert!(!has_advanced(100, 101, 1001));
    assert!(has_advanced(100, 102, 1500));
    assert!(has_advanced(100, 99, 1000));
    assert!(has_advanced(100, 100, 0));
    assert!(!has_advanced(100, 100, 1));
    assert!(has_advanced(i64::MIN, i64::MAX, u32::MAX));
}

#[test]
fn table_rows_follow_the_snapshot() {
    let r = Reader::new(Ok(&fixture(100, 1000, &[40.0, 41.5]))).unwrap();
    let sensors = r.sensor_rows();
    assert_eq!(sensors.len(), 1);
    assert_eq!(sensors[0].id, 7);
    assert_eq!(sensors[0].name, "CPU");
    let rows = r.reading_rows();
    assert_eq!(rows.len(), 2);
    assert_eq!(rows[1].sensor_name, "CPU");
    assert_eq!(rows[1].label, "Core 1");
    assert_eq!(f64::from_bits(rows[1].value_bits), 41.5);
    assert_eq!(rows[1].id, 1);
}

#[test]
fn publishing_records_every_reading() {
    let r = Reader::new(Ok(&fixture(100, 1000, &[40.0, 41.5]))).unwrap();
    let mut m = Metrics::new();
    m.record_readings(&r);
    assert_eq!(m.len(), 2);
    let e = m.entry(1);
    assert_eq!(e.family, SensorReadingType::Temp);
    assert_eq!(e.labels.sensor, "CPU");
    assert_eq!(e.labels.reading, "Core 1");
    assert_eq!(e.labels.unit, "");
    assert_eq!(f64::from_bits(e.value_bits), 41.5);
    m.record_readings(&r);
    assert_eq!(m.len(), 2);
}

#[test]
fn startup_retries_up_to_the_last_attempt() {
    let missing = Reader::new(Err(SVMOpenError));
    assert_eq!(OPEN_ATTEMPTS, 7);
    for attempt in 1..7u32 {
        assert_eq!(startup_action(attempt, &missing), StartupAction::Retry);
    }
    assert_eq!(startup_action(7, &missing), StartupAction::GiveUp);
    let built = Reader::new(Ok(&fixture(100, 1000, &[40.0])));
    assert_eq!(startup_action(1, &built), StartupAction::Proceed);
    assert_eq!(startup_action(9, &built), StartupAction::Proceed);
}
