use temperature_protocol::logger::{ends_line, uptime, LogBatch, LogCursor, Uptime};

#[test]
fn uptime_of_a_device() {
    assert_eq!(uptime(0), Uptime { days: 0, hours: 0, mins: 0 });
    assert_eq!(uptime(59_999), Uptime { days: 0, hours: 0, mins: 0 });
    assert_eq!(uptime(60_000), Uptime { days: 0, hours: 0, mins: 1 });
    assert_eq!(uptime(2 * 86_400_000 + 5 * 3_600_000 + 59 * 60_000 + 1), Uptime { days: 2, hours: 5, mins: 59 });
    assert_eq!(uptime(u64::MAX), Uptime { days: 213_503_982_334, hours: 14, mins: 25 });
}

#[test]
fn line_ends() {
    assert_eq!(ends_line('\n'), true);
    assert_eq!(ends_line('\r'), true);
    assert_eq!(ends_line(' '), false);
    assert_eq!(ends_line('n'), false);
}

#[test]
fn new_records_are_shown_with_their_age() {
    let mut cursor = LogCursor::new();
    let batch = cursor.advance(1_000, &[0, 400, 1_000, 1_500]);
    assert_eq!(
        batch,
        LogBatch { restarted: false, ages: vec![Some(1_000), Some(600), Some(0), Some(0)] }
    );
    assert_eq!(cursor.last_ts, 1_000);
    let batch = cursor.advance(2_000, &[400, 999, 1_000, 1_700]);
    assert_eq!(batch, LogBatch { restarted: false, ages: vec![None, None, Some(1_000), Some(300)] });
    // the clock went back: everything is new
    let batch = cursor.advance(500, &[100, 600]);
    assert_eq!(batch, LogBatch { restarted: true, ages: vec![Some(400), Some(0)] });
    assert_eq!(cursor.last_ts, 500);
    let batch = cursor.advance(u64::MAX, &[0, u64::MAX - 5]);
    assert_eq!(batch, LogBatch { restarted: false, ages: vec![None, Some(5)] });
    let mut fresh = LogCursor::new();
    assert_eq!(fresh.advance(u64::MAX, &[0]).ages, vec![Some(0)]);
    assert_eq!(fresh.advance(u64::MAX, &[]).ages, Vec::<Option<i64>>::new());
}
