use simple3dgs::duration::{eta_secs, format_duration};

#[test]
fn duration_uses_hours_after_ninety_minutes() {
    assert_eq!(format_duration(45), "45s");
    assert_eq!(format_duration(65), "1m 05s");
    assert_eq!(format_duration(90 * 60), "1h 30m");
    assert_eq!(format_duration(2 * 3600 + 5 * 60), "2h 05m");
}

#[test]
fn eta_needs_progress() {
    assert_eq!(eta_secs(10, 0, 100), None);
    assert_eq!(eta_secs(10, 100, 100), None);
    assert_eq!(eta_secs(10, 25, 100), Some(30));
}

#[test]
fn duration_edges() {
    assert_eq!(format_duration(0), "0s");
    assert_eq!(format_duration(59), "59s");
    assert_eq!(format_duration(60), "1m 00s");
    assert_eq!(format_duration(90 * 60 - 1), "89m 59s");
    assert_eq!(format_duration(100 * 3600 + 59), "100h 00m");
}

#[test]
fn eta_saturates_and_rejects_zero_total() {
    assert_eq!(eta_secs(10, 5, 0), None);
    assert_eq!(eta_secs(u64::MAX, 1, 3), Some(u64::MAX));
    assert_eq!(eta_secs(7, 1, 2), Some(7));
}
