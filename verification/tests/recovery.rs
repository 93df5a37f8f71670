use plate_spinner::recovery::{is_running_stale, is_stale, MAX_RECOVERY_TIME_SECS};

#[test]
fn max_recovery_time_is_12_seconds() {
    assert_eq!(MAX_RECOVERY_TIME_SECS, 12);
}

#[test]
fn not_stale_when_equal() {
    assert!(!is_stale(100, 100));
}

#[test]
fn not_stale_within_threshold() {
    assert!(!is_stale(102, 100));
}

#[test]
fn stale_when_past_threshold() {
    assert!(is_stale(103, 100));
}

#[test]
fn stale_when_well_past_threshold() {
    assert!(is_stale(200, 100));
}

#[test]
fn not_stale_when_transcript_older() {
    assert!(!is_stale(90, 100));
}

#[test]
fn running_not_stale_within_threshold() {
    assert!(!is_running_stale(100, 130));
}

#[test]
fn running_stale_when_past_threshold() {
    assert!(is_running_stale(100, 131));
}

#[test]
fn running_stale_when_well_past_threshold() {
    assert!(is_running_stale(100, 200));
}
