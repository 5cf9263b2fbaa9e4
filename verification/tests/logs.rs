use cratebay_core::logs::{is_expired_error_log, log_retention_days};

const DAY: u128 = 86_400 * 1_000_000_000;

#[test]
fn retention_days_from_environment() {
    assert_eq!(log_retention_days(None), 7);
    assert_eq!(log_retention_days(Some(" 30 ")), 30);
    assert_eq!(log_retention_days(Some("0")), 1);
    assert_eq!(log_retention_days(Some("1000")), 365);
    assert_eq!(log_retention_days(Some("-3")), 7);
    assert_eq!(log_retention_days(Some("week")), 7);
}

#[test]
fn old_rotated_error_logs_expire() {
    let now = 100 * DAY;
    assert!(is_expired_error_log("cratebay-error.log.2024-01-01", true, Some(now - 8 * DAY), now, 7));
    assert!(!is_expired_error_log("cratebay-error.log.2024-01-01", true, Some(now - 6 * DAY), now, 7));
    assert!(!is_expired_error_log("cratebay-error.log.2024-01-01", true, Some(now - 7 * DAY), now, 7));
    assert!(!is_expired_error_log("cratebay-error.log", true, Some(0), now, 7));
    assert!(!is_expired_error_log("other.log.1", true, Some(0), now, 7));
    assert!(!is_expired_error_log("cratebay-error.log.x", false, Some(0), now, 7));
    assert!(!is_expired_error_log("cratebay-error.log.x", true, None, now, 7));
    // A retention longer than the clock has run keeps everything.
    assert!(!is_expired_error_log("cratebay-error.log.x", true, Some(0), DAY, 7));
}
