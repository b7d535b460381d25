use pend::summary::{duration_secs, elapsed_secs, overview_status, summary_line};

#[test]
fn summary_of_success() {
    assert_eq!(summary_line("okjob", Some(0), 42), "✓ okjob (42 s) – exit 0");
}

#[test]
fn summary_of_failure_and_of_unknown_code() {
    assert_eq!(summary_line("failjob", Some(2), 3), "✗ failjob (3 s) – exit 2");
    assert_eq!(summary_line("lost", None, 0), "✗ lost (0 s) – exit 1");
}

#[test]
fn duration_is_never_negative() {
    assert_eq!(duration_secs(Some(42)), 42);
    assert_eq!(duration_secs(Some(-3)), 0);
    assert_eq!(duration_secs(None), 0);
}

#[test]
fn elapsed_rounds_toward_zero_and_clamps() {
    let s = "2024-05-01T10:00:00.900+00:00";
    let e = "2024-05-01T10:00:02.100+00:00";
    assert_eq!(elapsed_secs(Some(s), Some(e)), 1);
    assert_eq!(elapsed_secs(Some(e), Some(s)), 0);
}

#[test]
fn elapsed_from_rfc3339_timestamps() {
    let s = "2024-05-01T10:00:00.250+00:00";
    let e = "2024-05-01T10:01:05.100+00:00";
    assert_eq!(elapsed_secs(Some(s), Some(e)), 64);
    // Offsets are honoured.
    assert_eq!(
        elapsed_secs(Some("2024-05-01T12:00:00+02:00"), Some("2024-05-01T10:00:30Z")),
        30
    );
}

#[test]
fn elapsed_is_zero_without_readable_timestamps() {
    assert_eq!(elapsed_secs(None, Some("2024-05-01T10:00:00Z")), 0);
    assert_eq!(elapsed_secs(Some("yesterday"), Some("2024-05-01T10:00:00Z")), 0);
}

#[test]
fn overview_status_of_jobs() {
    assert_eq!(overview_status(Some("0\n")), "exit 0");
    assert_eq!(overview_status(Some("  17 ")), "exit 17");
    assert_eq!(overview_status(None), "running");
}
