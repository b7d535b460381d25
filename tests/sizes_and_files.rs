use pend::clean::{artifact_job_name, clean_skips, is_rotated_artifact};
use pend::size::{parse_size, SizeError};

#[test]
fn sizes_with_units() {
    assert_eq!(parse_size("10M"), Ok(10 * 1024 * 1024));
    assert_eq!(parse_size("512K"), Ok(512 * 1024));
    assert_eq!(parse_size("512kb"), Ok(512 * 1024));
    assert_eq!(parse_size("2gB"), Ok(2 * 1024 * 1024 * 1024));
    assert_eq!(parse_size(" 77 "), Ok(77));
    assert_eq!(parse_size("0"), Ok(0));
}

#[test]
fn size_errors() {
    assert_eq!(parse_size(""), Err(SizeError::Empty));
    assert_eq!(parse_size("   "), Err(SizeError::Empty));
    assert_eq!(parse_size("1K2"), Err(SizeError::Malformed));
    assert_eq!(parse_size("K"), Err(SizeError::BadNumber));
    assert_eq!(parse_size("99999999999999999999"), Err(SizeError::BadNumber));
    assert_eq!(parse_size("5x"), Err(SizeError::UnknownUnit));
    assert_eq!(parse_size("5 M"), Err(SizeError::UnknownUnit));
    assert_eq!(parse_size("5KBB"), Err(SizeError::UnknownUnit));
    assert_eq!(parse_size("17179869184G"), Err(SizeError::TooLarge));
    assert_eq!(parse_size("18446744073709551615"), Ok(u64::MAX));
}

#[test]
fn job_of_artifact_files() {
    assert_eq!(artifact_job_name("build.log"), Some("build".to_string()));
    assert_eq!(artifact_job_name("build.log.1"), Some("build".to_string()));
    assert_eq!(artifact_job_name("build.log.1.2"), Some("build".to_string()));
    assert_eq!(artifact_job_name("v1.2.json"), Some("v1.2".to_string()));
    assert_eq!(artifact_job_name("a.signal"), Some("a".to_string()));
    assert_eq!(artifact_job_name("notes.txt"), None);
    assert_eq!(artifact_job_name("plain"), None);
    assert_eq!(artifact_job_name("x.log."), Some("x".to_string()));
}

#[test]
fn rotated_artifacts_of_a_job() {
    assert!(is_rotated_artifact("rot", "rot.log.1"));
    assert!(is_rotated_artifact("rot", "rot.out.7"));
    assert!(!is_rotated_artifact("rot", "rot.log"));
    assert!(!is_rotated_artifact("rot", "rotx.log.1"));
    assert!(!is_rotated_artifact("rot", "other.log.1"));
}

#[test]
fn stale_locks_do_not_block_removal() {
    assert!(!clean_skips(false, None));
    assert!(clean_skips(true, None));
    assert!(clean_skips(true, Some(true)));
    assert!(!clean_skips(true, Some(false)));
}
