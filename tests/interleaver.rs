use pend::interleave::{wait_jobs, WaitError, WaitStage};
use pend::style::{hue_for_index, Hue};

fn names(v: &[&str]) -> Vec<String> {
    v.iter().map(|s| s.to_string()).collect()
}

#[test]
fn wait_on_non_existing_job_exits_fast() {
    let r = wait_jobs(&names(&["ghost"]), &[false], true);
    match r {
        Err(e) => {
            assert_eq!(e, WaitError::NotFound("ghost".to_string()));
            assert!(e.message().contains("not found"));
        }
        Ok(_) => panic!("unknown job accepted"),
    }
}

#[test]
fn first_missing_job_is_named() {
    let r = wait_jobs(&names(&["a", "b", "c"]), &[true, false, false], false);
    assert!(matches!(r, Err(WaitError::NotFound(ref n)) if n == "b"));
}

#[test]
fn no_names_is_an_error() {
    let r = wait_jobs(&[], &[], false);
    match r {
        Err(e) => {
            assert_eq!(e, WaitError::NoJobs);
            assert_eq!(e.message(), "no job names supplied");
        }
        Ok(_) => panic!("empty wait accepted"),
    }
}

#[test]
fn two_jobs_report_the_failing_code_and_both_outputs() {
    let mut s = wait_jobs(&names(&["failfast", "slowok"]), &[true, true], false).ok().unwrap();
    let mut shown: Vec<u8> = Vec::new();
    // First round: the failing job is done, the slow one has started.
    shown.extend(s.job(0).render(b"failfast-start\n"));
    s.poll_job(0, b"failfast-start\n", Some("2\n"));
    shown.extend(s.job(1).render(b"slowok-start\n"));
    s.poll_job(1, b"slowok-start\n", None);
    assert_eq!(s.remaining(), 1);
    // Second round: the slow job ends with success.
    assert!(!s.should_poll(0, 15));
    shown.extend(s.job(1).render(b"slowok-end\n"));
    let (finished, progress) = s.poll_job(1, b"slowok-end\n", Some("0\n"));
    assert!(finished && progress);
    assert_eq!(s.remaining(), 0);
    assert_eq!(s.status(), 2);
    let text = String::from_utf8(shown).unwrap();
    assert!(text.contains("failfast-start"));
    assert!(text.contains("slowok-start"));
    assert!(text.contains("slowok-end"));
}

#[test]
fn status_follows_completion_order_not_input_order() {
    let mut s = wait_jobs(&names(&["a", "b"]), &[true, true], false).ok().unwrap();
    s.poll_job(1, b"", Some("5\n"));
    s.poll_job(0, b"", Some("3\n"));
    assert_eq!(s.status(), 5);
}

#[test]
fn all_successful_jobs_give_zero() {
    let mut s = wait_jobs(&names(&["a", "b", "c"]), &[true, true, true], false).ok().unwrap();
    for i in 0..3 {
        s.poll_job(i, b"x", Some("0\n"));
    }
    assert_eq!(s.status(), 0);
}

#[test]
fn colors_cycle_through_the_palette() {
    assert_eq!(hue_for_index(0), Hue::Red);
    assert_eq!(hue_for_index(5), Hue::Cyan);
    assert_eq!(hue_for_index(6), Hue::Red);
    assert_eq!(hue_for_index(8), Hue::Yellow);
}

#[test]
fn several_jobs_are_colored() {
    let s = wait_jobs(&names(&["a", "b"]), &[true, true], true).ok().unwrap();
    assert_eq!(s.job(0).render(b"hi"), b"\x1b[31mhi\x1b[0m".to_vec());
    assert_eq!(s.job(1).render(b"yo"), b"\x1b[32myo\x1b[0m".to_vec());
}

#[test]
fn single_job_and_no_color_are_plain() {
    let one = wait_jobs(&names(&["a"]), &[true], true).ok().unwrap();
    assert_eq!(one.job(0).render(b"hi"), b"hi".to_vec());
    let off = wait_jobs(&names(&["a", "b"]), &[true, true], false).ok().unwrap();
    assert_eq!(off.job(1).render(b"hi"), b"hi".to_vec());
}

#[test]
fn wait_drains_once_after_all_jobs_finish() {
    let mut s = wait_jobs(&names(&["a", "b"]), &[true, true], false).ok().unwrap();
    assert_eq!(s.stage(), WaitStage::Waiting);
    s.poll_job(0, b"a1", Some("0\n"));
    s.end_round();
    assert_eq!(s.stage(), WaitStage::Waiting);
    // A finished, replayed job is passed over while waiting.
    assert!(!s.should_poll(0, 2));
    assert!(s.should_poll(0, 3));
    assert!(s.should_poll(1, 0));
    s.poll_job(1, b"b1", Some("1\n"));
    s.end_round();
    assert_eq!(s.stage(), WaitStage::Draining);
    // The drain round polls every job.
    assert!(s.should_poll(0, 2));
    s.poll_job(0, b"late", None);
    s.end_round();
    assert_eq!(s.stage(), WaitStage::Done);
    assert!(!s.should_poll(1, 2));
    assert_eq!(s.job(0).offset(), 6);
    assert_eq!(s.status(), 1);
}

#[test]
fn session_follows_a_rotation() {
    let mut s = wait_jobs(&names(&["r"]), &[true], false).ok().unwrap();
    s.poll_job(0, b"1234", None);
    assert!(s.take_rotated(0, b"56"));
    assert_eq!(s.job(0).offset(), 0);
    assert_eq!(s.job(0).rotations(), 1);
    assert!(!s.take_rotated(0, b""));
    assert_eq!(s.job(0).rotations(), 2);
}
