use pend::control::exit_file_text;
use pend::watch::{next_delay, JobState, BASE_DELAY_MS, MAX_DELAY_MS};

/// Polls a watcher against fixed artifacts until it finishes, returning the
/// bytes it showed and the exit code.
fn replay(log: &[u8], exit: &str) -> (Vec<u8>, Option<i32>) {
    let mut job = JobState::new("j", None);
    let mut shown = Vec::new();
    loop {
        let n = job.unread(Some(log.len() as u64)) as usize;
        let start = job.offset() as usize;
        let chunk = &log[start..start + n];
        shown.extend(job.render(chunk));
        let exit_text = if job.wants_exit() { Some(exit) } else { None };
        let (finished, _) = job.poll(chunk, exit_text);
        if finished {
            break;
        }
    }
    (shown, job.exit_code())
}

#[test]
fn echo_hi_replays_hi_and_exits_zero() {
    let (shown, code) = replay(b"hi\n", &exit_file_text(0));
    assert_eq!(shown, b"hi\n");
    assert_eq!(code, Some(0));
}

#[test]
fn exit_seven_is_reported() {
    let (_, code) = replay(b"", &exit_file_text(7));
    assert_eq!(code, Some(7));
}

#[test]
fn waiting_again_gives_the_same_result() {
    let first = replay(b"line 1\nline 2\n", "3\n");
    let second = replay(b"line 1\nline 2\n", "3\n");
    assert_eq!(first, second);
    assert_eq!(first.1, Some(3));
}

#[test]
fn growing_log_is_tailed_without_loss_or_duplication() {
    let full = b"abcdefghij";
    let mut job = JobState::new("grow", None);
    let mut shown = Vec::new();
    for size in [0usize, 3, 3, 7, 10] {
        let n = job.unread(Some(size as u64)) as usize;
        let start = job.offset() as usize;
        let chunk = &full[start..start + n];
        shown.extend_from_slice(chunk);
        let (finished, progress) = job.poll(chunk, None);
        assert!(!finished);
        assert_eq!(progress, n > 0);
    }
    assert_eq!(shown, full);
    assert_eq!(job.offset(), 10);
}

#[test]
fn shrunk_log_is_never_read_backwards() {
    let mut job = JobState::new("rot", None);
    job.poll(b"12345", None);
    assert_eq!(job.unread(Some(2)), 0);
    assert_eq!(job.unread(None), 0);
    job.poll(b"", None);
    assert_eq!(job.offset(), 5);
}

#[test]
fn two_watchers_agree_on_the_exit_code() {
    let mut a = JobState::new("same", None);
    let mut b = JobState::new("same", None);
    a.poll(b"partial", None);
    let (fa, _) = a.poll(b"", Some("4\n"));
    let (fb, pb) = b.poll(b"partial and more", Some("4\n"));
    assert!(fa && fb && pb);
    assert_eq!(a.exit_code(), b.exit_code());
    assert_eq!(a.exit_code(), Some(4));
    // Once known, the code stays.
    assert!(!a.wants_exit());
    a.poll(b"", Some("9\n"));
    assert_eq!(a.exit_code(), Some(4));
}

#[test]
fn unreadable_exit_text_keeps_waiting() {
    let mut job = JobState::new("half", None);
    let (finished, progress) = job.poll(b"", Some(""));
    assert!(!finished);
    assert!(progress);
    assert!(job.wants_exit());
}

#[test]
fn backoff_doubles_up_to_the_cap_and_resets() {
    assert_eq!(next_delay(BASE_DELAY_MS, false), 100);
    assert_eq!(next_delay(100, false), 200);
    assert_eq!(next_delay(1600, false), MAX_DELAY_MS);
    assert_eq!(next_delay(MAX_DELAY_MS, false), MAX_DELAY_MS);
    assert_eq!(next_delay(u64::MAX, false), MAX_DELAY_MS);
    assert_eq!(next_delay(1600, true), BASE_DELAY_MS);
}

#[test]
fn rotated_log_is_followed_without_loss() {
    // The worker wrote "0123456789" to the log, renamed it to `<log>.1`
    // after the watcher had read 6 bytes, and started a fresh log "abc".
    let old_log = b"0123456789";
    let fresh = b"abc";
    let mut job = JobState::new("rot", None);
    let mut shown = Vec::new();
    job.poll(&old_log[..6], None);
    shown.extend_from_slice(&old_log[..6]);
    assert_eq!(job.rotations(), 0);

    let n = job.unread(Some(old_log.len() as u64)) as usize;
    let tail = &old_log[job.offset() as usize..job.offset() as usize + n];
    assert!(job.take_rotated(tail));
    shown.extend_from_slice(tail);
    assert_eq!(job.offset(), 0);
    assert_eq!(job.rotations(), 1);

    let n = job.unread(Some(fresh.len() as u64)) as usize;
    let chunk = &fresh[..n];
    job.poll(chunk, Some("0\n"));
    shown.extend_from_slice(chunk);
    assert_eq!(shown, b"0123456789abc");
    assert_eq!(job.offset(), 3);
    assert_eq!(job.exit_code(), Some(0));
}
