use pend::control::{
    exit_file_text, parse_exit_text, retry_marker, signal_file_text, AttemptOutcome,
    RetryController, WorkerRun, WorkerStep,
};
use pend::text::parse_i32_text;

#[test]
fn normal_exit_keeps_its_code() {
    let o = AttemptOutcome::from_status(Some(7), None);
    assert_eq!(o.exit_code, 7);
    assert_eq!(o.signal, None);
}

#[test]
fn signal_maps_to_128_plus_number() {
    let o = AttemptOutcome::from_status(None, Some(9));
    assert_eq!(o.exit_code, 137);
    assert_eq!(o.signal, Some(9));
    assert_eq!(signal_file_text(9), "9\n");
}

#[test]
fn unknown_status_is_one() {
    let o = AttemptOutcome::from_status(None, None);
    assert_eq!(o.exit_code, 1);
    assert_eq!(o.signal, None);
}

#[test]
fn timeout_kill_is_a_failure() {
    // A timed-out attempt is killed with SIGKILL.
    let o = AttemptOutcome::from_status(None, Some(9));
    assert_ne!(o.exit_code, 0);
}

#[test]
fn exit_text_is_decimal_and_newline() {
    assert_eq!(exit_file_text(0), "0\n");
    assert_eq!(exit_file_text(7), "7\n");
    assert_eq!(exit_file_text(-3), "-3\n");
    assert_eq!(exit_file_text(i32::MIN), "-2147483648\n");
    assert_eq!(exit_file_text(i32::MAX), "2147483647\n");
}

#[test]
fn exit_text_reads_back() {
    for c in [0, 1, 2, 7, 42, 137, -1, -250, i32::MIN, i32::MAX] {
        assert_eq!(parse_exit_text(&exit_file_text(c)), Some(c));
    }
}

#[test]
fn exit_text_parsing_edges() {
    assert_eq!(parse_exit_text("  12 \n"), Some(12));
    assert_eq!(parse_exit_text("+5"), Some(5));
    assert_eq!(parse_exit_text(""), None);
    assert_eq!(parse_exit_text("\n"), None);
    assert_eq!(parse_exit_text("-"), None);
    assert_eq!(parse_exit_text("1 2"), None);
    assert_eq!(parse_exit_text("abc"), None);
    assert_eq!(parse_exit_text("2147483648"), None);
    assert_eq!(parse_exit_text("-2147483649"), None);
    assert_eq!(parse_i32_text("\u{3000}9\u{a0}"), Some(9));
}

#[test]
fn always_failing_command_makes_retries_plus_one_attempts() {
    for retries in [0u32, 1, 3, 5] {
        let mut c = RetryController::new(Some(retries));
        let mut made = 0u64;
        loop {
            assert_eq!(c.appends(), made > 0);
            made += 1;
            let code = 10 + made as i32;
            if !c.record(code, 100 + made as u32) {
                break;
            }
        }
        assert_eq!(made, retries as u64 + 1);
        assert_eq!(c.attempts(), retries as u64 + 1);
        assert_eq!(c.exit_code(), 10 + made as i32);
        assert_eq!(c.pid(), 100 + made as u32);
        assert!(c.is_finished());
    }
}

#[test]
fn retries_stop_at_first_success() {
    let mut c = RetryController::new(Some(1));
    assert!(!c.appends());
    assert!(c.exit_record().is_none());
    assert!(c.record(3, 11));
    assert!(c.appends());
    assert!(c.exit_record().is_none());
    assert!(!c.record(0, 12));
    assert_eq!(c.exit_code(), 0);
    assert_eq!(c.exit_record(), Some("0\n".to_string()));
}

#[test]
fn no_retries_by_default() {
    let mut c = RetryController::new(None);
    assert!(!c.record(2, 1));
    assert_eq!(c.attempts(), 1);
    assert_eq!(c.exit_record(), Some("2\n".to_string()));
}

/// Drives a worker through its steps with the given attempt outcomes and
/// returns the steps it asked for.
fn worker_steps(retries: Option<u32>, outcomes: &[AttemptOutcome]) -> (Vec<WorkerStep>, WorkerRun) {
    let mut run = WorkerRun::new(retries);
    let mut steps = Vec::new();
    let mut next = 0;
    loop {
        let step = run.next_step();
        steps.push(step);
        match step {
            WorkerStep::RunAttempt(_) => {
                run.attempt_done(
                    outcomes[next],
                    500 + next as u32,
                    format!("start-{next}"),
                    format!("end-{next}"),
                );
                next += 1;
            }
            WorkerStep::Done => break,
            _ => run.step_done(),
        }
    }
    (steps, run)
}

#[test]
fn worker_writes_exit_after_last_attempt_then_releases_lock() {
    let fail = AttemptOutcome::from_status(Some(4), None);
    let killed = AttemptOutcome::from_status(None, Some(9));
    let (steps, run) = worker_steps(Some(2), &[fail, fail, killed]);
    assert_eq!(
        steps,
        vec![
            WorkerStep::RunAttempt(false),
            WorkerStep::RunAttempt(true),
            WorkerStep::RunAttempt(true),
            WorkerStep::WriteSignal(9),
            WorkerStep::WriteMeta,
            WorkerStep::WriteExit,
            WorkerStep::ReleaseLock,
            WorkerStep::Done,
        ]
    );
    assert_eq!(run.exit_text(), Some("137\n".to_string()));
    let cmd = vec!["sleep".to_string(), "9".to_string()];
    let meta = run.meta("job", &cmd).unwrap();
    assert_eq!(meta.pid, 502);
    assert_eq!(meta.exit_code, 137);
    assert_eq!(meta.cmd, cmd);
    // The first attempt's start, the last attempt's end.
    assert_eq!(meta.started, "start-0");
    assert_eq!(meta.ended, "end-2");
}

#[test]
fn worker_clears_signal_when_last_attempt_exited() {
    let killed = AttemptOutcome::from_status(None, Some(15));
    let ok = AttemptOutcome::from_status(Some(0), None);
    let (steps, run) = worker_steps(Some(5), &[killed, ok]);
    assert_eq!(steps[2], WorkerStep::ClearSignal);
    assert_eq!(steps.len(), 7);
    assert_eq!(run.exit_text(), Some("0\n".to_string()));
}

#[test]
fn no_exit_text_before_attempts_are_over() {
    let run = WorkerRun::new(Some(1));
    assert_eq!(run.exit_text(), None);
    assert!(run.meta("j", &[]).is_none());
}

#[test]
fn retry_marker_text() {
    assert_eq!(retry_marker(), "\n-- retry --\n\n");
}

#[test]
fn lock_removed_after_job_finishes() {
    // `bash -c "echo hi"` exits 0 on its first attempt.
    let ok = AttemptOutcome::from_status(Some(0), None);
    let (steps, _) = worker_steps(None, &[ok]);
    let exit_at = steps.iter().position(|s| *s == WorkerStep::WriteExit).unwrap();
    let release_at = steps.iter().position(|s| *s == WorkerStep::ReleaseLock).unwrap();
    assert!(exit_at < release_at);
    assert_eq!(steps.last(), Some(&WorkerStep::Done));
}

#[test]
fn combined_log_holds_one_section_per_attempt() {
    for retries in [0u32, 1, 4] {
        let fail = AttemptOutcome::from_status(Some(1), None);
        let outcomes = vec![fail; retries as usize + 1];
        let (steps, run) = worker_steps(Some(retries), &outcomes);
        let mut log = String::new();
        for s in &steps {
            if let WorkerStep::RunAttempt(append) = s {
                if *append {
                    log.push_str(retry_marker());
                }
                log.push_str("attempt failed\n");
            }
        }
        assert_eq!(log.split(retry_marker()).count(), retries as usize + 1);
        assert_eq!(log.matches("attempt failed").count(), retries as usize + 1);
        assert_eq!(run.exit_text(), Some("1\n".to_string()));
    }
}
