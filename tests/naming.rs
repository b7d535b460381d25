use pend::naming::{
    check_job_name, cleanup_failed, do_job, validate_job_name, JobError, JobNameError, JobPaths,
    Presence, WorkerConfig,
};

fn launch_error(name: &str) -> JobError {
    let cmd = vec!["echo".to_string(), "oops".to_string()];
    let cfg = WorkerConfig { timeout: None, retries: None, max_log_size: None };
    match do_job("/tmp/pend", name, &cmd, cfg) {
        Err(e) => e,
        Ok(_) => panic!("name accepted: {name}"),
    }
}

#[test]
fn rejects_leading_dot() {
    let e = launch_error(".hidden");
    assert_eq!(e, JobError::InvalidName(JobNameError::Dots));
    assert!(e.message().contains("job name"));
}

#[test]
fn rejects_repeated_dots() {
    let e = launch_error("name..oops");
    assert_eq!(e, JobError::InvalidName(JobNameError::Dots));
    assert!(e.message().contains("job name"));
}

#[test]
fn rejects_too_long() {
    let long_name = "x".repeat(101);
    let e = launch_error(&long_name);
    assert_eq!(e, JobError::InvalidName(JobNameError::TooLong));
    assert!(e.message().contains("job name"));
}

#[test]
fn name_rules_in_order() {
    assert_eq!(validate_job_name(""), Err(JobNameError::Empty));
    assert_eq!(validate_job_name(" \t"), Err(JobNameError::Empty));
    assert_eq!(validate_job_name("a/b"), Err(JobNameError::PathSeparator));
    assert_eq!(validate_job_name("a\\b"), Err(JobNameError::PathSeparator));
    assert_eq!(validate_job_name("a b"), Err(JobNameError::InvalidChar));
    assert_eq!(validate_job_name("a\u{85}"), Err(JobNameError::InvalidChar));
    assert_eq!(validate_job_name(&"y".repeat(100)), Ok(()));
    assert_eq!(validate_job_name("build-1.2_x"), Ok(()));
    assert_eq!(validate_job_name("café"), Ok(()));
}

#[test]
fn decomposed_name_is_not_normalized() {
    assert_eq!(validate_job_name("cafe\u{301}"), Err(JobNameError::NotNormalized));
    assert_eq!(check_job_name("abc", "abd"), Err(JobNameError::NotNormalized));
    assert_eq!(check_job_name("abc", "abc"), Ok(()));
}

#[test]
fn empty_command_is_refused() {
    let cfg = WorkerConfig { timeout: None, retries: None, max_log_size: None };
    assert_eq!(do_job("/tmp", "ok", &[], cfg).err(), Some(JobError::EmptyCommand));
}

#[test]
fn already_running_message() {
    let e = JobError::AlreadyRunning("dup".to_string());
    assert_eq!(e.message(), "job 'dup' is already running");
}

#[test]
fn artifact_paths_of_a_job() {
    let p = JobPaths::new("/tmp/jobs", "build").ok().unwrap();
    assert_eq!(p.out, "/tmp/jobs/build.out");
    assert_eq!(p.err, "/tmp/jobs/build.err");
    assert_eq!(p.exit, "/tmp/jobs/build.exit");
    assert_eq!(p.meta, "/tmp/jobs/build.json");
    assert_eq!(p.log, "/tmp/jobs/build.log");
    assert_eq!(p.lock, "/tmp/jobs/build.lock");
    assert_eq!(p.signal, "/tmp/jobs/build.signal");
    let q = JobPaths::new("/tmp/jobs/", "b").ok().unwrap();
    assert_eq!(q.out, "/tmp/jobs/b.out");
    let r = JobPaths::new("", "b").ok().unwrap();
    assert_eq!(r.log, "b.log");
}

#[test]
fn overlong_path_is_refused() {
    let root = format!("/{}", "d".repeat(4090));
    // `/ddd…/j.out` is 4097 bytes: the first path checked, and too long.
    match JobPaths::new(&root, "j") {
        Err(p) => assert_eq!(p, format!("{root}/j.out")),
        Ok(_) => panic!("overlong path accepted"),
    }
    let root = format!("/{}", "d".repeat(4087));
    // Here only `.signal`, the longest extension, does not fit.
    match JobPaths::new(&root, "j") {
        Err(p) => assert_eq!(p, format!("{root}/j.signal")),
        Ok(_) => panic!("overlong path accepted"),
    }
}

#[test]
fn worker_arguments_carry_the_configuration() {
    let cmd = vec!["bash".to_string(), "-c".to_string(), "echo hi".to_string()];
    let cfg = WorkerConfig { timeout: Some(5), retries: Some(2), max_log_size: Some(1024) };
    let l = do_job("/tmp/jobs", "hi", &cmd, cfg).ok().unwrap();
    assert_eq!(
        l.worker_args,
        vec![
            "--dir", "/tmp/jobs", "--max-log-size", "1024", "worker", "--inherited-lock",
            "--timeout", "5",
            "--retries", "2", "hi", "--", "bash", "-c", "echo hi"
        ]
    );
    assert_eq!(l.paths.log, "/tmp/jobs/hi.log");
    let plain = WorkerConfig { timeout: None, retries: None, max_log_size: None };
    let l = do_job("/r", "x", &cmd[..1], plain).ok().unwrap();
    assert_eq!(l.worker_args, vec!["--dir", "/r", "worker", "--inherited-lock", "x", "--", "bash"]);
}

#[test]
fn lock_alone_counts_as_a_job() {
    let none = Presence {
        out: false,
        err: false,
        exit: false,
        meta: false,
        log: false,
        signal: false,
        lock: false,
    };
    assert!(!none.any_exist());
    assert!(Presence { lock: true, ..none }.any_exist());
    assert!(Presence { exit: true, ..none }.any_exist());
}

#[test]
fn cleanup_fails_only_when_every_removal_fails() {
    assert!(!cleanup_failed(&[]));
    assert!(!cleanup_failed(&[false, true, false]));
    assert!(cleanup_failed(&[false, false]));
}
