//! Job names, the artifact paths that a name resolves to, and the launch of
//! a job: everything decided before the worker is spawned.

use vstd::prelude::*;

use unicode_normalization::UnicodeNormalization;
use vstd::utf8::encode_utf8;

use crate::text::{dec, is_space, is_space_char, push_char, push_dec};

verus! {

/// The canonical composition (NFC) of a text.
pub uninterp spec fn nfc_of(s: Seq<char>) -> Seq<char>;

/// Relies on unicode-normalization's `nfc` iterator, collected: the
/// canonical composition of the text, which depends on the text alone.
#[verifier::external_body]
fn nfc(s: &str) -> (r: String)
    ensures
        r@ == nfc_of(s@),
{
    s.nfc().collect::<String>()
}

/// Why a job name is refused.
#[derive(Clone, Copy, Debug, PartialEq, Eq, Structural)]
pub enum JobNameError {
    Empty,
    PathSeparator,
    TooLong,
    Dots,
    InvalidChar,
    NotNormalized,
}

impl JobNameError {
    pub open spec fn text(self) -> Seq<char> {
        match self {
            JobNameError::Empty => "job name cannot be empty"@,
            JobNameError::PathSeparator => "job name must not contain path separators"@,
            JobNameError::TooLong => "job name must not exceed 100 characters"@,
            JobNameError::Dots => "job name must not start with a dot or contain repeated dots"@,
            JobNameError::InvalidChar => "job name contains invalid characters"@,
            JobNameError::NotNormalized => "job name must be Unicode NFC normalised"@,
        }
    }

    pub fn message(&self) -> (r: &'static str)
        ensures
            r@ == self.text(),
    {
        match self {
            JobNameError::Empty => "job name cannot be empty",
            JobNameError::PathSeparator => "job name must not contain path separators",
            JobNameError::TooLong => "job name must not exceed 100 characters",
            JobNameError::Dots => "job name must not start with a dot or contain repeated dots",
            JobNameError::InvalidChar => "job name contains invalid characters",
            JobNameError::NotNormalized => "job name must be Unicode NFC normalised",
        }
    }
}

/// The longest job name, in characters.
pub const MAX_NAME_CHARS: usize = 100;

/// Characters a job name may hold: ASCII letters, digits, `-`, `_` and `.`,
/// and any character beyond ASCII that is not a control character.
pub open spec fn name_char_ok(c: char) -> bool {
    if c <= '\u{7f}' {
        ('a' <= c && c <= 'z') || ('A' <= c && c <= 'Z') || ('0' <= c && c <= '9') || c == '-'
            || c == '_' || c == '.'
    } else {
        !('\u{80}' <= c && c <= '\u{9f}')
    }
}

pub fn name_char_allowed(c: char) -> (r: bool)
    ensures
        r == name_char_ok(c),
{
    if c <= '\u{7f}' {
        ('a' <= c && c <= 'z') || ('A' <= c && c <= 'Z') || ('0' <= c && c <= '9') || c == '-'
            || c == '_' || c == '.'
    } else {
        !('\u{80}' <= c && c <= '\u{9f}')
    }
}

/// The first rule that the name `s` breaks, given its canonical composition
/// `normalized`; `None` where it breaks none.
pub open spec fn name_error(s: Seq<char>, normalized: Seq<char>) -> Option<JobNameError> {
    if forall|i: int| 0 <= i < s.len() ==> is_space(#[trigger] s[i]) {
        Some(JobNameError::Empty)
    } else if exists|i: int| 0 <= i < s.len() && (#[trigger] s[i] == '/' || s[i] == '\\') {
        Some(JobNameError::PathSeparator)
    } else if s.len() > MAX_NAME_CHARS {
        Some(JobNameError::TooLong)
    } else if s[0] == '.' || exists|i: int| 0 <= i < s.len() - 1 && #[trigger] s[i] == '.' && s[i + 1] == '.' {
        Some(JobNameError::Dots)
    } else if exists|i: int| 0 <= i < s.len() && !name_char_ok(#[trigger] s[i]) {
        Some(JobNameError::InvalidChar)
    } else if normalized != s {
        Some(JobNameError::NotNormalized)
    } else {
        None
    }
}

/// Checks the name `name` against the rules, given its canonical
/// composition `normalized`.
pub fn check_job_name(name: &str, normalized: &str) -> (r: Result<(), JobNameError>)
    ensures
        r == (match name_error(name@, normalized@) {
            Some(e) => Err(e),
            None => Ok(()),
        }),
{
    let n = name.unicode_len();
    let mut i: usize = 0;
    while i < n && is_space_char(name.get_char(i))
        invariant
            n == name@.len(),
            i <= n,
            forall|j: int| 0 <= j < i ==> is_space(#[trigger] name@[j]),
        decreases n - i,
    {
        i = i + 1;
    }
    if i == n {
        return Err(JobNameError::Empty);
    }
    assert(!is_space(name@[i as int]));
    let mut k: usize = 0;
    while k < n
        invariant
            n == name@.len(),
            k <= n,
            i < n,
            !is_space(name@[i as int]),
            forall|j: int| 0 <= j < k ==> #[trigger] name@[j] != '/' && name@[j] != '\\',
        decreases n - k,
    {
        let c = name.get_char(k);
        if c == '/' || c == '\\' {
            return Err(JobNameError::PathSeparator);
        }
        k = k + 1;
    }
    if n > MAX_NAME_CHARS {
        return Err(JobNameError::TooLong);
    }
    if name.get_char(0) == '.' {
        return Err(JobNameError::Dots);
    }
    let mut k: usize = 0;
    while k + 1 < n
        invariant
            n == name@.len(),
            n >= 1,
            i < n,
            !is_space(name@[i as int]),
            n <= MAX_NAME_CHARS,
            name@[0] != '.',
            forall|j: int| 0 <= j < n ==> #[trigger] name@[j] != '/' && name@[j] != '\\',
            k + 1 <= n,
            forall|j: int| 0 <= j < k ==> !(#[trigger] name@[j] == '.' && name@[j + 1] == '.'),
        decreases n - k,
    {
        if name.get_char(k) == '.' && name.get_char(k + 1) == '.' {
            assert(name@[k as int] == '.' && name@[k + 1] == '.');
            return Err(JobNameError::Dots);
        }
        k = k + 1;
    }
    let mut k: usize = 0;
    while k < n
        invariant
            n == name@.len(),
            k <= n,
            i < n,
            !is_space(name@[i as int]),
            n <= MAX_NAME_CHARS,
            name@[0] != '.',
            forall|j: int| 0 <= j < n ==> #[trigger] name@[j] != '/' && name@[j] != '\\',
            forall|j: int| 0 <= j < n - 1 ==> !(#[trigger] name@[j] == '.' && name@[j + 1] == '.'),
            forall|j: int| 0 <= j < k ==> name_char_ok(#[trigger] name@[j]),
        decreases n - k,
    {
        if !name_char_allowed(name.get_char(k)) {
            assert(!name_char_ok(name@[k as int]));
            return Err(JobNameError::InvalidChar);
        }
        k = k + 1;
    }
    let a = name.to_owned();
    let b = normalized.to_owned();
    if a != b {
        return Err(JobNameError::NotNormalized);
    }
    Ok(())
}

/// Checks a job name against the rules.
pub fn validate_job_name(name: &str) -> (r: Result<(), JobNameError>)
    ensures
        r == (match name_error(name@, nfc_of(name@)) {
            Some(e) => Err(e),
            None => Ok(()),
        }),
{
    let normalized = nfc(name);
    check_job_name(name, normalized.as_str())
}

/// `file` placed in the directory `root`, with a `/` between them where
/// `root` does not end with one.
pub open spec fn joined(root: Seq<char>, file: Seq<char>) -> Seq<char> {
    if root.len() == 0 || root.last() == '/' {
        root + file
    } else {
        root.push('/') + file
    }
}

/// The path of the artifact of job `name` with extension `ext`.
pub open spec fn artifact_path(root: Seq<char>, name: Seq<char>, ext: Seq<char>) -> Seq<char> {
    joined(root, name.push('.') + ext)
}

/// The longest artifact path, in bytes, that the platform takes.
pub const MAX_PATH_BYTES: usize = 4096;

/// Whether the UTF-8 length of the path (a length that a `usize` holds for
/// any text in memory) is under the limit.
pub open spec fn path_fits(p: Seq<char>) -> bool {
    (encode_utf8(p).len() as usize) < MAX_PATH_BYTES
}

/// The first path that does not fit, where there is one.
pub open spec fn first_unfit(ps: Seq<Seq<char>>) -> Option<Seq<char>>
    decreases ps.len(),
{
    if ps.len() == 0 {
        None
    } else if !path_fits(ps[0]) {
        Some(ps[0])
    } else {
        first_unfit(ps.subrange(1, ps.len() as int))
    }
}

/// The artifact paths of a job, in the order they are checked: standard
/// output, standard error, exit code, metadata, combined log, lock, signal.
pub open spec fn artifact_paths(root: Seq<char>, name: Seq<char>) -> Seq<Seq<char>> {
    seq![
        artifact_path(root, name, "out"@),
        artifact_path(root, name, "err"@),
        artifact_path(root, name, "exit"@),
        artifact_path(root, name, "json"@),
        artifact_path(root, name, "log"@),
        artifact_path(root, name, "lock"@),
        artifact_path(root, name, "signal"@),
    ]
}

fn artifact(root: &str, name: &str, ext: &str) -> (r: String)
    ensures
        r@ == artifact_path(root@, name@, ext@),
{
    let mut s = root.to_owned();
    let n = root.unicode_len();
    if n > 0 && root.get_char(n - 1) != '/' {
        push_char(&mut s, '/');
    }
    s.append(name);
    push_char(&mut s, '.');
    s.append(ext);
    proof {
        if n > 0 && root@.last() != '/' {
            assert(s@ =~= root@.push('/') + (name@.push('.') + ext@));
        } else {
            assert(s@ =~= root@ + (name@.push('.') + ext@));
        }
    }
    s
}

fn fits(p: &String) -> (r: bool)
    ensures
        r == path_fits(p@),
{
    p.as_str().len() < MAX_PATH_BYTES
}

/// The artifact paths of one job.
#[derive(Debug)]
pub struct JobPaths {
    pub out: String,
    pub err: String,
    pub exit: String,
    pub meta: String,
    pub log: String,
    pub lock: String,
    pub signal: String,
}

impl JobPaths {
    pub open spec fn all(&self) -> Seq<Seq<char>> {
        seq![self.out@, self.err@, self.exit@, self.meta@, self.log@, self.lock@, self.signal@]
    }

    /// The paths of job `job_name` under the directory `root`; the first
    /// that is too long for the platform is refused.
    pub fn new(root: &str, job_name: &str) -> (r: Result<JobPaths, String>)
        ensures
            match first_unfit(artifact_paths(root@, job_name@)) {
                Some(p) => r matches Err(e) && e@ == p,
                None => r matches Ok(paths) && paths.all() == artifact_paths(root@, job_name@),
            },
    {
        let ghost ps = artifact_paths(root@, job_name@);
        proof {
            reveal_with_fuel(first_unfit, 8);
            assert(ps.subrange(1, 7) =~= seq![ps[1], ps[2], ps[3], ps[4], ps[5], ps[6]]);
            assert(ps.subrange(1, 7).subrange(1, 6) =~= seq![ps[2], ps[3], ps[4], ps[5], ps[6]]);
            assert(ps.subrange(1, 7).subrange(1, 6).subrange(1, 5) =~= seq![ps[3], ps[4], ps[5], ps[6]]);
            assert(ps.subrange(1, 7).subrange(1, 6).subrange(1, 5).subrange(1, 4) =~= seq![ps[4], ps[5], ps[6]]);
            assert(ps.subrange(1, 7).subrange(1, 6).subrange(1, 5).subrange(1, 4).subrange(1, 3) =~= seq![ps[5], ps[6]]);
            assert(ps.subrange(1, 7).subrange(1, 6).subrange(1, 5).subrange(1, 4).subrange(1, 3).subrange(1, 2) =~= seq![ps[6]]);
            assert(seq![ps[6]].subrange(1, 1) =~= Seq::<Seq<char>>::empty());
        }
        let out = artifact(root, job_name, "out");
        if !fits(&out) {
            return Err(out);
        }
        let err = artifact(root, job_name, "err");
        if !fits(&err) {
            return Err(err);
        }
        let exit = artifact(root, job_name, "exit");
        if !fits(&exit) {
            return Err(exit);
        }
        let meta = artifact(root, job_name, "json");
        if !fits(&meta) {
            return Err(meta);
        }
        let log = artifact(root, job_name, "log");
        if !fits(&log) {
            return Err(log);
        }
        let lock = artifact(root, job_name, "lock");
        if !fits(&lock) {
            return Err(lock);
        }
        let signal = artifact(root, job_name, "signal");
        if !fits(&signal) {
            return Err(signal);
        }
        let r = JobPaths { out, err, exit, meta, log, lock, signal };
        assert(r.all() =~= ps);
        Ok(r)
    }
}

/// Which of a job's artifacts exist.
#[derive(Clone, Copy, Debug, PartialEq, Eq, Structural)]
pub struct Presence {
    pub out: bool,
    pub err: bool,
    pub exit: bool,
    pub meta: bool,
    pub log: bool,
    pub signal: bool,
    pub lock: bool,
}

impl Presence {
    /// Whether any artifact exists. The lock counts: a job just launched
    /// holds it before it has written anything else.
    pub fn any_exist(&self) -> (r: bool)
        ensures
            r == (self.out || self.err || self.exit || self.meta || self.log || self.signal
                || self.lock),
    {
        self.out || self.err || self.exit || self.meta || self.log || self.signal || self.lock
    }
}

/// The worker's settings, handed to it on its command line.
#[derive(Clone, Copy, Debug, PartialEq, Eq, Structural)]
pub struct WorkerConfig {
    /// Seconds after which an attempt is killed.
    pub timeout: Option<u64>,
    /// Attempts allowed beyond the first.
    pub retries: Option<u32>,
    /// Size in bytes past which the combined log is rotated.
    pub max_log_size: Option<u64>,
}

/// Why a job cannot be launched.
#[derive(Debug, PartialEq, Eq)]
pub enum JobError {
    InvalidName(JobNameError),
    EmptyCommand,
    PathTooLong(String),
    /// Another worker holds the job's lock.
    AlreadyRunning(String),
}

impl JobError {
    pub fn message(&self) -> (r: String)
        ensures
            r@ == (match self {
                JobError::InvalidName(e) => e.text(),
                JobError::EmptyCommand => "command cannot be empty"@,
                JobError::PathTooLong(p) => "artifact path exceeds OS limit: "@ + p@,
                JobError::AlreadyRunning(name) => "job '"@ + name@ + "' is already running"@,
            }),
    {
        match self {
            JobError::InvalidName(e) => String::from_str(e.message()),
            JobError::EmptyCommand => String::from_str("command cannot be empty"),
            JobError::PathTooLong(p) => {
                let mut s = String::from_str("artifact path exceeds OS limit: ");
                s.append(p.as_str());
                s
            },
            JobError::AlreadyRunning(name) => {
                let mut s = String::from_str("job '");
                s.append(name.as_str());
                s.append("' is already running");
                s
            },
        }
    }
}

/// A flag and its decimal value, where the value is set.
pub open spec fn opt_flag(flag: Seq<char>, v: Option<u64>) -> Seq<Seq<char>> {
    match v {
        Some(n) => seq![flag, dec(n as nat)],
        None => Seq::empty(),
    }
}

/// The arguments that start the worker of a job: the artifact directory and
/// the log size limit as global flags, then the `worker` subcommand with
/// `--inherited-lock` (the launcher hands its locked lock file over to the
/// worker, so that no other launch can take it in between), its timeout and
/// retries, the job name, `--`, and the command.
pub open spec fn worker_args_spec(
    root: Seq<char>,
    name: Seq<char>,
    cmd: Seq<Seq<char>>,
    config: WorkerConfig,
) -> Seq<Seq<char>> {
    seq!["--dir"@, root] + opt_flag("--max-log-size"@, config.max_log_size) + seq![
        "worker"@,
        "--inherited-lock"@,
    ] + opt_flag("--timeout"@, config.timeout) + opt_flag(
        "--retries"@,
        match config.retries {
            Some(r) => Some(r as u64),
            None => None,
        },
    ) + seq![name, "--"@] + cmd
}

/// What launching a job takes: its artifact paths and the worker's
/// arguments.
#[derive(Debug)]
pub struct Launch {
    pub paths: JobPaths,
    pub worker_args: Vec<String>,
}

fn push_opt_flag(args: &mut Vec<String>, flag: &str, v: Option<u64>)
    ensures
        final(args)@.map_values(|s: String| s@) == old(args)@.map_values(|s: String| s@) + opt_flag(
            flag@,
            v,
        ),
{
    match v {
        Some(n) => {
            args.push(flag.to_owned());
            let mut d = String::new();
            push_dec(&mut d, n);
            args.push(d);
        },
        None => {},
    }
    assert(args@.map_values(|s: String| s@) =~= old(args)@.map_values(|s: String| s@) + opt_flag(
        flag@,
        v,
    ));
}

/// Prepares the launch of job `job_name` running `cmd`, with its artifacts
/// under `root`: the name must pass the rules, the command must not be
/// empty, and every artifact path must fit.
pub fn do_job(root: &str, job_name: &str, cmd: &[String], config: WorkerConfig) -> (r: Result<
    Launch,
    JobError,
>)
    ensures
        match name_error(job_name@, nfc_of(job_name@)) {
            Some(e) => r == Err::<Launch, JobError>(JobError::InvalidName(e)),
            None => if cmd@.len() == 0 {
                r == Err::<Launch, JobError>(JobError::EmptyCommand)
            } else {
                match first_unfit(artifact_paths(root@, job_name@)) {
                    Some(p) => r matches Err(JobError::PathTooLong(e)) && e@ == p,
                    None => r matches Ok(l) && {
                        &&& l.paths.all() == artifact_paths(root@, job_name@)
                        &&& l.worker_args@.map_values(|s: String| s@) == worker_args_spec(
                            root@,
                            job_name@,
                            cmd@.map_values(|s: String| s@),
                            config,
                        )
                    },
                }
            },
        },
{
    match validate_job_name(job_name) {
        Err(e) => return Err(JobError::InvalidName(e)),
        Ok(()) => {},
    }
    if cmd.len() == 0 {
        return Err(JobError::EmptyCommand);
    }
    let paths = match JobPaths::new(root, job_name) {
        Err(p) => return Err(JobError::PathTooLong(p)),
        Ok(p) => p,
    };
    let mut args: Vec<String> = Vec::new();
    args.push(String::from_str("--dir"));
    args.push(root.to_owned());
    assert(args@.map_values(|s: String| s@) =~= seq!["--dir"@, root@]);
    push_opt_flag(&mut args, "--max-log-size", config.max_log_size);
    let ghost a1 = args@.map_values(|s: String| s@);
    args.push(String::from_str("worker"));
    args.push(String::from_str("--inherited-lock"));
    assert(args@.map_values(|s: String| s@) =~= a1 + seq!["worker"@, "--inherited-lock"@]);
    push_opt_flag(&mut args, "--timeout", config.timeout);
    let retries: Option<u64> = match config.retries {
        Some(n) => Some(n as u64),
        None => None,
    };
    push_opt_flag(&mut args, "--retries", retries);
    let ghost a2 = args@.map_values(|s: String| s@);
    args.push(job_name.to_owned());
    args.push(String::from_str("--"));
    assert(args@.map_values(|s: String| s@) =~= a2 + seq![job_name@, "--"@]);
    let ghost head = args@.map_values(|s: String| s@);
    let mut i: usize = 0;
    while i < cmd.len()
        invariant
            i <= cmd@.len(),
            args@.map_values(|s: String| s@) == head + cmd@.map_values(|s: String| s@).subrange(
                0,
                i as int,
            ),
        decreases cmd@.len() - i,
    {
        let ghost before = args@;
        let c = cmd[i].clone();
        assert(c@ == cmd@[i as int]@);
        args.push(c);
        assert(args@ =~= before.push(c));
        assert(args@.map_values(|s: String| s@) =~= before.map_values(|s: String| s@).push(c@));
        assert(args@.map_values(|s: String| s@) =~= head + cmd@.map_values(|s: String| s@).subrange(
            0,
            i + 1,
        ));
        i = i + 1;
    }
    assert(cmd@.map_values(|s: String| s@).subrange(0, i as int) =~= cmd@.map_values(
        |s: String| s@,
    ));
    assert(head =~= seq!["--dir"@, root@] + opt_flag("--max-log-size"@, config.max_log_size)
        + seq!["worker"@, "--inherited-lock"@] + opt_flag("--timeout"@, config.timeout) + opt_flag("--retries"@, retries)
        + seq![job_name@, "--"@]);
    Ok(Launch { paths, worker_args: args })
}

/// Whether clearing a finished job's leftover artifacts failed as a whole:
/// only where there was something to remove and every removal failed.
/// `removed[i]` says whether the `i`-th removal succeeded.
pub fn cleanup_failed(removed: &[bool]) -> (r: bool)
    ensures
        r == (removed@.len() > 0 && forall|i: int| 0 <= i < removed@.len() ==> !removed@[i]),
{
    if removed.len() == 0 {
        return false;
    }
    let mut i: usize = 0;
    while i < removed.len()
        invariant
            i <= removed@.len(),
            forall|j: int| 0 <= j < i ==> !removed@[j],
        decreases removed@.len() - i,
    {
        if removed[i] {
            return false;
        }
        i = i + 1;
    }
    true
}

} // verus!
