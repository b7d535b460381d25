//! The execution controller: how an attempt's status becomes an exit code,
//! when a failed attempt is run again, and what the `exit`, `signal` and
//! `meta` artifacts hold once the job is over.

use vstd::prelude::*;

use crate::text::{
    all_digits, dec, digit_char, digit_value, digits_value, i32_text_value, is_digit, is_space, push_char,
    push_dec, push_signed_dec, signed_dec, trim, trim_end, trim_start,
};

verus! {

/// The exit code of an attempt: its own code where it exited, `128 + n` where
/// signal `n` ended it, and `1` where the platform reported neither.
pub open spec fn mapped_exit_code(code: Option<i32>, signal: Option<u8>) -> i32 {
    match code {
        Some(c) => c,
        None => match signal {
            Some(n) => (128 + n) as i32,
            None => 1,
        },
    }
}

/// How one attempt of the command ended.
#[derive(Clone, Copy, Debug, PartialEq, Eq, Structural)]
pub struct AttemptOutcome {
    pub exit_code: i32,
    /// The signal that ended the process, where one did; only then is the
    /// `signal` artifact written.
    pub signal: Option<u8>,
}

impl AttemptOutcome {
    pub fn from_status(code: Option<i32>, signal: Option<u8>) -> (r: AttemptOutcome)
        ensures
            r.exit_code == mapped_exit_code(code, signal),
            r.signal == (if code is Some { None } else { signal }),
    {
        match code {
            Some(c) => AttemptOutcome { exit_code: c, signal: None },
            None => match signal {
                Some(n) => AttemptOutcome { exit_code: 128 + n as i32, signal: Some(n) },
                None => AttemptOutcome { exit_code: 1, signal: None },
            },
        }
    }
}

/// The text of the `exit` artifact: the code in decimal, then a newline.
pub fn exit_file_text(code: i32) -> (r: String)
    ensures
        r@ == signed_dec(code as int).push('\n'),
{
    let mut s = String::new();
    push_signed_dec(&mut s, code as i64);
    push_char(&mut s, '\n');
    s
}

/// The separator written to the combined log before each retry.
pub fn retry_marker() -> (r: &'static str)
    ensures
        r@ == "\n-- retry --\n\n"@,
{
    "\n-- retry --\n\n"
}

/// The text of the `signal` artifact: the signal number, then a newline.
pub fn signal_file_text(signal: u8) -> (r: String)
    ensures
        r@ == dec(signal as nat).push('\n'),
{
    let mut s = String::new();
    push_dec(&mut s, signal as u64);
    push_char(&mut s, '\n');
    s
}

/// The exit code that the text of an `exit` artifact records, where it
/// records one.
pub fn parse_exit_text(text: &str) -> (r: Option<i32>)
    ensures
        r == i32_text_value(text@),
{
    crate::text::parse_i32_text(text)
}

/// The `meta` artifact of a finished job.
#[derive(Debug, PartialEq, Eq)]
pub struct Meta {
    pub job: String,
    pub cmd: Vec<String>,
    /// The process id of the last attempt.
    pub pid: u32,
    /// When the first attempt started (RFC 3339).
    pub started: String,
    /// When the last attempt ended (RFC 3339).
    pub ended: String,
    pub exit_code: i32,
}

/// Where the retry policy stands.
pub struct RetryView {
    pub retries_left: nat,
    pub attempts: nat,
    pub finished: bool,
    pub last_code: i32,
    pub last_pid: u32,
}

impl RetryView {
    /// The state after an attempt that ended with `code`: it is run again
    /// only where it failed and retries remain.
    pub open spec fn step(self, code: i32, pid: u32) -> RetryView {
        let again = code != 0 && self.retries_left > 0;
        RetryView {
            retries_left: if again { (self.retries_left - 1) as nat } else { self.retries_left },
            attempts: self.attempts + 1,
            finished: !again,
            last_code: code,
            last_pid: pid,
        }
    }
}

/// Feeds successive attempts' exit codes to the policy until it stops.
pub open spec fn drive(v: RetryView, codes: Seq<i32>, pid: u32) -> RetryView
    decreases codes.len(),
{
    if codes.len() == 0 || v.finished {
        v
    } else {
        drive(v.step(codes[0], pid), codes.subrange(1, codes.len() as int), pid)
    }
}

/// The retry policy of one job: attempts beyond the first are made while the
/// last one failed and the budget of retries is not spent.
pub struct RetryController {
    retries_left: u32,
    attempts: u64,
    finished: bool,
    last_code: i32,
    last_pid: u32,
}

impl RetryController {
    pub closed spec fn view(&self) -> RetryView {
        RetryView {
            retries_left: self.retries_left as nat,
            attempts: self.attempts as nat,
            finished: self.finished,
            last_code: self.last_code,
            last_pid: self.last_pid,
        }
    }

    pub closed spec fn wf(&self) -> bool {
        &&& self.attempts <= u32::MAX as int + 1
        &&& !self.finished ==> self.attempts + self.retries_left <= u32::MAX as int
    }

    pub fn new(retries: Option<u32>) -> (r: RetryController)
        ensures
            r.wf(),
            r@.retries_left == (match retries {
                Some(n) => n as nat,
                None => 0,
            }),
            r@.attempts == 0,
            !r@.finished,
    {
        let n = match retries {
            Some(n) => n,
            None => 0,
        };
        RetryController { retries_left: n, attempts: 0, finished: false, last_code: 0, last_pid: 0 }
    }

    /// Whether the next attempt appends to the artifacts (after the retry
    /// marker) rather than starting them afresh.
    pub fn appends(&self) -> (r: bool)
        ensures
            r == (self@.attempts > 0),
    {
        self.attempts > 0
    }

    pub fn is_finished(&self) -> (r: bool)
        ensures
            r == self@.finished,
    {
        self.finished
    }

    pub fn exit_code(&self) -> (r: i32)
        ensures
            r == self@.last_code,
    {
        self.last_code
    }

    pub fn pid(&self) -> (r: u32)
        ensures
            r == self@.last_pid,
    {
        self.last_pid
    }

    pub fn attempts(&self) -> (r: u64)
        ensures
            r == self@.attempts,
    {
        self.attempts
    }

    /// The text of the `exit` artifact, once the last attempt is over; none
    /// while an attempt may still follow.
    pub fn exit_record(&self) -> (r: Option<String>)
        ensures
            r is Some <==> self@.finished,
            r matches Some(t) ==> t@ == signed_dec(self@.last_code as int).push('\n'),
    {
        if self.finished {
            Some(exit_file_text(self.last_code))
        } else {
            None
        }
    }

    /// The `meta` record of the job, once the last attempt is over.
    pub fn meta_record(&self, job: &str, cmd: &[String], started: String, ended: String) -> (r:
        Option<Meta>)
        ensures
            r is Some <==> self@.finished,
            r matches Some(m) ==> {
                &&& m.job@ == job@
                &&& m.cmd@ == cmd@
                &&& m.pid == self@.last_pid
                &&& m.started == started
                &&& m.ended == ended
                &&& m.exit_code == self@.last_code
            },
    {
        if self.finished {
            let mut v: Vec<String> = Vec::new();
            let mut i: usize = 0;
            while i < cmd.len()
                invariant
                    i <= cmd@.len(),
                    v@ == cmd@.subrange(0, i as int),
                decreases cmd@.len() - i,
            {
                v.push(cmd[i].clone());
                assert(v@ =~= cmd@.subrange(0, i + 1));
                i = i + 1;
            }
            assert(v@ =~= cmd@);
            Some(Meta {
                job: job.to_owned(),
                cmd: v,
                pid: self.last_pid,
                started,
                ended,
                exit_code: self.last_code,
            })
        } else {
            None
        }
    }

    /// Records the attempt that just ended; returns whether to run another.
    pub fn record(&mut self, code: i32, pid: u32) -> (again: bool)
        requires
            old(self).wf(),
            !old(self)@.finished,
        ensures
            final(self).wf(),
            final(self)@ == old(self)@.step(code, pid),
            again == !final(self)@.finished,
    {
        self.attempts = self.attempts + 1;
        self.last_code = code;
        self.last_pid = pid;
        if code != 0 && self.retries_left > 0 {
            self.retries_left = self.retries_left - 1;
            true
        } else {
            self.finished = true;
            false
        }
    }
}

/// What the worker does next.
#[derive(Clone, Copy, Debug, PartialEq, Eq, Structural)]
pub enum WorkerStep {
    /// Run an attempt; `true` where it appends to the artifacts after the
    /// retry marker.
    RunAttempt(bool),
    /// Write the `signal` artifact: a signal ended the last attempt.
    WriteSignal(u8),
    /// Remove any `signal` artifact: the last attempt was not ended by one.
    ClearSignal,
    /// Write the `meta` artifact.
    WriteMeta,
    /// Write the `exit` artifact, which marks the job as over.
    WriteExit,
    /// Release the lock and remove its file.
    ReleaseLock,
    Done,
}

/// The worker's progress through a job.
#[derive(Clone, Copy, Debug, PartialEq, Eq, Structural)]
pub enum Phase {
    Attempting,
    Signal,
    Meta,
    Exit,
    Lock,
    Done,
}

pub struct WorkerView {
    pub retry: RetryView,
    pub phase: Phase,
    pub last_signal: Option<u8>,
    /// When the first attempt started.
    pub started: Seq<char>,
    /// When the last attempt ended.
    pub ended: Seq<char>,
}

/// The step that a worker in state `v` takes next.
pub open spec fn step_of(v: WorkerView) -> WorkerStep {
    match v.phase {
        Phase::Attempting => WorkerStep::RunAttempt(v.retry.attempts > 0),
        Phase::Signal => match v.last_signal {
            Some(n) => WorkerStep::WriteSignal(n),
            None => WorkerStep::ClearSignal,
        },
        Phase::Meta => WorkerStep::WriteMeta,
        Phase::Exit => WorkerStep::WriteExit,
        Phase::Lock => WorkerStep::ReleaseLock,
        Phase::Done => WorkerStep::Done,
    }
}

/// The phase after a finished step of persistence.
pub open spec fn phase_after(p: Phase) -> Phase {
    match p {
        Phase::Signal => Phase::Meta,
        Phase::Meta => Phase::Exit,
        Phase::Exit => Phase::Lock,
        _ => Phase::Done,
    }
}

/// The sequence of a worker's job: attempts under the retry policy, then
/// the `signal`, `meta` and `exit` artifacts in that order, then the lock.
/// The `exit` artifact thus comes only after the last attempt, whose output
/// the caller has drained before reporting it, and the lock goes only after
/// both artifacts are written.
pub struct WorkerRun {
    control: RetryController,
    phase: Phase,
    last_signal: Option<u8>,
    started: String,
    ended: String,
}

impl WorkerRun {
    pub closed spec fn view(&self) -> WorkerView {
        WorkerView {
            retry: self.control@,
            phase: self.phase,
            last_signal: self.last_signal,
            started: self.started@,
            ended: self.ended@,
        }
    }

    pub closed spec fn wf(&self) -> bool {
        &&& self.control.wf()
        &&& (self.phase == Phase::Attempting) == !self.control@.finished
    }

    pub fn new(retries: Option<u32>) -> (r: WorkerRun)
        ensures
            r.wf(),
            r@.phase == Phase::Attempting,
            r@.retry.attempts == 0,
            r@.retry.retries_left == (match retries {
                Some(n) => n as nat,
                None => 0,
            }),
            r@.last_signal is None,
    {
        WorkerRun {
            control: RetryController::new(retries),
            phase: Phase::Attempting,
            last_signal: None,
            started: String::new(),
            ended: String::new(),
        }
    }

    pub fn next_step(&self) -> (r: WorkerStep)
        requires
            self.wf(),
        ensures
            r == step_of(self@),
            r == WorkerStep::WriteExit || r == WorkerStep::ReleaseLock ==> self@.retry.finished,
    {
        match self.phase {
            Phase::Attempting => WorkerStep::RunAttempt(self.control.appends()),
            Phase::Signal => match self.last_signal {
                Some(n) => WorkerStep::WriteSignal(n),
                None => WorkerStep::ClearSignal,
            },
            Phase::Meta => WorkerStep::WriteMeta,
            Phase::Exit => WorkerStep::WriteExit,
            Phase::Lock => WorkerStep::ReleaseLock,
            Phase::Done => WorkerStep::Done,
        }
    }

    /// Takes the outcome of the attempt just run, once both of its streams
    /// are drained into the artifacts, with the times it started and ended.
    pub fn attempt_done(&mut self, outcome: AttemptOutcome, pid: u32, started: String, ended: String)
        requires
            old(self).wf(),
            old(self)@.phase == Phase::Attempting,
        ensures
            final(self).wf(),
            final(self)@.retry == old(self)@.retry.step(outcome.exit_code, pid),
            final(self)@.last_signal == outcome.signal,
            final(self)@.started == (if old(self)@.retry.attempts == 0 {
                started@
            } else {
                old(self)@.started
            }),
            final(self)@.ended == ended@,
            final(self)@.phase == (if final(self)@.retry.finished {
                Phase::Signal
            } else {
                Phase::Attempting
            }),
    {
        if self.control.attempts() == 0 {
            self.started = started;
        }
        self.ended = ended;
        let again = self.control.record(outcome.exit_code, pid);
        self.last_signal = outcome.signal;
        if !again {
            self.phase = Phase::Signal;
        }
    }

    /// Notes that the persistence step asked for is done.
    pub fn step_done(&mut self)
        requires
            old(self).wf(),
            old(self)@.phase != Phase::Attempting,
        ensures
            final(self).wf(),
            final(self)@.retry == old(self)@.retry,
            final(self)@.last_signal == old(self)@.last_signal,
            final(self)@.started == old(self)@.started,
            final(self)@.ended == old(self)@.ended,
            final(self)@.phase == phase_after(old(self)@.phase),
    {
        self.phase = match self.phase {
            Phase::Signal => Phase::Meta,
            Phase::Meta => Phase::Exit,
            Phase::Exit => Phase::Lock,
            _ => Phase::Done,
        };
    }

    /// The text of the `exit` artifact, once the attempts are over.
    pub fn exit_text(&self) -> (r: Option<String>)
        requires
            self.wf(),
        ensures
            r is Some <==> self@.retry.finished,
            r matches Some(t) ==> t@ == signed_dec(self@.retry.last_code as int).push('\n'),
    {
        self.control.exit_record()
    }

    /// The `meta` record, once the attempts are over: the start of the
    /// first attempt, and the end, process id and exit code of the last.
    pub fn meta(&self, job: &str, cmd: &[String]) -> (r: Option<Meta>)
        requires
            self.wf(),
        ensures
            r is Some <==> self@.retry.finished,
            r matches Some(m) ==> {
                &&& m.job@ == job@
                &&& m.cmd@ == cmd@
                &&& m.pid == self@.retry.last_pid
                &&& m.started@ == self@.started
                &&& m.ended@ == self@.ended
                &&& m.exit_code == self@.retry.last_code
            },
    {
        self.control.meta_record(job, cmd, self.started.clone(), self.ended.clone())
    }
}

/// From any state of a well-formed worker, the `exit` artifact is written only
/// after the attempts are over and the `signal` and `meta` artifacts are
/// dealt with, and the lock is released only after the `exit` artifact.
pub proof fn lemma_persistence_order(v: WorkerView)
    requires
        (v.phase == Phase::Attempting) == !v.retry.finished,
    ensures
        step_of(v) == WorkerStep::WriteExit ==> v.retry.finished && v.phase == phase_after(
            phase_after(Phase::Signal),
        ),
        step_of(v) == WorkerStep::ReleaseLock ==> v.retry.finished && v.phase == phase_after(
            Phase::Exit,
        ),
        step_of(v) is RunAttempt ==> !v.retry.finished,
{
}

/// With a budget of `retries` retries and a command that fails every time,
/// exactly `retries + 1` attempts are made, and the job's exit code is that
/// of the last one.
pub proof fn lemma_always_failing(retries: u32, codes: Seq<i32>, pid: u32)
    requires
        codes.len() > retries,
        forall|i: int| 0 <= i < codes.len() ==> #[trigger] codes[i] != 0,
    ensures
        ({
            let start = RetryView {
                retries_left: retries as nat,
                attempts: 0,
                finished: false,
                last_code: 0,
                last_pid: 0,
            };
            let end = drive(start, codes, pid);
            &&& end.finished
            &&& end.attempts == retries + 1
            &&& end.last_code == codes[retries as int]
        }),
{
    lemma_drive_failing(
        RetryView { retries_left: retries as nat, attempts: 0, finished: false, last_code: 0, last_pid: 0 },
        codes,
        pid,
    );
}

proof fn lemma_drive_failing(v: RetryView, codes: Seq<i32>, pid: u32)
    requires
        !v.finished,
        codes.len() > v.retries_left,
        forall|i: int| 0 <= i < codes.len() ==> #[trigger] codes[i] != 0,
    ensures
        drive(v, codes, pid).finished,
        drive(v, codes, pid).attempts == v.attempts + v.retries_left + 1,
        drive(v, codes, pid).last_code == codes[v.retries_left as int],
    decreases codes.len(),
{
    let next = v.step(codes[0], pid);
    let rest = codes.subrange(1, codes.len() as int);
    if v.retries_left > 0 {
        assert forall|i: int| 0 <= i < rest.len() implies #[trigger] rest[i] != 0 by {
            assert(rest[i] == codes[i + 1]);
        }
        lemma_drive_failing(next, rest, pid);
        assert(rest[next.retries_left as int] == codes[v.retries_left as int]);
    } else {
        assert(drive(next, rest, pid) == next);
    }
}

/// An attempt that a signal ended (as a timeout's kill does) never counts as
/// a success.
pub proof fn lemma_signal_exit_nonzero(signal: u8)
    ensures
        mapped_exit_code(None, Some(signal)) >= 128,
        mapped_exit_code(None, Some(signal)) != 0,
{
}

/// Whichever code a job ends with, the `exit` artifact written for it reads
/// back as that same code.
pub proof fn lemma_exit_text_round_trip(code: i32)
    ensures
        i32_text_value(signed_dec(code as int).push('\n')) == Some(code),
{
    let m: nat = if code < 0 { (-code) as nat } else { code as nat };
    lemma_dec_digits(m);
    let t = signed_dec(code as int);
    let full = t.push('\n');
    lemma_no_space_trim(t);
    assert(trim(full) == t) by {
        assert(!is_space(t[0]));
        assert(full[0] == t[0]);
        assert(trim_start(full) == full);
        assert(full.drop_last() =~= t);
        assert(trim_end(full) == trim_end(t));
    }
    if code < 0 {
        assert(t.subrange(1, t.len() as int) =~= dec(m));
    }
}

/// The decimal text of `n` is a non-empty run of digits denoting `n`.
proof fn lemma_dec_digits(n: nat)
    ensures
        all_digits(dec(n)),
        dec(n).len() >= 1,
        digits_value(dec(n)) == n,
    decreases n,
{
    if n >= 10 {
        lemma_dec_digits(n / 10);
        assert(dec(n).drop_last() =~= dec(n / 10));
        assert(digit_value(digit_char((n % 10) as int)) == n % 10);
        assert(n == (n / 10) * 10 + n % 10);
        assert(dec(n).last() == digit_char((n % 10) as int));
        assert(digits_value(dec(n)) == digits_value(dec(n / 10)) * 10 + digit_value(
            digit_char((n % 10) as int),
        ));
        assert forall|i: int| 0 <= i < dec(n).len() implies is_digit(#[trigger] dec(n)[i]) by {
            if i < dec(n).len() - 1 {
                assert(dec(n)[i] == dec(n / 10)[i]);
            }
        }
    } else {
        assert(seq![digit_char(n as int)].drop_last() =~= Seq::<char>::empty());
        assert(digit_value(digit_char(n as int)) == n);
        assert(digits_value(dec(n)) == digits_value(Seq::<char>::empty()) * 10 + digit_value(
            digit_char(n as int),
        ));
    }
}

/// Text that neither starts nor ends with white space is its own trim.
proof fn lemma_no_space_trim(t: Seq<char>)
    requires
        t.len() >= 1,
        t[0] == '-' || is_digit(t[0]),
        is_digit(t.last()),
    ensures
        trim(t) == t,
{
}

} // verus!
