//! The completion watcher of one job: how far its combined log has been
//! replayed, whether its exit code is known, and how long to sleep between
//! polls when no file-change events arrive.

use vstd::prelude::*;

use crate::control::parse_exit_text;
use crate::style::{paint, shown_bytes, Hue};
use crate::text::i32_text_value;

verus! {

/// Where a watcher stands: the offset replayed up to within the current log
/// file, how many rotated logs it has finished, the exit code once the
/// `exit` artifact has been read, and every log byte it has taken so far.
pub struct WatchView {
    pub offset: nat,
    pub rotations: nat,
    pub exit_code: Option<i32>,
    pub taken: Seq<u8>,
}

/// The state of a watcher that has replayed nothing yet.
pub open spec fn fresh_view() -> WatchView {
    WatchView { offset: 0, rotations: 0, exit_code: None, taken: Seq::empty() }
}

/// Bytes of a log file not replayed yet, given its observed size (`None`
/// where the file does not exist). A log seen shorter than the offset gives
/// nothing: the bytes past the offset are those of a log that was renamed,
/// and they are read from the rotated file (see `rotated`).
pub open spec fn unread_len(offset: nat, log_size: Option<u64>) -> nat {
    match log_size {
        Some(n) => if n > offset {
            (n - offset) as nat
        } else {
            0
        },
        None => 0,
    }
}

/// The watcher's state after one poll that read `chunk` from the current
/// log at its offset and, where the exit code was still unknown,
/// `exit_text` from the `exit` artifact (`None` where it does not exist).
pub open spec fn polled(v: WatchView, chunk: Seq<u8>, exit_text: Option<Seq<char>>) -> WatchView {
    WatchView {
        offset: v.offset + chunk.len(),
        rotations: v.rotations,
        exit_code: match v.exit_code {
            Some(c) => Some(c),
            None => match exit_text {
                Some(t) => i32_text_value(t),
                None => None,
            },
        },
        taken: v.taken + chunk,
    }
}

/// The watcher's state once the log it was reading has been found renamed
/// to the next rotated name, and `tail`, that file's bytes from the offset
/// on, has been read: the fresh log is then read from its first byte.
pub open spec fn rotated(v: WatchView, tail: Seq<u8>) -> WatchView {
    WatchView {
        offset: 0,
        rotations: v.rotations + 1,
        exit_code: v.exit_code,
        taken: v.taken + tail,
    }
}

/// One job that a wait observes.
pub struct JobState {
    name: String,
    log_offset: u64,
    rotations: u64,
    exit_code: Option<i32>,
    hue: Option<Hue>,
    taken: Ghost<Seq<u8>>,
}

impl JobState {
    pub closed spec fn view(&self) -> WatchView {
        WatchView {
            offset: self.log_offset as nat,
            rotations: self.rotations as nat,
            exit_code: self.exit_code,
            taken: self.taken@,
        }
    }

    pub closed spec fn hue(&self) -> Option<Hue> {
        self.hue
    }

    pub closed spec fn name(&self) -> Seq<char> {
        self.name@
    }

    /// A watcher that has replayed nothing yet.
    pub fn new(name: &str, hue: Option<Hue>) -> (r: JobState)
        ensures
            r@ == fresh_view(),
            r.hue() == hue,
            r.name() == name@,
    {
        JobState {
            name: name.to_owned(),
            log_offset: 0,
            rotations: 0,
            exit_code: None,
            hue,
            taken: Ghost(Seq::empty()),
        }
    }

    pub fn name_str(&self) -> (r: &str)
        ensures
            r@ == self.name(),
    {
        self.name.as_str()
    }

    pub fn offset(&self) -> (r: u64)
        ensures
            r == self@.offset,
    {
        self.log_offset
    }

    /// How many rotated logs have been read through: the next one to look
    /// for is `<log>.<rotations + 1>`.
    pub fn rotations(&self) -> (r: u64)
        ensures
            r == self@.rotations,
    {
        self.rotations
    }

    pub fn exit_code(&self) -> (r: Option<i32>)
        ensures
            r == self@.exit_code,
    {
        self.exit_code
    }

    /// Whether the job's exit code is known.
    pub fn is_finished(&self) -> (r: bool)
        ensures
            r == self@.exit_code is Some,
    {
        self.exit_code.is_some()
    }

    /// How many bytes to read from a log file, starting at the offset,
    /// given its observed size.
    pub fn unread(&self, log_size: Option<u64>) -> (r: u64)
        ensures
            r == unread_len(self@.offset, log_size),
    {
        match log_size {
            Some(n) => if n > self.log_offset {
                n - self.log_offset
            } else {
                0
            },
            None => 0,
        }
    }

    /// Whether the `exit` artifact still needs to be read.
    pub fn wants_exit(&self) -> (r: bool)
        ensures
            r == self@.exit_code is None,
    {
        self.exit_code.is_none()
    }

    /// Takes what one poll observed: `chunk`, the bytes read from the
    /// current log at the offset, and the text of the `exit` artifact where
    /// it exists. Returns `(finished, progress)`: whether the exit code is
    /// known, and whether the poll brought new bytes or found the `exit`
    /// artifact.
    pub fn poll(&mut self, chunk: &[u8], exit_text: Option<&str>) -> (r: (bool, bool))
        requires
            old(self)@.offset + chunk@.len() <= u64::MAX,
        ensures
            final(self)@ == polled(
                old(self)@,
                chunk@,
                match exit_text {
                    Some(t) => Some(t@),
                    None => None,
                },
            ),
            final(self).hue() == old(self).hue(),
            final(self).name() == old(self).name(),
            r.0 == final(self)@.exit_code is Some,
            r.1 == (chunk@.len() > 0 || (old(self)@.exit_code is None && exit_text is Some)),
    {
        self.log_offset = self.log_offset + chunk.len() as u64;
        self.taken = Ghost(self.taken@ + chunk@);
        let mut progress = chunk.len() > 0;
        if self.exit_code.is_none() {
            match exit_text {
                Some(t) => {
                    self.exit_code = parse_exit_text(t);
                    progress = true;
                },
                None => {},
            }
        }
        (self.exit_code.is_some(), progress)
    }

    /// Takes the rotation of the log that was being read: `tail` is the
    /// rotated file's bytes from the offset on. Reading goes on with the
    /// fresh log from its first byte. Returns whether `tail` held bytes.
    pub fn take_rotated(&mut self, tail: &[u8]) -> (r: bool)
        requires
            old(self)@.rotations < u64::MAX,
        ensures
            final(self)@ == rotated(old(self)@, tail@),
            final(self).hue() == old(self).hue(),
            final(self).name() == old(self).name(),
            r == (tail@.len() > 0),
    {
        self.log_offset = 0;
        self.rotations = self.rotations + 1;
        self.taken = Ghost(self.taken@ + tail@);
        tail.len() > 0
    }

    /// The log bytes `chunk` as this job shows them.
    pub fn render(&self, chunk: &[u8]) -> (r: Vec<u8>)
        ensures
            r@ == shown_bytes(self.hue(), chunk@),
    {
        paint(self.hue, chunk)
    }
}

/// The shortest sleep between polls, in milliseconds.
pub const BASE_DELAY_MS: u64 = 50;

/// The longest sleep between polls, in milliseconds.
pub const MAX_DELAY_MS: u64 = 2000;

/// The sleep before the next poll: back to the shortest after a poll that
/// made progress, else doubled, up to the longest.
pub open spec fn next_delay_spec(current: u64, progress: bool) -> u64 {
    if progress {
        BASE_DELAY_MS
    } else if 2 * current > MAX_DELAY_MS {
        MAX_DELAY_MS
    } else {
        (2 * current) as u64
    }
}

pub fn next_delay(current: u64, progress: bool) -> (r: u64)
    ensures
        r == next_delay_spec(current, progress),
{
    if progress {
        BASE_DELAY_MS
    } else if current > MAX_DELAY_MS / 2 {
        MAX_DELAY_MS
    } else {
        current * 2
    }
}

/// A watcher's place in the log never goes back, whatever a poll observes:
/// within one log file the offset only grows, and it starts again at zero
/// only on moving to the next rotated file.
pub proof fn lemma_position_monotone(
    v: WatchView,
    chunk: Seq<u8>,
    exit_text: Option<Seq<char>>,
    tail: Seq<u8>,
)
    ensures
        polled(v, chunk, exit_text).rotations == v.rotations,
        polled(v, chunk, exit_text).offset >= v.offset,
        rotated(v, tail).rotations > v.rotations,
        polled(v, chunk, exit_text).taken.len() >= v.taken.len(),
        rotated(v, tail).taken.len() >= v.taken.len(),
{
}

/// Tailing an append-only log loses and repeats nothing: where a watcher
/// has taken `before` and then the log's bytes up to its offset, a poll that
/// reads the log from the offset up to `k` leaves it having taken `before`
/// and the log's bytes up to `k`.
pub proof fn lemma_tail_exact(
    v: WatchView,
    before: Seq<u8>,
    log: Seq<u8>,
    k: int,
    exit_text: Option<Seq<char>>,
)
    requires
        v.offset <= k <= log.len(),
        v.taken == before + log.subrange(0, v.offset as int),
    ensures
        polled(v, log.subrange(v.offset as int, k), exit_text).taken == before + log.subrange(0, k),
        polled(v, log.subrange(v.offset as int, k), exit_text).offset == k,
{
    assert(log.subrange(0, v.offset as int) + log.subrange(v.offset as int, k) =~= log.subrange(0, k));
    assert(before + log.subrange(0, v.offset as int) + log.subrange(v.offset as int, k) =~= before
        + log.subrange(0, k));
}

/// Rotation loses and repeats nothing either: where the log being read is
/// renamed, taking the renamed file's tail leaves the watcher having taken
/// all of that file, at offset zero of the fresh log.
pub proof fn lemma_rotation_exact(v: WatchView, before: Seq<u8>, old_log: Seq<u8>)
    requires
        v.offset <= old_log.len(),
        v.taken == before + old_log.subrange(0, v.offset as int),
    ensures
        rotated(v, old_log.subrange(v.offset as int, old_log.len() as int)).taken == (before
            + old_log) + Seq::<u8>::empty(),
        rotated(v, old_log.subrange(v.offset as int, old_log.len() as int)).offset == 0,
{
    assert(before + old_log.subrange(0, v.offset as int) + old_log.subrange(
        v.offset as int,
        old_log.len() as int,
    ) =~= (before + old_log) + Seq::<u8>::empty());
}

/// Two watchers of the same finished job, in separate processes and at any
/// point of their progress, reach the same exit code once each has read the
/// `exit` artifact, and keep it.
pub proof fn lemma_watchers_agree(
    a: WatchView,
    b: WatchView,
    chunk_a: Seq<u8>,
    chunk_b: Seq<u8>,
    exit_text: Seq<char>,
)
    requires
        a.exit_code is None,
        b.exit_code is None,
    ensures
        polled(a, chunk_a, Some(exit_text)).exit_code == polled(b, chunk_b, Some(exit_text)).exit_code,
        polled(a, chunk_a, Some(exit_text)).exit_code == i32_text_value(exit_text),
        i32_text_value(exit_text) is Some ==> forall|c: Seq<u8>, t: Option<Seq<char>>|
            #[trigger] polled(polled(a, chunk_a, Some(exit_text)), c, t).exit_code
                == i32_text_value(exit_text),
        forall|tail: Seq<u8>|
            #[trigger] rotated(polled(a, chunk_a, Some(exit_text)), tail).exit_code == polled(
                a,
                chunk_a,
                Some(exit_text),
            ).exit_code,
{
}

/// Waiting again on a finished job replays the same log and reports the same
/// exit code: a fresh watcher that reads the whole log and the `exit`
/// artifact ends having taken exactly the log, with the code the artifact
/// records, every time.
pub proof fn lemma_rewait_same(log: Seq<u8>, exit_text: Seq<char>)
    ensures
        ({
            let start = WatchView { offset: 0, rotations: 0, exit_code: None, taken: Seq::empty() };
            let n = unread_len(0, Some(log.len() as u64));
            &&& log.len() <= u64::MAX ==> n == log.len()
            &&& polled(start, log, Some(exit_text)) == (WatchView {
                offset: log.len(),
                rotations: 0,
                exit_code: i32_text_value(exit_text),
                taken: log,
            })
        }),
{
    assert(Seq::<u8>::empty() + log =~= log);
}

} // verus!
