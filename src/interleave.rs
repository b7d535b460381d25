//! The interleaver: waits on one job or many, replays each job's log as it
//! grows, keeps the first failing exit code in completion order, and words
//! the summary line of each job.

use vstd::prelude::*;

use crate::style::{hue_at, hue_for_index, Hue};
use crate::watch::{fresh_view, polled, rotated, JobState, WatchView};

verus! {

/// Why a wait cannot start.
#[derive(Debug, PartialEq, Eq)]
pub enum WaitError {
    /// No job name was given.
    NoJobs,
    /// No artifact of the named job exists, not even its lock.
    NotFound(String),
}

impl WaitError {
    pub fn message(&self) -> (r: String)
        ensures
            r@ == (match self {
                WaitError::NoJobs => "no job names supplied"@,
                WaitError::NotFound(name) => "job '"@ + name@ + "' not found"@,
            }),
    {
        match self {
            WaitError::NoJobs => String::from_str("no job names supplied"),
            WaitError::NotFound(name) => {
                let mut s = String::from_str("job '");
                s.append(name.as_str());
                s.append("' not found");
                s
            },
        }
    }
}

/// The first position at which `found` is false, where there is one.
pub open spec fn first_missing(found: Seq<bool>) -> Option<int> {
    if exists|i: int| 0 <= i < found.len() && !found[i] {
        Some(choose|i: int| 0 <= i < found.len() && !found[i] && forall|j: int| 0 <= j < i ==> found[j])
    } else {
        None
    }
}

/// The colour of the job at `i` among `n`: none for a single job or where
/// colour is off, else the palette in turn.
pub open spec fn job_hue(i: int, n: int, colors: bool) -> Option<Hue> {
    if colors && n > 1 {
        Some(hue_at(i))
    } else {
        None
    }
}

/// Where a wait stands: polling until every job's exit code is known, then
/// one more round that drains what the logs gained meanwhile, then done.
#[derive(Clone, Copy, Debug, PartialEq, Eq, Structural)]
pub enum WaitStage {
    Waiting,
    Draining,
    Done,
}

/// A wait on several jobs at once.
pub struct WaitSession {
    jobs: Vec<JobState>,
    first_error: Option<i32>,
    stage: WaitStage,
}

impl WaitSession {
    /// The watchers' states, in the order the jobs were named.
    pub closed spec fn views(&self) -> Seq<WatchView> {
        self.jobs@.map_values(|j: JobState| j@)
    }

    pub closed spec fn names(&self) -> Seq<Seq<char>> {
        self.jobs@.map_values(|j: JobState| j.name())
    }

    pub closed spec fn hues(&self) -> Seq<Option<Hue>> {
        self.jobs@.map_values(|j: JobState| j.hue())
    }

    pub closed spec fn stage_view(&self) -> WaitStage {
        self.stage
    }

    /// Whether every job's exit code is known.
    pub open spec fn all_finished(&self) -> bool {
        forall|k: int| 0 <= k < self.views().len() ==> (#[trigger] self.views()[k]).exit_code is Some
    }

    /// The first non-zero exit code seen, in the order the jobs finished.
    pub closed spec fn first_error(&self) -> Option<i32> {
        self.first_error
    }

    pub fn len(&self) -> (r: usize)
        ensures
            r == self.views().len(),
    {
        self.jobs.len()
    }

    pub fn job(&self, i: usize) -> (r: &JobState)
        requires
            i < self.views().len(),
        ensures
            r@ == self.views()[i as int],
            r.name() == self.names()[i as int],
            r.hue() == self.hues()[i as int],
    {
        &self.jobs[i]
    }

    /// Polls job `i` with what was observed of its artifacts (see
    /// `JobState::poll`). The first job seen to finish with a non-zero code
    /// fixes the session's status.
    pub fn poll_job(&mut self, i: usize, chunk: &[u8], exit_text: Option<&str>) -> (r: (bool, bool))
        requires
            i < old(self).views().len(),
            old(self).views()[i as int].offset + chunk@.len() <= u64::MAX,
        ensures
            ({
                let after = polled(
                    old(self).views()[i as int],
                    chunk@,
                    match exit_text {
                        Some(t) => Some(t@),
                        None => None,
                    },
                );
                &&& final(self).views() == old(self).views().update(i as int, after)
                &&& final(self).first_error() == (match (old(self).first_error(), after.exit_code) {
                    (None, Some(c)) => if c != 0 {
                        Some(c)
                    } else {
                        None
                    },
                    _ => old(self).first_error(),
                })
                &&& r.0 == after.exit_code is Some
                &&& r.1 == (chunk@.len() > 0 || (old(self).views()[i as int].exit_code is None
                    && exit_text is Some))
            }),
            final(self).names() == old(self).names(),
            final(self).hues() == old(self).hues(),
            final(self).stage_view() == old(self).stage_view(),
    {
        let mut job = self.jobs.remove(i);
        let r = job.poll(chunk, exit_text);
        if self.first_error.is_none() {
            match job.exit_code() {
                Some(c) => if c != 0 {
                    self.first_error = Some(c);
                },
                None => {},
            }
        }
        self.jobs.insert(i, job);
        proof {
            let before = old(self).jobs@;
            assert(self.jobs@ =~= before.update(i as int, job));
            assert(self.views() =~= old(self).views().update(i as int, job@));
            assert(self.names() =~= old(self).names());
            assert(self.hues() =~= old(self).hues());
        }
        r
    }

    /// Takes the rotation of job `i`'s log (see `JobState::take_rotated`).
    pub fn take_rotated(&mut self, i: usize, tail: &[u8]) -> (r: bool)
        requires
            i < old(self).views().len(),
            old(self).views()[i as int].rotations < u64::MAX,
        ensures
            final(self).views() == old(self).views().update(
                i as int,
                rotated(old(self).views()[i as int], tail@),
            ),
            final(self).first_error() == old(self).first_error(),
            final(self).names() == old(self).names(),
            final(self).hues() == old(self).hues(),
            final(self).stage_view() == old(self).stage_view(),
            r == (tail@.len() > 0),
    {
        let mut job = self.jobs.remove(i);
        let r = job.take_rotated(tail);
        self.jobs.insert(i, job);
        proof {
            assert(self.views() =~= old(self).views().update(i as int, job@));
            assert(self.names() =~= old(self).names());
            assert(self.hues() =~= old(self).hues());
        }
        r
    }

    pub fn stage(&self) -> (r: WaitStage)
        ensures
            r == self.stage_view(),
    {
        self.stage
    }

    /// Whether this round polls job `i`, whose current log has the given
    /// size (`0` where absent): every job while draining; while waiting,
    /// every job but one whose exit code is known and whose log is replayed
    /// up to that size.
    pub fn should_poll(&self, i: usize, log_len: u64) -> (r: bool)
        requires
            i < self.views().len(),
        ensures
            r == (self.stage_view() == WaitStage::Draining || (self.stage_view()
                == WaitStage::Waiting && !(self.views()[i as int].exit_code is Some
                && self.views()[i as int].offset == log_len))),
    {
        match self.stage {
            WaitStage::Draining => true,
            WaitStage::Waiting => !(self.jobs[i].is_finished() && self.jobs[i].offset() == log_len),
            WaitStage::Done => false,
        }
    }

    /// Ends a round of polls: waiting turns to draining once every exit code
    /// is known, and the drain round ends the wait.
    pub fn end_round(&mut self)
        ensures
            final(self).views() == old(self).views(),
            final(self).names() == old(self).names(),
            final(self).hues() == old(self).hues(),
            final(self).first_error() == old(self).first_error(),
            final(self).stage_view() == (match old(self).stage_view() {
                WaitStage::Waiting => if old(self).all_finished() {
                    WaitStage::Draining
                } else {
                    WaitStage::Waiting
                },
                _ => WaitStage::Done,
            }),
    {
        match self.stage {
            WaitStage::Waiting => {
                if self.remaining() == 0 {
                    proof {
                        broadcast use vstd::seq_lib::group_filter_ensures;
                        let p = |v: WatchView| v.exit_code is None;
                        assert forall|k: int| 0 <= k < self.views().len() implies (
                        #[trigger] self.views()[k]).exit_code is Some by {
                            if self.views()[k].exit_code is None {
                                assert(p(self.views()[k]));
                                assert(self.views().filter(p).contains(self.views()[k]));
                                assert(self.views().filter(p).len() > 0);
                            }
                        }
                    }
                    self.stage = WaitStage::Draining;
                } else {
                    proof {
                        broadcast use vstd::seq_lib::group_filter_ensures;
                        let p = |v: WatchView| v.exit_code is None;
                        if self.all_finished() {
                            let f = self.views().filter(p);
                            assert(f.len() > 0);
                            let w = f[0];
                            assert(p(w));
                            assert(f.contains(w));
                            self.views().lemma_filter_contains_rev(p, w);
                            assert(self.views().contains(w));
                            let k = choose|k: int| 0 <= k < self.views().len() && self.views()[k] == w;
                            assert(self.views()[k].exit_code is Some);
                        }
                    }
                }
            },
            _ => {
                self.stage = WaitStage::Done;
            },
        }
    }

    /// How many jobs have no known exit code yet.
    pub fn remaining(&self) -> (r: usize)
        ensures
            r == self.views().filter(|v: WatchView| v.exit_code is None).len(),
    {
        let mut k: usize = 0;
        let mut n: usize = 0;
        while k < self.jobs.len()
            invariant
                k <= self.jobs@.len(),
                n <= k,
                n == self.views().subrange(0, k as int).filter(|v: WatchView| v.exit_code is None).len(),
            decreases self.jobs@.len() - k,
        {
            let ghost pre = self.views().subrange(0, k as int);
            assert(self.views().subrange(0, k + 1) =~= pre.push(self.views()[k as int]));
            proof {
                pre.lemma_filter_push(self.views()[k as int], |v: WatchView| v.exit_code is None);
            }
            if !self.jobs[k].is_finished() {
                n = n + 1;
            }
            k = k + 1;
        }
        assert(self.views().subrange(0, k as int) =~= self.views());
        n
    }

    /// The wait's exit status: the first failing job's code, else `0`.
    pub fn status(&self) -> (r: i32)
        ensures
            r == (match self.first_error() {
                Some(c) => c,
                None => 0,
            }),
    {
        match self.first_error {
            Some(c) => c,
            None => 0,
        }
    }
}

/// Starts a wait on the named jobs. `found[i]` says whether any artifact of
/// job `i` exists (its lock included, since a job just launched may not have
/// written anything else). Colour goes to each job where `colors` is set and
/// more than one job is waited on.
pub fn wait_jobs(job_names: &[String], found: &[bool], colors: bool) -> (r: Result<
    WaitSession,
    WaitError,
>)
    requires
        found@.len() == job_names@.len(),
    ensures
        job_names@.len() == 0 ==> r == Err::<WaitSession, WaitError>(WaitError::NoJobs),
        job_names@.len() > 0 ==> match first_missing(found@) {
            Some(i) => r matches Err(WaitError::NotFound(name)) && name@ == job_names@[i]@,
            None => r matches Ok(s) && {
                &&& s.views().len() == job_names@.len()
                &&& forall|k: int|
                    0 <= k < job_names@.len() ==> {
                        &&& #[trigger] s.views()[k] == fresh_view()
                        &&& s.names()[k] == job_names@[k]@
                        &&& s.hues()[k] == job_hue(k, job_names@.len() as int, colors)
                    }
                &&& s.first_error() is None
                &&& s.stage_view() == WaitStage::Waiting
            },
        },
{
    if job_names.len() == 0 {
        return Err(WaitError::NoJobs);
    }
    let mut k: usize = 0;
    while k < found.len()
        invariant
            k <= found@.len(),
            found@.len() == job_names@.len(),
            forall|j: int| 0 <= j < k ==> found@[j],
        decreases found@.len() - k,
    {
        if !found[k] {
            let ghost i = first_missing(found@);
            assert(0 <= k < found@.len() && !found@[k as int] && forall|j: int|
                0 <= j < k ==> found@[j]);
            proof {
                let c = choose|i: int|
                    0 <= i < found@.len() && !found@[i] && forall|j: int| 0 <= j < i ==> found@[j];
                assert(c == k) by {
                    if c < k {
                        assert(found@[c]);
                    } else if c > k {
                        assert(found@[k as int]);
                    }
                }
            }
            return Err(WaitError::NotFound(job_names[k].clone()));
        }
        k = k + 1;
    }
    let n = job_names.len();
    let mut jobs: Vec<JobState> = Vec::new();
    let mut i: usize = 0;
    while i < n
        invariant
            n == job_names@.len(),
            i <= n,
            jobs@.len() == i,
            forall|k: int|
                0 <= k < i ==> {
                    &&& #[trigger] jobs@[k]@ == fresh_view()
                    &&& jobs@[k].name() == job_names@[k]@
                    &&& jobs@[k].hue() == job_hue(k, n as int, colors)
                },
        decreases n - i,
    {
        let hue = if colors && n > 1 {
            Some(hue_for_index(i))
        } else {
            None
        };
        jobs.push(JobState::new(job_names[i].as_str(), hue));
        i = i + 1;
    }
    let s = WaitSession { jobs, first_error: None, stage: WaitStage::Waiting };
    assert(first_missing(found@) is None);
    proof {
        assert forall|k: int| 0 <= k < job_names@.len() implies {
            &&& #[trigger] s.views()[k] == fresh_view()
            &&& s.names()[k] == job_names@[k]@
            &&& s.hues()[k] == job_hue(k, job_names@.len() as int, colors)
        } by {
            assert(s.jobs@[k]@ == fresh_view());
        }
    }
    Ok(s)
}

} // verus!
