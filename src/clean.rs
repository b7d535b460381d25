//! Which job a file of the artifact directory belongs to, for the removal
//! of a job's artifacts, rotated logs included.

use vstd::prelude::*;

use crate::text::all_digits;

verus! {

/// The position of the last `.` in `s`, where there is one.
pub open spec fn last_dot(s: Seq<char>) -> Option<int>
    decreases s.len(),
{
    if s.len() == 0 {
        None
    } else if s.last() == '.' {
        Some(s.len() - 1)
    } else {
        last_dot(s.drop_last())
    }
}

/// `s` without its trailing numeric segments: `a.log.2` becomes `a.log`.
pub open spec fn strip_numeric(s: Seq<char>) -> Seq<char>
    decreases s.len(),
{
    match last_dot(s) {
        Some(k) => if 0 <= k < s.len() && all_digits(s.subrange(k + 1, s.len() as int)) {
            strip_numeric(s.subrange(0, k))
        } else {
            s
        },
        None => s,
    }
}

/// The extensions of a job's artifacts.
pub open spec fn known_ext(e: Seq<char>) -> bool {
    e == "out"@ || e == "err"@ || e == "log"@ || e == "exit"@ || e == "json"@ || e == "signal"@
        || e == "lock"@
}

/// The job that the file `name` is an artifact of, where it is one.
pub open spec fn artifact_job(name: Seq<char>) -> Option<Seq<char>> {
    let b = strip_numeric(name);
    match last_dot(b) {
        Some(k) => if 0 <= k < b.len() && known_ext(b.subrange(k + 1, b.len() as int)) {
            Some(b.subrange(0, k))
        } else {
            None
        },
        None => None,
    }
}

proof fn lemma_last_dot(s: Seq<char>)
    ensures
        match last_dot(s) {
            Some(k) => 0 <= k < s.len() && s[k] == '.' && forall|j: int|
                k < j < s.len() ==> s[j] != '.',
            None => forall|j: int| 0 <= j < s.len() ==> s[j] != '.',
        },
    decreases s.len(),
{
    if s.len() > 0 && s.last() != '.' {
        lemma_last_dot(s.drop_last());
        assert forall|j: int| 0 <= j < s.len() - 1 implies s.drop_last()[j] == s[j] by {}
    }
}

/// The last `.` within `s@[0..end]`.
fn find_last_dot(s: &str, end: usize) -> (r: Option<usize>)
    requires
        end <= s@.len(),
    ensures
        r == (match last_dot(s@.subrange(0, end as int)) {
            Some(k) => Some(k as usize),
            None => None::<usize>,
        }),
{
    let mut e: usize = end;
    while e > 0 && s.get_char(e - 1) != '.'
        invariant
            e <= end <= s@.len(),
            last_dot(s@.subrange(0, end as int)) == last_dot(s@.subrange(0, e as int)),
        decreases e,
    {
        assert(s@.subrange(0, e as int).drop_last() =~= s@.subrange(0, e - 1));
        e = e - 1;
    }
    if e == 0 {
        None
    } else {
        Some(e - 1)
    }
}

fn sub_equals(s: &str, from: usize, to: usize, lit: &str) -> (r: bool)
    requires
        from <= to <= s@.len(),
    ensures
        r == (s@.subrange(from as int, to as int) == lit@),
{
    let a = s.substring_char(from, to).to_owned();
    let b = lit.to_owned();
    a == b
}

/// The job that the file `name` of the artifact directory belongs to: its
/// name without trailing numeric segments, then without one of the
/// artifact extensions.
pub fn artifact_job_name(name: &str) -> (r: Option<String>)
    ensures
        match artifact_job(name@) {
            Some(j) => r matches Some(x) && x@ == j,
            None => r is None,
        },
{
    let mut e: usize = name.unicode_len();
    assert(name@.subrange(0, e as int) =~= name@);
    loop
        invariant
            e <= name@.len(),
            strip_numeric(name@) == strip_numeric(name@.subrange(0, e as int)),
        ensures
            e <= name@.len(),
            strip_numeric(name@) == name@.subrange(0, e as int),
        decreases e,
    {
        let ghost b = name@.subrange(0, e as int);
        match find_last_dot(name, e) {
            Some(k) => {
                proof {
                    lemma_last_dot(b);
                }
                if crate::text::digits_only(name, k + 1, e) {
                    assert(b.subrange(k + 1, b.len() as int) =~= name@.subrange(k + 1, e as int));
                    assert(b.subrange(0, k as int) =~= name@.subrange(0, k as int));
                    e = k;
                } else {
                    assert(b.subrange(k + 1, b.len() as int) =~= name@.subrange(k + 1, e as int));
                    assert(strip_numeric(b) == b);
                    break;
                }
            },
            None => {
                assert(strip_numeric(b) == b);
                break;
            },
        }
    }
    let ghost b = name@.subrange(0, e as int);
    assert(strip_numeric(name@) == b);
    match find_last_dot(name, e) {
        Some(k) => {
            proof {
                lemma_last_dot(b);
                assert(b.subrange(k + 1, b.len() as int) =~= name@.subrange(k + 1, e as int));
            }
            if sub_equals(name, k + 1, e, "out") || sub_equals(name, k + 1, e, "err")
                || sub_equals(name, k + 1, e, "log") || sub_equals(name, k + 1, e, "exit")
                || sub_equals(name, k + 1, e, "json") || sub_equals(name, k + 1, e, "signal")
                || sub_equals(name, k + 1, e, "lock") {
                let j = name.substring_char(0, k).to_owned();
                assert(b.subrange(0, k as int) =~= name@.subrange(0, k as int));
                Some(j)
            } else {
                None
            }
        },
        None => None,
    }
}

/// The start of the name of a file that a rotated artifact of `job` with
/// extension `ext` has.
pub open spec fn rotated_prefix(job: Seq<char>, ext: Seq<char>) -> Seq<char> {
    job.push('.') + ext.push('.')
}

pub open spec fn has_prefix(s: Seq<char>, p: Seq<char>) -> bool {
    p.len() <= s.len() && s.subrange(0, p.len() as int) == p
}

/// Whether the file `name` is a rotated artifact of `job`: it starts with
/// `<job>.<ext>.` for an artifact extension `ext`.
pub open spec fn is_rotated_of(job: Seq<char>, name: Seq<char>) -> bool {
    has_prefix(name, rotated_prefix(job, "out"@)) || has_prefix(name, rotated_prefix(job, "err"@))
        || has_prefix(name, rotated_prefix(job, "log"@)) || has_prefix(
        name,
        rotated_prefix(job, "exit"@),
    ) || has_prefix(name, rotated_prefix(job, "json"@)) || has_prefix(
        name,
        rotated_prefix(job, "signal"@),
    ) || has_prefix(name, rotated_prefix(job, "lock"@))
}

fn starts_with_rotated(name: &str, job: &str, ext: &str) -> (r: bool)
    ensures
        r == has_prefix(name@, rotated_prefix(job@, ext@)),
{
    let mut p = job.to_owned();
    crate::text::push_char(&mut p, '.');
    p.append(ext);
    crate::text::push_char(&mut p, '.');
    assert(p@ =~= rotated_prefix(job@, ext@));
    let n = name.unicode_len();
    let m = p.as_str().unicode_len();
    if m > n {
        return false;
    }
    let head = name.substring_char(0, m).to_owned();
    head == p
}

/// Whether the file `name` is a rotated artifact of `job`.
pub fn is_rotated_artifact(job: &str, name: &str) -> (r: bool)
    ensures
        r == is_rotated_of(job@, name@),
{
    starts_with_rotated(name, job, "out") || starts_with_rotated(name, job, "err")
        || starts_with_rotated(name, job, "log") || starts_with_rotated(name, job, "exit")
        || starts_with_rotated(name, job, "json") || starts_with_rotated(name, job, "signal")
        || starts_with_rotated(name, job, "lock")
}

/// Whether removal passes over a job: its lock is held by another process,
/// unless the process recorded in its metadata is known to be gone (a lock
/// left behind by a crash).
pub fn clean_skips(lock_held: bool, recorded_pid_alive: Option<bool>) -> (r: bool)
    ensures
        r == (lock_held && recorded_pid_alive != Some(false)),
{
    lock_held && !matches!(recorded_pid_alive, Some(false))
}

} // verus!
