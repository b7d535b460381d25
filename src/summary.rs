//! The one-line report printed for each job once a wait is over: a check or
//! a cross, the job's name, how long it ran, and its exit code.

use vstd::prelude::*;

use crate::text::{push_signed_dec, signed_dec, trim, trimmed_bounds};

verus! {

/// Whole seconds from the RFC 3339 timestamp `start` to `end`, rounded
/// toward zero (negative where `end` comes first); `None` where either text
/// is not such a timestamp.
pub uninterp spec fn rfc3339_span_secs(start: Seq<char>, end: Seq<char>) -> Option<i64>;

/// Relies on chrono's `DateTime::parse_from_rfc3339` for both texts and,
/// where both parse, on `signed_duration_since` and `TimeDelta::num_seconds`:
/// the result depends on the two texts alone.
#[verifier::external_body]
fn span_of(start: &str, end: &str) -> (r: Option<i64>)
    ensures
        r == rfc3339_span_secs(start@, end@),
{
    match (chrono::DateTime::parse_from_rfc3339(start), chrono::DateTime::parse_from_rfc3339(end)) {
        (Ok(s), Ok(e)) => Some(e.signed_duration_since(s).num_seconds()),
        _ => None,
    }
}

/// How long a job ran, given the span between its timestamps: never
/// negative, and `0` where the span is unknown.
pub open spec fn duration_from_span(span: Option<i64>) -> i64 {
    match span {
        Some(d) => if d > 0 {
            d
        } else {
            0
        },
        None => 0,
    }
}

pub fn duration_secs(span: Option<i64>) -> (r: i64)
    ensures
        r == duration_from_span(span),
{
    match span {
        Some(d) => if d > 0 {
            d
        } else {
            0
        },
        None => 0,
    }
}

/// How long a job ran, from the `started` and `ended` timestamps of its
/// `meta` artifact; `0` where either is missing or unreadable.
pub open spec fn elapsed_spec(started: Option<Seq<char>>, ended: Option<Seq<char>>) -> i64 {
    match (started, ended) {
        (Some(a), Some(b)) => duration_from_span(rfc3339_span_secs(a, b)),
        _ => 0,
    }
}

pub fn elapsed_secs(started: Option<&str>, ended: Option<&str>) -> (r: i64)
    ensures
        r == elapsed_spec(
            match started {
                Some(s) => Some(s@),
                None => None,
            },
            match ended {
                Some(s) => Some(s@),
                None => None,
            },
        ),
{
    match (started, ended) {
        (Some(a), Some(b)) => duration_secs(span_of(a, b)),
        _ => 0,
    }
}

/// The summary line of a job: `✓` for exit code `0`, else `✗`; then the
/// name, the seconds it ran, and the code, `1` where none was recorded.
pub open spec fn summary_text(name: Seq<char>, exit_code: Option<i32>, secs: i64) -> Seq<char> {
    let code = match exit_code {
        Some(c) => c,
        None => 1,
    };
    (if code == 0 {
        "✓"@
    } else {
        "✗"@
    }) + " "@ + name + " ("@ + signed_dec(secs as int) + " s) – exit "@ + signed_dec(code as int)
}

pub fn summary_line(name: &str, exit_code: Option<i32>, secs: i64) -> (r: String)
    ensures
        r@ == summary_text(name@, exit_code, secs),
{
    let code = match exit_code {
        Some(c) => c,
        None => 1,
    };
    let mut s = if code == 0 {
        String::from_str("✓")
    } else {
        String::from_str("✗")
    };
    s.append(" ");
    s.append(name);
    s.append(" (");
    push_signed_dec(&mut s, secs);
    s.append(" s) – exit ");
    push_signed_dec(&mut s, code as i64);
    s
}

/// The status of a job in the overview: `exit` and the recorded text where
/// the `exit` artifact exists, else `running`.
pub open spec fn overview_status_text(exit_text: Option<Seq<char>>) -> Seq<char> {
    match exit_text {
        Some(t) => "exit "@ + trim(t),
        None => "running"@,
    }
}

pub fn overview_status(exit_text: Option<&str>) -> (r: String)
    ensures
        r@ == overview_status_text(
            match exit_text {
                Some(t) => Some(t@),
                None => None,
            },
        ),
{
    match exit_text {
        Some(t) => {
            let (a, b) = trimmed_bounds(t);
            let mut s = String::from_str("exit ");
            s.append(t.substring_char(a, b));
            s
        },
        None => String::from_str("running"),
    }
}

} // verus!
