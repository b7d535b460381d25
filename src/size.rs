//! Human-readable sizes such as `10M` or `512K`, for the log rotation limit.

use vstd::prelude::*;

use crate::text::{all_digits, digits_value, is_digit, parse_digits, trim, trimmed_bounds};

verus! {

/// Why a size text is refused.
#[derive(Clone, Copy, Debug, PartialEq, Eq, Structural)]
pub enum SizeError {
    /// Nothing but white space.
    Empty,
    /// A digit after the unit.
    Malformed,
    /// No digits, or a number beyond `u64`.
    BadNumber,
    /// A unit other than none, `K`, `KB`, `M`, `MB`, `G` or `GB`.
    UnknownUnit,
    /// The size in bytes is beyond `u64`.
    TooLarge,
}

impl SizeError {
    pub fn message(&self) -> (r: &'static str)
        ensures
            r@ == (match self {
                SizeError::Empty => "size string is empty"@,
                SizeError::Malformed => "invalid size string"@,
                SizeError::BadNumber => "invalid numeric component in size string"@,
                SizeError::UnknownUnit => "unknown size unit"@,
                SizeError::TooLarge => "size is too large"@,
            }),
    {
        match self {
            SizeError::Empty => "size string is empty",
            SizeError::Malformed => "invalid size string",
            SizeError::BadNumber => "invalid numeric component in size string",
            SizeError::UnknownUnit => "unknown size unit",
            SizeError::TooLarge => "size is too large",
        }
    }
}

pub open spec fn no_digits(s: Seq<char>) -> bool {
    forall|i: int| 0 <= i < s.len() ==> !is_digit(#[trigger] s[i])
}

/// `t` is a run of digits followed, from `k` on, by a unit without digits.
pub open spec fn splits_at(t: Seq<char>, k: int) -> bool {
    &&& 0 <= k <= t.len()
    &&& all_digits(t.subrange(0, k))
    &&& no_digits(t.subrange(k, t.len() as int))
}

/// The ASCII upper case of `c`.
pub open spec fn upper(c: char) -> char {
    if 'a' <= c && c <= 'z' {
        (c as int - 32) as char
    } else {
        c
    }
}

/// The bytes that a unit stands for, case aside.
pub open spec fn unit_multiplier(u: Seq<char>) -> Option<u64> {
    if u.len() == 0 {
        Some(1)
    } else if u.len() == 1 || (u.len() == 2 && upper(u[1]) == 'B') {
        if upper(u[0]) == 'K' {
            Some(1024)
        } else if upper(u[0]) == 'M' {
            Some(1048576)
        } else if upper(u[0]) == 'G' {
            Some(1073741824)
        } else {
            None
        }
    } else {
        None
    }
}

/// What a size text denotes, in bytes.
pub open spec fn size_value(s: Seq<char>) -> Result<u64, SizeError> {
    let t = trim(s);
    if t.len() == 0 {
        Err(SizeError::Empty)
    } else if !exists|k: int| splits_at(t, k) {
        Err(SizeError::Malformed)
    } else {
        let k = choose|k: int| splits_at(t, k);
        let n = digits_value(t.subrange(0, k));
        if k == 0 || n > u64::MAX {
            Err(SizeError::BadNumber)
        } else {
            match unit_multiplier(t.subrange(k, t.len() as int)) {
                None => Err(SizeError::UnknownUnit),
                Some(m) => if n * m > u64::MAX {
                    Err(SizeError::TooLarge)
                } else {
                    Ok((n * m) as u64)
                },
            }
        }
    }
}

fn is_digit_char(c: char) -> (r: bool)
    ensures
        r == is_digit(c),
{
    '0' <= c && c <= '9'
}

fn upper_char(c: char) -> (r: char)
    ensures
        r == upper(c),
{
    if 'a' <= c && c <= 'z' {
        ((c as u32 - 32) as u8) as char
    } else {
        c
    }
}

/// The multiplier of the unit `s@[from..to]`.
fn unit_of(s: &str, from: usize, to: usize) -> (r: Option<u64>)
    requires
        from <= to <= s@.len(),
    ensures
        r == unit_multiplier(s@.subrange(from as int, to as int)),
{
    let ghost u = s@.subrange(from as int, to as int);
    let len = to - from;
    if len == 0 {
        return Some(1);
    }
    if len > 2 {
        return None;
    }
    if len == 2 {
        assert(u[1] == s@[from + 1]);
        if upper_char(s.get_char(from + 1)) != 'B' {
            return None;
        }
    }
    assert(u[0] == s@[from as int]);
    let c = upper_char(s.get_char(from));
    if c == 'K' {
        Some(1024)
    } else if c == 'M' {
        Some(1048576)
    } else if c == 'G' {
        Some(1073741824)
    } else {
        None
    }
}

/// Reads a size such as `10M` or `512k` as bytes: digits, then an optional
/// unit `K`, `M` or `G` (powers of 1024, optionally followed by `B`, in
/// either case), with white space around ignored.
pub fn parse_size(s: &str) -> (r: Result<u64, SizeError>)
    ensures
        r == size_value(s@),
{
    let (a, b) = trimmed_bounds(s);
    let ghost t = trim(s@);
    if a == b {
        return Err(SizeError::Empty);
    }
    let mut k: usize = a;
    while k < b && is_digit_char(s.get_char(k))
        invariant
            a <= k <= b <= s@.len(),
            t == s@.subrange(a as int, b as int),
            t == trim(s@),
            all_digits(t.subrange(0, k - a)),
        decreases b - k,
    {
        assert(t.subrange(0, k + 1 - a) =~= t.subrange(0, k - a).push(s@[k as int]));
        k = k + 1;
    }
    let mut j: usize = k;
    while j < b
        invariant
            a <= k <= j <= b <= s@.len(),
            t == s@.subrange(a as int, b as int),
            t == trim(s@),
            all_digits(t.subrange(0, k - a)),
            k < b ==> !is_digit(s@[k as int]),
            no_digits(t.subrange(k - a, j - a)),
        decreases b - j,
    {
        let c = s.get_char(j);
        if '0' <= c && c <= '9' {
            proof {
                assert(is_digit(t[j - a]));
                assert forall|m: int| !splits_at(t, m) by {
                    if splits_at(t, m) {
                        if m <= j - a {
                            assert(t.subrange(m, t.len() as int)[j - a - m] == t[j - a]);
                        } else {
                            if k < b {
                                assert(t.subrange(0, m)[k - a] == t[k - a]);
                                assert(!is_digit(s@[k as int]));
                            }
                        }
                    }
                }
            }
            return Err(SizeError::Malformed);
        }
        assert(t.subrange(k - a, j + 1 - a) =~= t.subrange(k - a, j - a).push(c));
        j = j + 1;
    }
    let ghost kk = (k - a) as int;
    proof {
        assert(splits_at(t, kk));
        let ch = choose|m: int| splits_at(t, m);
        assert(ch == kk) by {
            if ch < kk {
                assert(t.subrange(0, kk)[ch] == t[ch]);
                assert(t.subrange(ch, t.len() as int)[0] == t[ch]);
            } else if ch > kk {
                assert(t.subrange(0, ch)[kk] == t[kk]);
                assert(t.subrange(kk, t.len() as int)[0] == t[kk]);
            }
        }
        assert(t.subrange(0, kk) =~= s@.subrange(a as int, k as int));
        assert(t.subrange(kk, t.len() as int) =~= s@.subrange(k as int, b as int));
    }
    if k == a {
        return Err(SizeError::BadNumber);
    }
    let n = match parse_digits(s, a, k, u64::MAX) {
        Some(n) => n,
        None => return Err(SizeError::BadNumber),
    };
    let m = match unit_of(s, k, b) {
        Some(m) => m,
        None => return Err(SizeError::UnknownUnit),
    };
    assert(m <= 1073741824);
    assert(n as u128 * m as u128 <= 18446744073709551615u128 * 1073741824u128) by (nonlinear_arith)
        requires
            n <= 18446744073709551615u64,
            m <= 1073741824,
    ;
    let p: u128 = n as u128 * m as u128;
    if p > u64::MAX as u128 {
        Err(SizeError::TooLarge)
    } else {
        Ok(p as u64)
    }
}

} // verus!
