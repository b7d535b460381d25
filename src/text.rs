//! Decimal text, whitespace trimming and integer parsing shared by the
//! artifact formats.

use vstd::prelude::*;

verus! {

/// The character of the decimal digit `d`.
pub open spec fn digit_char(d: int) -> char {
    (d + 48) as char
}

pub open spec fn is_digit(c: char) -> bool {
    '0' <= c && c <= '9'
}

pub open spec fn digit_value(c: char) -> int {
    c as int - 48
}

pub open spec fn all_digits(s: Seq<char>) -> bool {
    forall|i: int| 0 <= i < s.len() ==> is_digit(#[trigger] s[i])
}

/// Decimal text of a natural number, without leading zeros.
pub open spec fn dec(n: nat) -> Seq<char>
    decreases n,
{
    if n < 10 {
        seq![digit_char(n as int)]
    } else {
        dec(n / 10).push(digit_char((n % 10) as int))
    }
}

/// Decimal text of an integer, with a leading `-` when negative.
pub open spec fn signed_dec(i: int) -> Seq<char> {
    if i < 0 {
        seq!['-'] + dec((-i) as nat)
    } else {
        dec(i as nat)
    }
}

/// The number that a run of digits denotes.
pub open spec fn digits_value(s: Seq<char>) -> int
    decreases s.len(),
{
    if s.len() == 0 {
        0
    } else {
        digits_value(s.drop_last()) * 10 + digit_value(s.last())
    }
}

/// Relies on `String::push`: appends one character.
#[verifier::external_body]
pub(crate) fn push_char(s: &mut String, c: char)
    ensures
        final(s)@ == old(s)@.push(c),
{
    s.push(c)
}

/// Appends the decimal text of `n`.
pub fn push_dec(out: &mut String, n: u64)
    ensures
        final(out)@ == old(out)@ + dec(n as nat),
    decreases n,
{
    if n >= 10 {
        push_dec(out, n / 10);
    }
    let d = (n % 10) as u8;
    push_char(out, (d + 48) as char);
    proof {
        assert(old(out)@ + dec(n as nat) =~= (if n >= 10 { old(out)@ + dec((n / 10) as nat) } else { old(out)@ }).push(digit_char((n % 10) as int)));
    }
}

/// Appends the decimal text of `i`, with a leading `-` when negative.
pub fn push_signed_dec(out: &mut String, i: i64)
    ensures
        final(out)@ == old(out)@ + signed_dec(i as int),
{
    if i < 0 {
        push_char(out, '-');
        let m = (0i128 - i as i128) as u64;
        push_dec(out, m);
        assert(old(out)@ + signed_dec(i as int) =~= old(out)@.push('-') + dec(m as nat));
    } else {
        push_dec(out, i as u64);
    }
}

/// Unicode white space, as `char::is_whitespace` decides it.
pub open spec fn is_space(c: char) -> bool {
    c == '\t' || c == '\n' || c == '\u{0B}' || c == '\u{0C}' || c == '\r' || c == ' '
        || c == '\u{85}' || c == '\u{A0}' || c == '\u{1680}' || ('\u{2000}' <= c && c <= '\u{200A}')
        || c == '\u{2028}' || c == '\u{2029}' || c == '\u{202F}' || c == '\u{205F}'
        || c == '\u{3000}'
}

pub fn is_space_char(c: char) -> (r: bool)
    ensures
        r == is_space(c),
{
    c == '\t' || c == '\n' || c == '\u{0B}' || c == '\u{0C}' || c == '\r' || c == ' '
        || c == '\u{85}' || c == '\u{A0}' || c == '\u{1680}' || ('\u{2000}' <= c && c <= '\u{200A}')
        || c == '\u{2028}' || c == '\u{2029}' || c == '\u{202F}' || c == '\u{205F}'
        || c == '\u{3000}'
}

pub open spec fn trim_start(s: Seq<char>) -> Seq<char>
    decreases s.len(),
{
    if s.len() > 0 && is_space(s[0]) {
        trim_start(s.subrange(1, s.len() as int))
    } else {
        s
    }
}

pub open spec fn trim_end(s: Seq<char>) -> Seq<char>
    decreases s.len(),
{
    if s.len() > 0 && is_space(s.last()) {
        trim_end(s.drop_last())
    } else {
        s
    }
}

/// `s` without its leading and trailing white space.
pub open spec fn trim(s: Seq<char>) -> Seq<char> {
    trim_end(trim_start(s))
}

/// The bounds of `trim(s@)` within `s@`.
pub fn trimmed_bounds(s: &str) -> (r: (usize, usize))
    ensures
        r.0 <= r.1 <= s@.len(),
        s@.subrange(r.0 as int, r.1 as int) == trim(s@),
{
    let n = s.unicode_len();
    let mut i: usize = 0;
    assert(s@.subrange(0, n as int) =~= s@);
    while i < n && is_space_char(s.get_char(i))
        invariant
            n == s@.len(),
            i <= n,
            trim_start(s@) == trim_start(s@.subrange(i as int, n as int)),
        decreases n - i,
    {
        assert(s@.subrange(i as int, n as int).subrange(1, (n - i) as int) =~= s@.subrange(
            i + 1,
            n as int,
        ));
        i = i + 1;
    }
    assert(trim_start(s@) == s@.subrange(i as int, n as int));
    let mut j: usize = n;
    while j > i && is_space_char(s.get_char(j - 1))
        invariant
            n == s@.len(),
            i <= j <= n,
            trim(s@) == trim_end(s@.subrange(i as int, j as int)),
        decreases j,
    {
        assert(s@.subrange(i as int, j as int).drop_last() =~= s@.subrange(i as int, j - 1));
        j = j - 1;
    }
    (i, j)
}

/// Whether `s@[from..to]` holds digits only.
pub fn digits_only(s: &str, from: usize, to: usize) -> (r: bool)
    requires
        from <= to <= s@.len(),
    ensures
        r == all_digits(s@.subrange(from as int, to as int)),
{
    let mut k: usize = from;
    while k < to
        invariant
            from <= k <= to <= s@.len(),
            all_digits(s@.subrange(from as int, k as int)),
        decreases to - k,
    {
        let c = s.get_char(k);
        if !('0' <= c && c <= '9') {
            assert(!is_digit(s@.subrange(from as int, to as int)[k - from]));
            return false;
        }
        assert(s@.subrange(from as int, k + 1) =~= s@.subrange(from as int, k as int).push(c));
        k = k + 1;
    }
    true
}

pub proof fn lemma_digits_value_nonneg(s: Seq<char>)
    requires
        all_digits(s),
    ensures
        digits_value(s) >= 0,
    decreases s.len(),
{
    if s.len() > 0 {
        assert(is_digit(s[s.len() - 1]));
        lemma_digits_value_nonneg(s.drop_last());
    }
}

/// A prefix of a run of digits denotes no more than the whole run.
pub proof fn lemma_digits_prefix_le(s: Seq<char>, k: int)
    requires
        all_digits(s),
        0 <= k <= s.len(),
    ensures
        digits_value(s.subrange(0, k)) <= digits_value(s),
    decreases s.len(),
{
    if k < s.len() {
        assert(is_digit(s[s.len() - 1]));
        assert(s.drop_last().subrange(0, k) =~= s.subrange(0, k));
        lemma_digits_prefix_le(s.drop_last(), k);
        lemma_digits_value_nonneg(s.drop_last());
    } else {
        assert(s.subrange(0, k) =~= s);
    }
}

/// The value of the digits `s@[from..to]`, or `None` where it exceeds `max`.
pub fn parse_digits(s: &str, from: usize, to: usize, max: u64) -> (r: Option<u64>)
    requires
        from <= to <= s@.len(),
        all_digits(s@.subrange(from as int, to as int)),
    ensures
        r == (if digits_value(s@.subrange(from as int, to as int)) <= max as int {
            Some(digits_value(s@.subrange(from as int, to as int)) as u64)
        } else {
            None::<u64>
        }),
        digits_value(s@.subrange(from as int, to as int)) >= 0,
{
    let ghost whole = s@.subrange(from as int, to as int);
    proof {
        lemma_digits_value_nonneg(whole);
    }
    let mut acc: u64 = 0;
    let mut k: usize = from;
    while k < to
        invariant
            from <= k <= to <= s@.len(),
            whole == s@.subrange(from as int, to as int),
            all_digits(whole),
            acc as int == digits_value(s@.subrange(from as int, k as int)),
            acc <= max,
        decreases to - k,
    {
        let c = s.get_char(k);
        assert(whole[k - from] == c);
        let d = (c as u32 - 48) as u64;
        let next: u128 = acc as u128 * 10 + d as u128;
        assert(s@.subrange(from as int, k + 1).drop_last() =~= s@.subrange(from as int, k as int));
        assert(next == digits_value(s@.subrange(from as int, k + 1)));
        if next > max as u128 {
            proof {
                assert(whole.subrange(0, k + 1 - from) =~= s@.subrange(from as int, k + 1));
                lemma_digits_prefix_le(whole, k + 1 - from);
            }
            return None;
        }
        acc = next as u64;
        k = k + 1;
    }
    Some(acc)
}

/// What integer parsing accepts: an optional sign, then one or more digits.
pub open spec fn int_value(t: Seq<char>) -> Option<int> {
    if t.len() > 1 && t[0] == '-' && all_digits(t.subrange(1, t.len() as int)) {
        Some(-digits_value(t.subrange(1, t.len() as int)))
    } else if t.len() > 1 && t[0] == '+' && all_digits(t.subrange(1, t.len() as int)) {
        Some(digits_value(t.subrange(1, t.len() as int)))
    } else if t.len() > 0 && all_digits(t) {
        Some(digits_value(t))
    } else {
        None
    }
}

/// The `i32` that `s`, with surrounding white space left out, denotes.
pub open spec fn i32_text_value(s: Seq<char>) -> Option<i32> {
    match int_value(trim(s)) {
        Some(v) => if i32::MIN <= v <= i32::MAX {
            Some(v as i32)
        } else {
            None
        },
        None => None,
    }
}

/// Reads an `i32` from text, ignoring white space around it.
pub fn parse_i32_text(s: &str) -> (r: Option<i32>)
    ensures
        r == i32_text_value(s@),
{
    let (a, b) = trimmed_bounds(s);
    let ghost t = trim(s@);
    if a == b {
        return None;
    }
    let first = s.get_char(a);
    assert(t[0] == first);
    if (first == '-' || first == '+') && b - a > 1 {
        assert(t.subrange(1, t.len() as int) =~= s@.subrange(a + 1, b as int));
        if !digits_only(s, a + 1, b) {
            return None;
        }
        let limit: u64 = if first == '-' { 2147483648 } else { 2147483647 };
        match parse_digits(s, a + 1, b, limit) {
            Some(m) => {
                assert(m <= limit);
                if first == '-' {
                    let v: i64 = 0i64 - m as i64;
                    Some(v as i32)
                } else {
                    Some(m as i32)
                }
            },
            None => None,
        }
    } else {
        if !digits_only(s, a, b) {
            return None;
        }
        match parse_digits(s, a, b, 2147483647) {
            Some(m) => Some(m as i32),
            None => None,
        }
    }
}

} // verus!
