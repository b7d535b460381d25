//! The palette that tells jobs apart in interleaved output.

use vstd::prelude::*;

use anstyle::{AnsiColor, Color, Style};

verus! {

/// One of the six foreground colours that jobs take in turn.
#[derive(Clone, Copy, Debug, PartialEq, Eq, Structural)]
pub enum Hue {
    Red,
    Green,
    Yellow,
    Blue,
    Magenta,
    Cyan,
}

/// The ANSI colour number of a hue.
pub open spec fn hue_number(h: Hue) -> int {
    match h {
        Hue::Red => 1,
        Hue::Green => 2,
        Hue::Yellow => 3,
        Hue::Blue => 4,
        Hue::Magenta => 5,
        Hue::Cyan => 6,
    }
}

/// The hue of the job at position `i`: the palette, cycled.
pub open spec fn hue_at(i: int) -> Hue {
    let k = i % 6;
    if k == 0 {
        Hue::Red
    } else if k == 1 {
        Hue::Green
    } else if k == 2 {
        Hue::Yellow
    } else if k == 3 {
        Hue::Blue
    } else if k == 4 {
        Hue::Magenta
    } else {
        Hue::Cyan
    }
}

pub fn hue_for_index(i: usize) -> (r: Hue)
    ensures
        r == hue_at(i as int),
{
    let k = i % 6;
    if k == 0 {
        Hue::Red
    } else if k == 1 {
        Hue::Green
    } else if k == 2 {
        Hue::Yellow
    } else if k == 3 {
        Hue::Blue
    } else if k == 4 {
        Hue::Magenta
    } else {
        Hue::Cyan
    }
}

/// The escape sequence that switches the foreground to `h`.
pub open spec fn fg_escape_text(h: Hue) -> Seq<char> {
    seq!['\u{1b}', '[', '3', (48 + hue_number(h)) as char, 'm']
}

/// The escape sequence that resets all attributes.
pub open spec fn reset_escape_text() -> Seq<char> {
    seq!['\u{1b}', '[', '0', 'm']
}

/// Relies on anstyle's `Style::render` of a style whose only attribute is
/// the ANSI foreground colour `h`: the sequence `ESC [ 3 n m`.
#[verifier::external_body]
pub(crate) fn fg_escape(h: Hue) -> (r: String)
    ensures
        r@ == fg_escape_text(h),
{
    let c = match h {
        Hue::Red => AnsiColor::Red,
        Hue::Green => AnsiColor::Green,
        Hue::Yellow => AnsiColor::Yellow,
        Hue::Blue => AnsiColor::Blue,
        Hue::Magenta => AnsiColor::Magenta,
        Hue::Cyan => AnsiColor::Cyan,
    };
    Style::new().fg_color(Some(Color::Ansi(c))).render().to_string()
}

/// Relies on anstyle's `Style::render_reset` of a style with a foreground
/// colour, which is not the plain style: the reset sequence `ESC [ 0 m`.
#[verifier::external_body]
pub(crate) fn reset_escape(h: Hue) -> (r: String)
    ensures
        r@ == reset_escape_text(),
{
    let c = match h {
        Hue::Red => AnsiColor::Red,
        Hue::Green => AnsiColor::Green,
        Hue::Yellow => AnsiColor::Yellow,
        Hue::Blue => AnsiColor::Blue,
        Hue::Magenta => AnsiColor::Magenta,
        Hue::Cyan => AnsiColor::Cyan,
    };
    Style::new().fg_color(Some(Color::Ansi(c))).render_reset().to_string()
}

/// The bytes of an ASCII text.
pub open spec fn ascii_bytes(s: Seq<char>) -> Seq<u8> {
    Seq::new(s.len(), |i: int| s[i] as u8)
}

/// Appends the bytes of the ASCII text `s`.
pub fn push_ascii(out: &mut Vec<u8>, s: &str)
    requires
        vstd::string::is_ascii(s),
    ensures
        final(out)@ == old(out)@ + ascii_bytes(s@),
{
    let n = s.unicode_len();
    let mut i: usize = 0;
    while i < n
        invariant
            n == s@.len(),
            i <= n,
            vstd::string::is_ascii(s),
            out@ == old(out)@ + ascii_bytes(s@.subrange(0, i as int)),
        decreases n - i,
    {
        let b = s.get_ascii(i);
        out.push(b);
        assert(ascii_bytes(s@.subrange(0, i + 1)) =~= ascii_bytes(s@.subrange(0, i as int)).push(b));
        i = i + 1;
    }
    assert(s@.subrange(0, n as int) =~= s@);
}

/// Appends the bytes `b`.
pub fn push_bytes(out: &mut Vec<u8>, b: &[u8])
    ensures
        final(out)@ == old(out)@ + b@,
{
    let mut i: usize = 0;
    while i < b.len()
        invariant
            i <= b@.len(),
            out@ == old(out)@ + b@.subrange(0, i as int),
        decreases b@.len() - i,
    {
        out.push(b[i]);
        assert(b@.subrange(0, i + 1) =~= b@.subrange(0, i as int).push(b@[i as int]));
        i = i + 1;
    }
    assert(b@.subrange(0, b@.len() as int) =~= b@);
}

/// `bytes` as they are shown for a job: wrapped in its colour where it has
/// one, unchanged where it has none.
pub open spec fn shown_bytes(hue: Option<Hue>, bytes: Seq<u8>) -> Seq<u8> {
    match hue {
        Some(h) => ascii_bytes(fg_escape_text(h)) + bytes + ascii_bytes(reset_escape_text()),
        None => bytes,
    }
}

/// Wraps `bytes` in the colour `hue`, where there is one.
pub fn paint(hue: Option<Hue>, bytes: &[u8]) -> (r: Vec<u8>)
    ensures
        r@ == shown_bytes(hue, bytes@),
{
    let mut out: Vec<u8> = Vec::new();
    match hue {
        Some(h) => {
            let pre = fg_escape(h);
            let post = reset_escape(h);
            let pre_s = pre.as_str();
            let post_s = post.as_str();
            assert(vstd::string::is_ascii(pre_s));
            assert(vstd::string::is_ascii(post_s));
            push_ascii(&mut out, pre_s);
            push_bytes(&mut out, bytes);
            push_ascii(&mut out, post_s);
            assert(out@ =~= shown_bytes(hue, bytes@));
        },
        None => {
            push_bytes(&mut out, bytes);
            assert(out@ =~= bytes@);
        },
    }
    out
}

} // verus!
