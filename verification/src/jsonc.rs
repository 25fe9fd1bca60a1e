//! Stripping of `//` line comments from JSON-with-comments text.
//!
//! The text is scanned byte by byte. Outside string literals, `//` starts
//! a comment that runs to the end of the line; the newline itself is
//! kept. Inside string literals everything is kept, with `\"` and `\\`
//! escapes honoured, so a URL's `//` is never mistaken for a comment.
//! Working on bytes is sound for UTF-8 input, since no multi-byte
//! encoding contains an ASCII byte.

use vstd::prelude::*;
use vstd::string::StringSliceAdditionalSpecFns;
use vstd::string::StrSliceExecFns;

verus! {

/// The scanner's position in the text.
#[derive(Debug, Clone, Copy, PartialEq, Eq, Structural)]
pub enum StripState {
    /// Outside any string or comment.
    Normal,
    /// Outside any string, just after one `/`.
    Slash,
    /// Inside a string literal.
    Str,
    /// Inside a string literal, just after a backslash.
    StrEsc,
    /// Inside a line comment.
    Comment,
}

/// One step of the scanner: the next state and the bytes it emits.
pub open spec fn strip_step(st: StripState, b: u8) -> (StripState, Seq<u8>) {
    match st {
        StripState::Normal => if b == 34 {
            (StripState::Str, seq![b])
        } else if b == 47 {
            (StripState::Slash, Seq::empty())
        } else {
            (StripState::Normal, seq![b])
        },
        StripState::Slash => if b == 47 {
            (StripState::Comment, Seq::empty())
        } else if b == 34 {
            (StripState::Str, seq![47u8, b])
        } else {
            (StripState::Normal, seq![47u8, b])
        },
        StripState::Str => if b == 34 {
            (StripState::Normal, seq![b])
        } else if b == 92 {
            (StripState::StrEsc, seq![b])
        } else {
            (StripState::Str, seq![b])
        },
        StripState::StrEsc => (StripState::Str, seq![b]),
        StripState::Comment => if b == 10 {
            (StripState::Normal, seq![b])
        } else {
            (StripState::Comment, Seq::empty())
        },
    }
}

/// What the scanner emits from position `i` onward, started in `st`. A
/// pending lone `/` is emitted at the end of the text.
pub open spec fn strip_from(s: Seq<u8>, i: int, st: StripState) -> Seq<u8>
    decreases s.len() - i,
{
    if i < 0 || i >= s.len() {
        if st is Slash {
            seq![47u8]
        } else {
            Seq::empty()
        }
    } else {
        strip_step(st, s[i]).1 + strip_from(s, i + 1, strip_step(st, s[i]).0)
    }
}

/// The text with its `//` line comments removed.
pub open spec fn strip_jsonc(s: Seq<u8>) -> Seq<u8> {
    strip_from(s, 0, StripState::Normal)
}

/// Strips `//` line comments from `content`, returning the remaining
/// bytes.
pub fn strip_jsonc_comments(content: &str) -> (r: Vec<u8>)
    ensures
        r@ == strip_jsonc(content.spec_bytes()),
{
    let bytes = content.as_bytes_vec();
    let ghost s = bytes@;
    let mut out: Vec<u8> = Vec::new();
    let mut st = StripState::Normal;
    let mut i: usize = 0;
    while i < bytes.len()
        invariant
            i <= bytes@.len(),
            s == bytes@,
            strip_jsonc(s) == out@ + strip_from(s, i as int, st),
        decreases bytes@.len() - i,
    {
        let b = bytes[i];
        let ghost old_out = out@;
        let ghost st0 = st;
        let ghost step = strip_step(st, s[i as int]);
        proof {
            assert(strip_from(s, i as int, st0) == step.1 + strip_from(s, i + 1, step.0));
        }
        match st {
            StripState::Normal => {
                if b == 34 {
                    out.push(b);
                    st = StripState::Str;
                } else if b == 47 {
                    st = StripState::Slash;
                } else {
                    out.push(b);
                }
            },
            StripState::Slash => {
                if b == 47 {
                    st = StripState::Comment;
                } else if b == 34 {
                    out.push(47);
                    out.push(b);
                    st = StripState::Str;
                } else {
                    out.push(47);
                    out.push(b);
                    st = StripState::Normal;
                }
            },
            StripState::Str => {
                if b == 34 {
                    out.push(b);
                    st = StripState::Normal;
                } else if b == 92 {
                    out.push(b);
                    st = StripState::StrEsc;
                } else {
                    out.push(b);
                }
            },
            StripState::StrEsc => {
                out.push(b);
                st = StripState::Str;
            },
            StripState::Comment => {
                if b == 10 {
                    out.push(b);
                    st = StripState::Normal;
                }
            },
        }
        proof {
            assert(out@ =~= old_out + step.1);
            assert(st == step.0);
            assert(out@ + strip_from(s, i + 1, st) =~= old_out + strip_from(s, i as int, st0));
        }
        i = i + 1;
    }
    proof {
        if st is Slash {
            assert(strip_from(s, i as int, st) =~= seq![47u8]);
        } else {
            assert(strip_from(s, i as int, st) =~= Seq::<u8>::empty());
        }
    }
    if matches!(st, StripState::Slash) {
        out.push(47);
    }
    proof {
        assert(strip_jsonc(s) =~= out@);
    }
    out
}

} // verus!
