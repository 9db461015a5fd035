//! Terminal styling: the fixed style/reset control sequences used for
//! directory names, and the model of *visual width* — the length of a string
//! counting only the characters that occupy terminal cells, with every
//! control sequence (an escape character through the closing `m`) counting
//! for nothing.

use vstd::prelude::*;

verus! {

use crate::text::push_char;
use vstd::string::StrSliceExecFns;

/// The bold style start sequence.
pub open spec fn bold_seq() -> Seq<char> {
    seq!['\u{1b}', '[', '1', 'm']
}

/// The accent colour start sequence.
pub open spec fn pink_seq() -> Seq<char> {
    seq!['\u{1b}', '[', '9', '5', 'm']
}

/// The style reset sequence.
pub open spec fn style_reset_seq() -> Seq<char> {
    seq!['\u{1b}', '[', '0', 'm']
}

/// The colour reset sequence.
pub open spec fn colour_reset_seq() -> Seq<char> {
    seq!['\u{1b}', '[', '3', '9', 'm']
}

pub fn style_bold() -> (s: &'static str)
    ensures
        s@ == bold_seq(),
{
    let s = "\u{1b}[1m";
    proof {
        reveal_strlit("\u{1b}[1m");
        assert(s@ =~= bold_seq());
    }
    s
}

pub fn colour_pink() -> (s: &'static str)
    ensures
        s@ == pink_seq(),
{
    let s = "\u{1b}[95m";
    proof {
        reveal_strlit("\u{1b}[95m");
        assert(s@ =~= pink_seq());
    }
    s
}

pub fn style_reset() -> (s: &'static str)
    ensures
        s@ == style_reset_seq(),
{
    let s = "\u{1b}[0m";
    proof {
        reveal_strlit("\u{1b}[0m");
        assert(s@ =~= style_reset_seq());
    }
    s
}

pub fn colour_reset() -> (s: &'static str)
    ensures
        s@ == colour_reset_seq(),
{
    let s = "\u{1b}[39m";
    proof {
        reveal_strlit("\u{1b}[39m");
        assert(s@ =~= colour_reset_seq());
    }
    s
}

/// The characters of `s` that occupy terminal cells, scanned left to right
/// starting in scanning state `in_style`: inside a control sequence
/// (`in_style`) characters are dropped up to and including the closing `m`;
/// outside one, an escape character opens a control sequence and every other
/// character is kept.
pub open spec fn strip_rec(s: Seq<char>, in_style: bool) -> Seq<char>
    decreases s.len(),
{
    if s.len() == 0 {
        Seq::empty()
    } else if in_style {
        strip_rec(s.drop_first(), s[0] != 'm')
    } else if s[0] == '\u{1b}' {
        strip_rec(s.drop_first(), true)
    } else {
        seq![s[0]] + strip_rec(s.drop_first(), false)
    }
}

/// `s` with all style/reset control sequences removed.
pub open spec fn strip_styles(s: Seq<char>) -> Seq<char> {
    strip_rec(s, false)
}

/// The visual width of `s`: its length once control sequences are stripped.
pub open spec fn visual_width(s: Seq<char>) -> nat {
    strip_styles(s).len()
}

/// The scanning state after reading all of `s` starting in state `in_style`.
pub open spec fn scan_state(s: Seq<char>, in_style: bool) -> bool
    decreases s.len(),
{
    if s.len() == 0 {
        in_style
    } else if in_style {
        scan_state(s.drop_first(), s[0] != 'm')
    } else {
        scan_state(s.drop_first(), s[0] == '\u{1b}')
    }
}

/// `s` contains no unterminated control sequence: scanning it ends outside
/// any style sequence.
pub open spec fn style_complete(s: Seq<char>) -> bool {
    !scan_state(s, false)
}

/// Scanning distributes over concatenation.
pub proof fn lemma_scan_concat(a: Seq<char>, b: Seq<char>, st: bool)
    ensures
        scan_state(a + b, st) == scan_state(b, scan_state(a, st)),
    decreases a.len(),
{
    if a.len() == 0 {
        assert(a + b =~= b);
    } else {
        assert((a + b).drop_first() =~= a.drop_first() + b);
        assert((a + b)[0] == a[0]);
        if st {
            lemma_scan_concat(a.drop_first(), b, a[0] != 'm');
        } else {
            lemma_scan_concat(a.drop_first(), b, a[0] == '\u{1b}');
        }
    }
}

/// Stripping distributes over concatenation, the right part being scanned
/// from the state that the left part ends in.
pub proof fn lemma_strip_concat(a: Seq<char>, b: Seq<char>, st: bool)
    ensures
        strip_rec(a + b, st) == strip_rec(a, st) + strip_rec(b, scan_state(a, st)),
    decreases a.len(),
{
    if a.len() == 0 {
        assert(a + b =~= b);
        assert(strip_rec(a, st) + strip_rec(b, scan_state(a, st)) =~= strip_rec(b, st));
    } else {
        assert((a + b).drop_first() =~= a.drop_first() + b);
        assert((a + b)[0] == a[0]);
        if st {
            lemma_strip_concat(a.drop_first(), b, a[0] != 'm');
        } else if a[0] == '\u{1b}' {
            lemma_strip_concat(a.drop_first(), b, true);
        } else {
            lemma_strip_concat(a.drop_first(), b, false);
            assert(seq![a[0]] + (strip_rec(a.drop_first(), false) + strip_rec(
                b,
                scan_state(a.drop_first(), false),
            )) =~= (seq![a[0]] + strip_rec(a.drop_first(), false)) + strip_rec(
                b,
                scan_state(a.drop_first(), false),
            ));
        }
    }
}

/// A sequence without escape characters strips to itself and leaves the
/// scanner outside any style sequence.
pub proof fn lemma_strip_no_escape(s: Seq<char>)
    requires
        forall|i: int| 0 <= i < s.len() ==> s[i] != '\u{1b}',
    ensures
        strip_rec(s, false) == s,
        scan_state(s, false) == false,
    decreases s.len(),
{
    if s.len() > 0 {
        lemma_strip_no_escape(s.drop_first());
        assert(seq![s[0]] + s.drop_first() =~= s);
    }
}

/// Clean the styling off a string: remove every style/reset control
/// sequence, keeping only the characters that occupy terminal cells.
pub fn clean_styling(s: &String) -> (r: String)
    ensures
        r@ == strip_styles(s@),
{
    let text = s.as_str();
    let n = text.unicode_len();
    let mut out = String::new();
    let mut in_style = false;
    let mut i: usize = 0;
    proof {
        assert(s@.skip(0) =~= s@);
        assert(Seq::<char>::empty() + strip_rec(s@, false) =~= strip_rec(s@, false));
    }
    while i < n
        invariant
            n == s@.len(),
            i <= n,
            text@ == s@,
            strip_styles(s@) == out@ + strip_rec(s@.skip(i as int), in_style),
        decreases n - i,
    {
        let c = text.get_char(i);
        proof {
            assert(s@.skip(i as int)[0] == s@[i as int]);
            assert(s@.skip(i as int).drop_first() =~= s@.skip(i as int + 1));
        }
        if in_style {
            in_style = c != 'm';
        } else if c == '\u{1b}' {
            in_style = true;
        } else {
            push_char(&mut out, c);
            proof {
                assert(out@ + strip_rec(s@.skip(i as int + 1), false) =~= (out@.drop_last()) + (
                seq![c] + strip_rec(s@.skip(i as int + 1), false)));
            }
        }
        i = i + 1;
    }
    proof {
        assert(s@.skip(n as int) =~= Seq::<char>::empty());
    }
    out
}

/// The visual width of a string: the number of its characters that occupy
/// terminal cells, control sequences counting for nothing.
pub fn visual_len(s: &String) -> (w: usize)
    ensures
        w == visual_width(s@),
{
    let text = s.as_str();
    let n = text.unicode_len();
    let mut count: usize = 0;
    let mut in_style = false;
    let mut i: usize = 0;
    proof {
        assert(s@.skip(0) =~= s@);
    }
    while i < n
        invariant
            n == s@.len(),
            i <= n,
            count <= i,
            text@ == s@,
            visual_width(s@) == count + strip_rec(s@.skip(i as int), in_style).len(),
        decreases n - i,
    {
        let c = text.get_char(i);
        proof {
            assert(s@.skip(i as int)[0] == s@[i as int]);
            assert(s@.skip(i as int).drop_first() =~= s@.skip(i as int + 1));
        }
        if in_style {
            in_style = c != 'm';
        } else if c == '\u{1b}' {
            in_style = true;
        } else {
            count = count + 1;
        }
        i = i + 1;
    }
    proof {
        assert(s@.skip(n as int) =~= Seq::<char>::empty());
    }
    count
}

} // verus!
