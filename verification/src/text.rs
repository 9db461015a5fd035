//! Plain-text building blocks: decimal rendering of integers, repeated
//! characters for padding, and left-padding of character sequences.

use vstd::prelude::*;

verus! {

use vstd::string::StrSliceExecFns;

/// The decimal digit character for a value in `0 ..= 9`.
pub open spec fn digit_char(d: int) -> char {
    if d == 0 {
        '0'
    } else if d == 1 {
        '1'
    } else if d == 2 {
        '2'
    } else if d == 3 {
        '3'
    } else if d == 4 {
        '4'
    } else if d == 5 {
        '5'
    } else if d == 6 {
        '6'
    } else if d == 7 {
        '7'
    } else if d == 8 {
        '8'
    } else {
        '9'
    }
}

/// The decimal rendering of a non-negative integer, most significant digit
/// first, with no leading zeros (except for the value zero itself).
pub open spec fn dec_seq(n: int) -> Seq<char>
    decreases n,
{
    if n < 10 {
        seq![digit_char(n)]
    } else {
        dec_seq(n / 10).push(digit_char(n % 10))
    }
}

/// `k` copies of the character `c` (empty when `k <= 0`).
pub open spec fn repeat_char(c: char, k: int) -> Seq<char>
    decreases k,
{
    if k <= 0 {
        Seq::empty()
    } else {
        repeat_char(c, k - 1).push(c)
    }
}

/// `s` left-padded with `c` up to width `w`; `s` unchanged when already wide
/// enough.
pub open spec fn lpad(c: char, s: Seq<char>, w: int) -> Seq<char> {
    repeat_char(c, w - s.len()) + s
}

pub proof fn lemma_repeat_char_elems(c: char, k: int)
    ensures
        repeat_char(c, k).len() == if k <= 0 {
            0int
        } else {
            k
        },
        forall|i: int| 0 <= i < repeat_char(c, k).len() ==> repeat_char(c, k)[i] == c,
    decreases k,
{
    if k > 0 {
        lemma_repeat_char_elems(c, k - 1);
    }
}

/// Relies on `String::push`: appends the character to the end of the string.
#[verifier::external_body]
pub fn push_char(out: &mut String, c: char)
    ensures
        final(out)@ == old(out)@.push(c),
{
    out.push(c)
}

/// Appends the decimal digit character for `d`.
pub fn push_digit(out: &mut String, d: u64)
    requires
        d < 10,
    ensures
        final(out)@ == old(out)@.push(digit_char(d as int)),
{
    if d == 0 {
        push_char(out, '0');
    } else if d == 1 {
        push_char(out, '1');
    } else if d == 2 {
        push_char(out, '2');
    } else if d == 3 {
        push_char(out, '3');
    } else if d == 4 {
        push_char(out, '4');
    } else if d == 5 {
        push_char(out, '5');
    } else if d == 6 {
        push_char(out, '6');
    } else if d == 7 {
        push_char(out, '7');
    } else if d == 8 {
        push_char(out, '8');
    } else {
        push_char(out, '9');
    }
}

/// Appends the decimal rendering of `n`.
pub fn push_u64(out: &mut String, n: u64)
    ensures
        final(out)@ == old(out)@ + dec_seq(n as int),
    decreases n,
{
    if n < 10 {
        push_digit(out, n);
        proof {
            assert(old(out)@.push(digit_char(n as int)) =~= old(out)@ + dec_seq(n as int));
        }
    } else {
        push_u64(out, n / 10);
        push_digit(out, n % 10);
        proof {
            assert((old(out)@ + dec_seq(n as int / 10)).push(digit_char(n as int % 10)) =~= old(
                out,
            )@ + dec_seq(n as int));
        }
    }
}

/// The decimal rendering of `n` as a fresh string.
pub fn u64_to_string(n: u64) -> (r: String)
    ensures
        r@ == dec_seq(n as int),
{
    let mut out = String::new();
    push_u64(&mut out, n);
    proof {
        assert(Seq::<char>::empty() + dec_seq(n as int) =~= dec_seq(n as int));
    }
    out
}

/// Appends `k` copies of `c`.
pub fn push_repeat(out: &mut String, c: char, k: usize)
    ensures
        final(out)@ == old(out)@ + repeat_char(c, k as int),
{
    let mut i: usize = 0;
    proof {
        assert(old(out)@ + repeat_char(c, 0) =~= old(out)@);
    }
    while i < k
        invariant
            i <= k,
            out@ == old(out)@ + repeat_char(c, i as int),
        decreases k - i,
    {
        push_char(out, c);
        proof {
            assert((old(out)@ + repeat_char(c, i as int)).push(c) =~= old(out)@ + repeat_char(
                c,
                i as int + 1,
            ));
        }
        i = i + 1;
    }
}

/// A whitespace character for the purpose of trailing trimming.
pub open spec fn is_ws_char(c: char) -> bool {
    c == ' ' || c == '\n' || c == '\t' || c == '\r'
}

/// `s` with all trailing whitespace removed.
pub open spec fn trim_ws(s: Seq<char>) -> Seq<char>
    decreases s.len(),
{
    if s.len() > 0 && is_ws_char(s.last()) {
        trim_ws(s.drop_last())
    } else {
        s
    }
}

/// Trimming cuts exactly at the position after the last non-whitespace
/// character.
pub proof fn lemma_trim_at(s: Seq<char>, j: int)
    requires
        0 <= j <= s.len(),
        forall|k: int| j <= k < s.len() ==> is_ws_char(s[k]),
        j == 0 || !is_ws_char(s[j - 1]),
    ensures
        trim_ws(s) == s.take(j),
    decreases s.len(),
{
    if s.len() > j {
        lemma_trim_at(s.drop_last(), j);
        assert(s.drop_last().take(j) =~= s.take(j));
    } else {
        assert(s.take(j) =~= s);
    }
}

/// The string with all trailing whitespace removed.
pub fn trim_trailing(s: &String) -> (r: String)
    ensures
        r@ == trim_ws(s@),
{
    let text = s.as_str();
    let n = text.unicode_len();
    let mut j: usize = 0;
    let mut i: usize = 0;
    while i < n
        invariant
            i <= n,
            j <= i,
            n == s@.len(),
            text@ == s@,
            forall|k: int| j <= k < i ==> is_ws_char(s@[k]),
            j == 0 || !is_ws_char(s@[j - 1]),
        decreases n - i,
    {
        let c = text.get_char(i);
        if !(c == ' ' || c == '\n' || c == '\t' || c == '\r') {
            j = i + 1;
        }
        i = i + 1;
    }
    proof {
        lemma_trim_at(s@, j as int);
    }
    let cut = text.substring_char(0, j);
    proof {
        assert(s@.subrange(0, j as int) =~= s@.take(j as int));
    }
    cut.to_owned()
}

} // verus!
