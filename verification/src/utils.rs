//! Per-entry metadata helpers: permission-bit decoding, size humanization,
//! hidden-name detection, and the terminal-width probe.

use vstd::prelude::*;

verus! {

use crate::text::{dec_seq, digit_char, push_char, push_digit, u64_to_string};
use vstd::arithmetic::div_mod::{
    lemma_fundamental_div_mod,
    lemma_hoist_over_denominator,
    lemma_mod_multiples_vanish,
};
use vstd::string::StrSliceExecFns;

/// A character of a decoded permission string.
pub open spec fn is_perm_char(c: char) -> bool {
    c == 'r' || c == 'w' || c == 'x' || c == '-'
}

/// The permission character for one mode bit: `c` when the bit is set,
/// `-` otherwise.
pub open spec fn rwx_bit(mode: u32, bit: u32, c: char) -> char {
    if mode & bit != 0 {
        c
    } else {
        '-'
    }
}

/// The nine-character decoding of unix mode bits: read, write and execute
/// for owner, group and other, in that fixed order.
pub open spec fn rwx_seq(mode: u32) -> Seq<char> {
    seq![
        rwx_bit(mode, 0o400, 'r'),
        rwx_bit(mode, 0o200, 'w'),
        rwx_bit(mode, 0o100, 'x'),
        rwx_bit(mode, 0o040, 'r'),
        rwx_bit(mode, 0o020, 'w'),
        rwx_bit(mode, 0o010, 'x'),
        rwx_bit(mode, 0o004, 'r'),
        rwx_bit(mode, 0o002, 'w'),
        rwx_bit(mode, 0o001, 'x'),
    ]
}

/// Decode unix mode bits into a `rwx`-style string, split into the three
/// categories owner, group and other. The string always has exactly nine
/// characters, each one of `r`, `w`, `x` or `-`.
pub fn mode_to_rwx(mode: u32) -> (r: String)
    ensures
        r@ == rwx_seq(mode),
        r@.len() == 9,
        forall|i: int| 0 <= i < r@.len() ==> is_perm_char(r@[i]),
{
    let mut perms = String::new();
    push_char(&mut perms, if mode & 0o400 != 0 { 'r' } else { '-' });
    push_char(&mut perms, if mode & 0o200 != 0 { 'w' } else { '-' });
    push_char(&mut perms, if mode & 0o100 != 0 { 'x' } else { '-' });
    push_char(&mut perms, if mode & 0o040 != 0 { 'r' } else { '-' });
    push_char(&mut perms, if mode & 0o020 != 0 { 'w' } else { '-' });
    push_char(&mut perms, if mode & 0o010 != 0 { 'x' } else { '-' });
    push_char(&mut perms, if mode & 0o004 != 0 { 'r' } else { '-' });
    push_char(&mut perms, if mode & 0o002 != 0 { 'w' } else { '-' });
    push_char(&mut perms, if mode & 0o001 != 0 { 'x' } else { '-' });
    proof {
        assert(perms@ =~= rwx_seq(mode));
    }
    perms
}

/// Whether a file or directory name marks a hidden entry: true exactly when
/// the name begins with `.`.
pub open spec fn is_hidden_name(s: Seq<char>) -> bool {
    s.len() > 0 && s[0] == '.'
}

/// Check if a file or directory is hidden, that is, whether its name begins
/// with `.`.
pub fn is_file_hidden(file_name: &String) -> (r: bool)
    ensures
        r == is_hidden_name(file_name@),
{
    let text = file_name.as_str();
    if text.unicode_len() == 0 {
        false
    } else {
        text.get_char(0) == '.'
    }
}

/// The human-readable rendering of a byte count: above 1024 bytes the count
/// is expressed in kilobytes rounded to one decimal place (half rounding
/// away from zero), with suffix `kb`; otherwise the raw count with suffix
/// `b`. The number of tenths of a kilobyte is the rounded value of
/// `bytes * 10 / 1024`. That is a deliberate choice between two readings
/// of "kilobytes to one decimal place": the other — rounding
/// `bytes / 1024` to a whole number first and rescaling it by ten — shows
/// a value roughly ten times too large (2048 bytes would read `20.0kb`),
/// so the rounding here is applied to the tenths directly.
pub open spec fn byte_conv_seq(bytes: u64) -> Seq<char> {
    if bytes > 1024 {
        let tenths = (bytes as int * 10 + 512) / 1024;
        dec_seq(tenths / 10) + seq!['.', digit_char(tenths % 10), 'k', 'b']
    } else {
        dec_seq(bytes as int) + seq!['b']
    }
}

/// Convert a byte count into a human-readable size: kilobytes with one
/// decimal place above 1024 bytes, a raw byte count otherwise.
pub fn byte_conv(bytes: u64) -> (r: String)
    ensures
        r@ == byte_conv_seq(bytes),
{
    if bytes > 1024 {
        let k = bytes / 1024;
        let rem = bytes % 1024;
        let t = (rem * 10 + 512) / 1024;
        let whole = k + t / 10;
        let frac = t % 10;
        proof {
            let tenths = (bytes as int * 10 + 512) / 1024;
            lemma_fundamental_div_mod(bytes as int, 1024);
            lemma_hoist_over_denominator(
                rem as int * 10 + 512,
                10 * k as int,
                1024nat,
            );
            assert(rem as int * 10 + 512 + (10 * k as int) * 1024 == bytes as int * 10 + 512);
            assert(tenths == 10 * k as int + t as int);
            lemma_hoist_over_denominator(t as int, k as int, 10nat);
            assert(tenths / 10 == whole as int);
            lemma_mod_multiples_vanish(k as int, t as int, 10);
            assert(tenths % 10 == frac as int);
        }
        let mut out = u64_to_string(whole);
        push_char(&mut out, '.');
        push_digit(&mut out, frac);
        push_char(&mut out, 'k');
        push_char(&mut out, 'b');
        proof {
            assert(out@ =~= byte_conv_seq(bytes));
        }
        out
    } else {
        let mut out = u64_to_string(bytes);
        push_char(&mut out, 'b');
        proof {
            assert(out@ =~= byte_conv_seq(bytes));
        }
        out
    }
}

/// Relies on `terminal_size::terminal_size`: probes the terminal for its
/// current size, `None` when none is attached. The result depends on the
/// environment, so nothing is promised of it beyond the width being a
/// 16-bit quantity, which its type in that crate shows.
#[verifier::external_body]
pub fn get_terminal_width() -> (r: Option<usize>)
    ensures
        r matches Some(w) ==> w <= u16::MAX as usize,
{
    if let Some((terminal_size::Width(w), terminal_size::Height(_h))) = terminal_size::terminal_size() {
        Some(w as usize)
    } else {
        None
    }
}

/// The terminal width to lay out for: the probed width when one is
/// available, and a fixed default of 80 columns otherwise.
pub fn width_or_default(probed: Option<usize>) -> (r: usize)
    ensures
        r == match probed {
            Some(w) => w,
            None => 80usize,
        },
{
    match probed {
        Some(w) => w,
        None => 80,
    }
}

} // verus!
