//! The column-layout engine: wraps a list of styled display tokens into a
//! padded, multi-column block that fits a caller-supplied terminal width.
//!
//! Layout is a pure function of the tokens and the width. The column width
//! is the maximum *visual* width over all tokens plus a fixed padding of
//! two; the column count is the terminal width divided by the column width,
//! floored, but never less than one; directory tokens (those bearing the
//! bold style marker) come first, ties keeping their original order; tokens
//! are emitted row-major, each padded on the right to the column width as
//! measured visually, every row terminated by a line break; trailing
//! whitespace of the whole block is trimmed.

use vstd::prelude::*;

verus! {

use crate::style::{bold_seq, lemma_scan_concat, lemma_strip_concat, lemma_strip_no_escape,
    strip_styles, style_complete, visual_width};
use crate::text::{lemma_repeat_char_elems, repeat_char, push_char, push_repeat, trim_ws,
    trim_trailing};
use vstd::arithmetic::div_mod::{lemma_div_non_zero, lemma_fundamental_div_mod};
use vstd::arithmetic::mul::lemma_mul_inequality;
use vstd::string::{StrSliceExecFns, StringExecFns};

/// The views of a list of strings.
pub open spec fn token_views(ts: Seq<String>) -> Seq<Seq<char>> {
    ts.map_values(|t: String| t@)
}

/// A directory token: one that begins with the bold style start sequence.
pub open spec fn is_dir_token(t: Seq<char>) -> bool {
    t.len() >= 4 && t.subrange(0, 4) == bold_seq()
}

/// The tokens among `toks` whose directory-token status equals `want`, in
/// their original order.
pub open spec fn part_tokens(toks: Seq<Seq<char>>, want: bool) -> Seq<Seq<char>>
    decreases toks.len(),
{
    if toks.len() == 0 {
        Seq::empty()
    } else {
        let rest = part_tokens(toks.drop_last(), want);
        if is_dir_token(toks.last()) == want {
            rest.push(toks.last())
        } else {
            rest
        }
    }
}

/// The tokens stably sorted with directory tokens first.
pub open spec fn dir_first(toks: Seq<Seq<char>>) -> Seq<Seq<char>> {
    part_tokens(toks, true) + part_tokens(toks, false)
}

/// The maximum visual width over all tokens (zero for no tokens).
pub open spec fn max_visual(toks: Seq<Seq<char>>) -> nat
    decreases toks.len(),
{
    if toks.len() == 0 {
        0
    } else if visual_width(toks.last()) > max_visual(toks.drop_last()) {
        visual_width(toks.last())
    } else {
        max_visual(toks.drop_last())
    }
}

/// The column width: the maximum visual width plus a fixed inter-column
/// padding of two.
pub open spec fn col_width_of(toks: Seq<Seq<char>>) -> int {
    max_visual(toks) + 2int
}

/// The column count: the terminal width divided by the column width,
/// floored, but at least one.
pub open spec fn cols_of(width: int, cw: int) -> int {
    if width / cw >= 1 {
        width / cw
    } else {
        1
    }
}

/// One grid cell: the token padded on the right with spaces until its
/// visual width reaches the column width.
pub open spec fn cell(t: Seq<char>, cw: int) -> Seq<char> {
    t + repeat_char(' ', cw - visual_width(t))
}

/// The cells of the tokens `s ..< e`, concatenated.
pub open spec fn row_seq(toks: Seq<Seq<char>>, cw: int, s: int, e: int) -> Seq<char>
    decreases e - s,
{
    if e <= s {
        Seq::empty()
    } else {
        row_seq(toks, cw, s, e - 1) + cell(toks[e - 1], cw)
    }
}

/// The block of rows for the tokens from `start` on: rows of `cols` cells
/// (the last possibly partial), each terminated by a line break.
pub open spec fn body_from(toks: Seq<Seq<char>>, cw: int, cols: int, start: int) -> Seq<char>
    decreases toks.len() - start,
{
    if start >= toks.len() || cols < 1 {
        Seq::empty()
    } else {
        let e = if start + cols < toks.len() {
            start + cols
        } else {
            toks.len() as int
        };
        row_seq(toks, cw, start, e) + seq!['\n'] + body_from(toks, cw, cols, e)
    }
}

/// The laid-out block for a token list and a terminal width: empty for no
/// tokens; otherwise directory tokens first, cells padded to the column
/// width, rows of the column count, and the block's trailing whitespace
/// trimmed.
pub open spec fn layout_spec(toks: Seq<Seq<char>>, width: int) -> Seq<char> {
    if toks.len() == 0 {
        Seq::empty()
    } else {
        let cw = col_width_of(toks);
        trim_ws(body_from(dir_first(toks), cw, cols_of(width, cw), 0))
    }
}

/// Every token is bounded by the maximum visual width.
pub proof fn lemma_max_visual_bound(toks: Seq<Seq<char>>)
    ensures
        forall|i: int| 0 <= i < toks.len() ==> visual_width(#[trigger] toks[i]) <= max_visual(
            toks,
        ),
    decreases toks.len(),
{
    if toks.len() > 0 {
        lemma_max_visual_bound(toks.drop_last());
        assert(forall|i: int|
            0 <= i < toks.len() - 1 ==> #[trigger] toks[i] == toks.drop_last()[i]);
    }
}

/// Partitioning keeps any per-token property.
pub proof fn lemma_part_preserves(toks: Seq<Seq<char>>, want: bool, p: spec_fn(Seq<char>) -> bool)
    requires
        forall|i: int| 0 <= i < toks.len() ==> p(#[trigger] toks[i]),
    ensures
        forall|i: int|
            0 <= i < part_tokens(toks, want).len() ==> p(#[trigger] part_tokens(toks, want)[i]),
    decreases toks.len(),
{
    if toks.len() > 0 {
        assert(forall|i: int|
            0 <= i < toks.len() - 1 ==> #[trigger] toks.drop_last()[i] == toks[i]);
        lemma_part_preserves(toks.drop_last(), want, p);
        let rest = part_tokens(toks.drop_last(), want);
        if is_dir_token(toks.last()) == want {
            assert(toks.last() == toks[toks.len() - 1]);
            assert(part_tokens(toks, want) == rest.push(toks.last()));
            assert forall|i: int| 0 <= i < part_tokens(toks, want).len() implies p(
                #[trigger] part_tokens(toks, want)[i],
            ) by {
                if i < rest.len() {
                    assert(part_tokens(toks, want)[i] == rest[i]);
                } else {
                    assert(part_tokens(toks, want)[i] == toks.last());
                }
            }
        } else {
            assert(part_tokens(toks, want) == rest);
        }
    }
}

/// A padded cell of a style-complete token has exactly the column width as
/// its visual width, and is itself style-complete.
pub proof fn lemma_cell_visual(t: Seq<char>, cw: int)
    requires
        style_complete(t),
        visual_width(t) <= cw,
    ensures
        visual_width(cell(t, cw)) == cw,
        style_complete(cell(t, cw)),
{
    let pad = repeat_char(' ', cw - visual_width(t));
    lemma_repeat_char_elems(' ', cw - visual_width(t));
    lemma_strip_no_escape(pad);
    lemma_strip_concat(t, pad, false);
    lemma_scan_concat(t, pad, false);
}

/// A row of padded cells of style-complete tokens, each of visual width at
/// most the column width, has visual width exactly its cell count times
/// the column width, and is itself style-complete.
pub proof fn lemma_row_visual(toks: Seq<Seq<char>>, cw: int, s: int, e: int)
    requires
        0 <= s <= e <= toks.len(),
        forall|i: int|
            s <= i < e ==> style_complete(#[trigger] toks[i]) && visual_width(toks[i]) <= cw,
    ensures
        visual_width(row_seq(toks, cw, s, e)) == (e - s) * cw,
        style_complete(row_seq(toks, cw, s, e)),
    decreases e - s,
{
    if e <= s {
        assert(strip_styles(Seq::<char>::empty()) =~= Seq::<char>::empty());
    } else {
        lemma_row_visual(toks, cw, s, e - 1);
        lemma_cell_visual(toks[e - 1], cw);
        lemma_strip_concat(row_seq(toks, cw, s, e - 1), cell(toks[e - 1], cw), false);
        lemma_scan_concat(row_seq(toks, cw, s, e - 1), cell(toks[e - 1], cw), false);
        assert((e - s) * cw == (e - 1 - s) * cw + cw) by (nonlinear_arith);
    }
}

/// The row of the laid-out grid that starts at token index `s` of the
/// sorted token list: the padded cells of the next column-count tokens
/// (fewer at the end of the list).
pub open spec fn grid_row(toks: Seq<Seq<char>>, width: int, s: int) -> Seq<char> {
    let sorted = dir_first(toks);
    let cw = col_width_of(toks);
    let cols = cols_of(width, cw);
    let e = if s + cols < sorted.len() {
        s + cols
    } else {
        sorted.len() as int
    };
    row_seq(sorted, cw, s, e)
}

/// How many tokens the grid row starting at token index `s` holds.
pub open spec fn grid_row_len(toks: Seq<Seq<char>>, width: int, s: int) -> int {
    let sorted = dir_first(toks);
    let cols = cols_of(width, col_width_of(toks));
    if s + cols < sorted.len() {
        cols
    } else {
        sorted.len() - s
    }
}

/// Law: for any non-empty token list without unterminated style sequences
/// and any terminal width of at least one, every row the layout emits
/// holds at most the column count of tokens, and its visual width is
/// exactly its token count times the column width — a multiple of the
/// column width.
pub proof fn lemma_grid_rows(toks: Seq<Seq<char>>, width: int)
    requires
        toks.len() > 0,
        width >= 1,
        forall|i: int| 0 <= i < toks.len() ==> style_complete(#[trigger] toks[i]),
    ensures
        forall|s: int|
            0 <= s < dir_first(toks).len() ==> {
                &&& visual_width(#[trigger] grid_row(toks, width, s)) == grid_row_len(
                    toks,
                    width,
                    s,
                ) * col_width_of(toks)
                &&& 0 < grid_row_len(toks, width, s) <= cols_of(width, col_width_of(toks))
            },
{
    let sorted = dir_first(toks);
    let cw = col_width_of(toks);
    let cols = cols_of(width, cw);
    lemma_max_visual_bound(toks);
    lemma_part_preserves(
        toks,
        true,
        |t: Seq<char>| style_complete(t) && visual_width(t) <= max_visual(toks),
    );
    lemma_part_preserves(
        toks,
        false,
        |t: Seq<char>| style_complete(t) && visual_width(t) <= max_visual(toks),
    );
    assert forall|j: int|
        0 <= j < sorted.len() implies style_complete(#[trigger] sorted[j]) && visual_width(
        sorted[j],
    ) <= cw by {
        assert(sorted[j] == if j < part_tokens(toks, true).len() {
            part_tokens(toks, true)[j]
        } else {
            part_tokens(toks, false)[j - part_tokens(toks, true).len()]
        });
    }
    assert forall|s: int| 0 <= s < sorted.len() implies {
        &&& visual_width(#[trigger] grid_row(toks, width, s)) == grid_row_len(toks, width, s)
            * col_width_of(toks)
        &&& 0 < grid_row_len(toks, width, s) <= cols_of(width, col_width_of(toks))
    } by {
        let e = if s + cols < sorted.len() {
            s + cols
        } else {
            sorted.len() as int
        };
        lemma_row_visual(sorted, cw, s, e);
    }
}

/// Law: when the column width fits within the terminal width, every row
/// the layout emits has visual width at most the terminal width. (The one
/// exception to fitting is a single token wider than the terminal, which
/// forces a single over-wide column; the premise on the column width
/// excludes it.)
pub proof fn lemma_grid_fits(toks: Seq<Seq<char>>, width: int)
    requires
        toks.len() > 0,
        width >= 1,
        forall|i: int| 0 <= i < toks.len() ==> style_complete(#[trigger] toks[i]),
        col_width_of(toks) <= width,
    ensures
        forall|s: int|
            0 <= s < dir_first(toks).len() ==> visual_width(#[trigger] grid_row(toks, width, s))
                <= width,
{
    let cw = col_width_of(toks);
    let cols = cols_of(width, cw);
    lemma_grid_rows(toks, width);
    lemma_fundamental_div_mod(width, cw);
    lemma_div_non_zero(width, cw);
    assert(cols == width / cw);
    assert(cols * cw <= width) by {
        assert(width == cw * (width / cw) + width % cw);
        assert(cw * cols == cols * cw) by (nonlinear_arith);
    }
    assert forall|s: int|
        0 <= s < dir_first(toks).len() implies visual_width(
        #[trigger] grid_row(toks, width, s),
    ) <= width by {
        lemma_mul_inequality(grid_row_len(toks, width, s), cols, cw);
    }
}

fn is_dir_token_x(t: &String) -> (r: bool)
    ensures
        r == is_dir_token(t@),
{
    let text = t.as_str();
    if text.unicode_len() < 4 {
        return false;
    }
    let r = text.get_char(0) == '\u{1b}' && text.get_char(1) == '[' && text.get_char(2) == '1'
        && text.get_char(3) == 'm';
    proof {
        assert(t@.subrange(0, 4)[0] == t@[0]);
        assert(t@.subrange(0, 4)[1] == t@[1]);
        assert(t@.subrange(0, 4)[2] == t@[2]);
        assert(t@.subrange(0, 4)[3] == t@[3]);
        if r {
            assert(t@.subrange(0, 4) =~= bold_seq());
        }
    }
    r
}

/// The tokens stably reordered so that directory tokens come first.
fn partition_dir_tokens(tokens: &Vec<String>) -> (r: Vec<String>)
    ensures
        token_views(r@) == dir_first(token_views(tokens@)),
{
    let ghost tv = token_views(tokens@);
    let mut out: Vec<String> = Vec::new();
    let mut i: usize = 0;
    proof {
        assert(token_views(out@) =~= part_tokens(tv.take(0), true));
    }
    while i < tokens.len()
        invariant
            i <= tokens.len(),
            tv == token_views(tokens@),
            token_views(out@) == part_tokens(tv.take(i as int), true),
        decreases tokens.len() - i,
    {
        proof {
            assert(tv.take(i as int + 1).drop_last() =~= tv.take(i as int));
            assert(tv.take(i as int + 1).last() == tokens@[i as int]@);
        }
        if is_dir_token_x(&tokens[i]) {
            let t = tokens[i].clone();
            out.push(t);
            proof {
                assert(token_views(out@) =~= part_tokens(tv.take(i as int), true).push(
                    tokens@[i as int]@,
                ));
            }
        }
        i = i + 1;
    }
    proof {
        assert(tv.take(tokens@.len() as int) =~= tv);
    }
    let mut i: usize = 0;
    while i < tokens.len()
        invariant
            i <= tokens.len(),
            tv == token_views(tokens@),
            token_views(out@) == part_tokens(tv, true) + part_tokens(tv.take(i as int), false),
        decreases tokens.len() - i,
    {
        proof {
            assert(tv.take(i as int + 1).drop_last() =~= tv.take(i as int));
            assert(tv.take(i as int + 1).last() == tokens@[i as int]@);
        }
        if !is_dir_token_x(&tokens[i]) {
            let t = tokens[i].clone();
            out.push(t);
            proof {
                assert(token_views(out@) =~~= (part_tokens(tv, true) + part_tokens(
                    tv.take(i as int),
                    false,
                )).push(tokens@[i as int]@));
                assert((part_tokens(tv, true) + part_tokens(tv.take(i as int), false)).push(
                    tokens@[i as int]@,
                ) =~= part_tokens(tv, true) + part_tokens(tv.take(i as int + 1), false));
            }
        }
        i = i + 1;
    }
    proof {
        assert(tv.take(tokens@.len() as int) =~= tv);
    }
    out
}

/// Lay out the display tokens as a padded multi-column block that fits the
/// terminal width: directory tokens first, each cell padded on the right
/// with spaces until its visual width reaches the column width, a line
/// break after every full row and after a partial final row, trailing
/// whitespace trimmed from the end of the block. Zero tokens give the empty
/// string.
pub fn layout(tokens: &Vec<String>, terminal_width: usize) -> (r: String)
    requires
        col_width_of(token_views(tokens@)) <= usize::MAX,
    ensures
        r@ == layout_spec(token_views(tokens@), terminal_width as int),
{
    let ghost tv = token_views(tokens@);
    if tokens.len() == 0 {
        return String::new();
    }
    // the maximum visual width over all tokens
    let mut mv: usize = 0;
    let mut i: usize = 0;
    proof {
        assert(max_visual(tv.take(0)) == 0);
    }
    while i < tokens.len()
        invariant
            i <= tokens.len(),
            tv == token_views(tokens@),
            mv == max_visual(tv.take(i as int)),
            mv + 2 <= col_width_of(tv),
        decreases tokens.len() - i,
    {
        proof {
            assert(tv.take(i as int + 1).drop_last() =~= tv.take(i as int));
            assert(tv.take(i as int + 1).last() == tokens@[i as int]@);
            lemma_max_visual_bound(tv);
            assert(tv[i as int] == tokens@[i as int]@);
        }
        let v = crate::style::visual_len(&tokens[i]);
        if v > mv {
            mv = v;
        }
        i = i + 1;
    }
    proof {
        assert(tv.take(tokens@.len() as int) =~= tv);
    }
    let cw = mv + 2;
    let q = terminal_width / cw;
    let cols = if q >= 1 {
        q
    } else {
        1
    };
    let sorted = partition_dir_tokens(tokens);
    let ghost sv = token_views(sorted@);
    proof {
        lemma_max_visual_bound(tv);
        lemma_part_preserves(tv, true, |t: Seq<char>| visual_width(t) <= max_visual(tv));
        lemma_part_preserves(tv, false, |t: Seq<char>| visual_width(t) <= max_visual(tv));
        assert(forall|j: int| 0 <= j < sv.len() ==> visual_width(#[trigger] sv[j]) <= mv) by {
            assert(forall|j: int|
                0 <= j < sv.len() ==> sv[j] == if j < part_tokens(tv, true).len() {
                    part_tokens(tv, true)[j]
                } else {
                    part_tokens(tv, false)[j - part_tokens(tv, true).len()]
                });
        }
    }
    let mut out = String::new();
    let mut start: usize = 0;
    proof {
        assert(Seq::<char>::empty() + body_from(sv, cw as int, cols as int, 0) =~= body_from(
            sv,
            cw as int,
            cols as int,
            0,
        ));
    }
    while start < sorted.len()
        invariant
            sv == token_views(sorted@),
            cols >= 1,
            cw == col_width_of(tv),
            forall|j: int| 0 <= j < sv.len() ==> visual_width(#[trigger] sv[j]) <= mv,
            cw == mv + 2,
            body_from(sv, cw as int, cols as int, 0) == out@ + body_from(
                sv,
                cw as int,
                cols as int,
                start as int,
            ),
        decreases sorted.len() - start,
    {
        let e = if sorted.len() - start > cols {
            start + cols
        } else {
            sorted.len()
        };
        let ghost row_base = out@;
        let mut j: usize = start;
        while j < e
            invariant
                sv == token_views(sorted@),
                start <= j <= e <= sorted.len(),
                forall|jj: int| 0 <= jj < sv.len() ==> visual_width(#[trigger] sv[jj]) <= mv,
                cw == mv + 2,
                out@ == row_base + row_seq(sv, cw as int, start as int, j as int),
            decreases e - j,
        {
            let tok = &sorted[j];
            proof {
                assert(sv[j as int] == sorted@[j as int]@);
            }
            let v = crate::style::visual_len(tok);
            out.append(tok.as_str());
            push_repeat(&mut out, ' ', cw - v);
            proof {
                assert((row_base + row_seq(sv, cw as int, start as int, j as int)) + sv[j as int]
                    + repeat_char(' ', cw - v) =~= row_base + row_seq(
                    sv,
                    cw as int,
                    start as int,
                    j as int + 1,
                ));
            }
            j = j + 1;
        }
        push_char(&mut out, '\n');
        proof {
            let cwi = cw as int;
            let ci = cols as int;
            let si = start as int;
            let ei = if si + ci < sv.len() {
                si + ci
            } else {
                sv.len() as int
            };
            assert(ei == e as int);
            assert((row_base + row_seq(sv, cwi, si, ei)).push('\n') =~= row_base + (row_seq(
                sv,
                cwi,
                si,
                ei,
            ) + seq!['\n']));
            assert(body_from(sv, cwi, ci, si) == row_seq(sv, cwi, si, ei) + seq!['\n']
                + body_from(sv, cwi, ci, ei));
            assert(row_base + (row_seq(sv, cwi, si, ei) + seq!['\n']) + body_from(
                sv,
                cwi,
                ci,
                ei,
            ) =~= (row_base + (row_seq(sv, cwi, si, ei) + seq!['\n'])) + body_from(
                sv,
                cwi,
                ci,
                ei,
            ));
        }
        start = e;
    }
    proof {
        assert(body_from(sv, cw as int, cols as int, sorted@.len() as int)
            =~= Seq::<char>::empty());
        assert(out@ + Seq::<char>::empty() =~= out@);
    }
    trim_trailing(&out)
}

} // verus!
