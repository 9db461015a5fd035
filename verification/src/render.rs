//! The renderer: a visibility filter and a display mode turn a list of
//! directory items into styled text — a grid of (optionally styled) names
//! handed to the column-layout engine, or a detailed one-line-per-item
//! listing with date, permissions, size and name.

use vstd::prelude::*;

verus! {

use crate::item::{date_seq, date_string, DirectoryItem};
use crate::layout::{col_width_of, layout, layout_spec, token_views};
use crate::style::{bold_seq, colour_pink, colour_reset, colour_reset_seq, pink_seq, style_bold,
    style_reset, style_reset_seq};
use crate::text::{lpad, push_char, push_repeat, repeat_char, trim_trailing, trim_ws};
use crate::utils::{byte_conv, byte_conv_seq, get_terminal_width, width_or_default};
use vstd::string::{StrSliceExecFns, StringExecFns};

/// Which items appear in the output.
#[derive(Clone, Copy, Debug, PartialEq, Eq, Structural)]
pub enum Filter {
    /// Every item appears, hidden or not.
    ShowAll,
    /// Exactly the items that are not hidden appear.
    HideHidden,
}

impl Filter {
    /// Whether the filter selects the item.
    pub open spec fn spec_selects(self, item: DirectoryItem) -> bool {
        match self {
            Filter::ShowAll => true,
            Filter::HideHidden => !item.is_hidden,
        }
    }

    /// Test one item against the filter: show-all selects every item
    /// regardless of its hidden flag, hide-hidden selects exactly the items
    /// whose hidden flag is off.
    pub fn selects(&self, item: &DirectoryItem) -> (r: bool)
        ensures
            r == self.spec_selects(*item),
            *self == Filter::ShowAll ==> r,
            *self == Filter::HideHidden ==> (r <==> !item.is_hidden),
    {
        match self {
            Filter::ShowAll => true,
            Filter::HideHidden => !item.is_hidden,
        }
    }
}

/// The rendering mode: a plain grid of names, or one detailed line per
/// item.
#[derive(Clone, Copy, Debug, PartialEq, Eq, Structural)]
pub enum DisplayMode {
    Grid,
    Detailed,
}

/// The styled display token for one item: a directory name is wrapped in
/// the bold and accent-colour style with explicit resets, a file name is
/// plain.
pub open spec fn token_seq(item: DirectoryItem) -> Seq<char> {
    if item.is_dir {
        bold_seq() + pink_seq() + item.name@ + style_reset_seq() + colour_reset_seq()
    } else {
        item.name@
    }
}

/// Produce the styled display token for one item.
pub fn display_token(item: &DirectoryItem) -> (r: String)
    ensures
        r@ == token_seq(*item),
{
    if item.is_dir {
        let mut out = String::new();
        out.append(style_bold());
        out.append(colour_pink());
        out.append(item.name.as_str());
        out.append(style_reset());
        out.append(colour_reset());
        proof {
            assert(out@ =~= token_seq(*item));
        }
        out
    } else {
        item.name.clone()
    }
}

/// The display tokens of the items the filter selects, in item order.
pub open spec fn spec_tokens(items: Seq<DirectoryItem>, f: Filter) -> Seq<Seq<char>>
    decreases items.len(),
{
    if items.len() == 0 {
        Seq::empty()
    } else {
        let rest = spec_tokens(items.drop_last(), f);
        if f.spec_selects(items.last()) {
            rest.push(token_seq(items.last()))
        } else {
            rest
        }
    }
}

/// The grid rendering: the selected items' display tokens laid out by the
/// column-layout engine for the given terminal width.
pub open spec fn grid_spec(items: Seq<DirectoryItem>, f: Filter, width: int) -> Seq<char> {
    layout_spec(spec_tokens(items, f), width)
}

/// The display tokens of the selected items.
pub fn grid_tokens(items: &Vec<DirectoryItem>, filter: Filter) -> (r: Vec<String>)
    ensures
        token_views(r@) == spec_tokens(items@, filter),
{
    let mut out: Vec<String> = Vec::new();
    let mut i: usize = 0;
    proof {
        assert(token_views(out@) =~= spec_tokens(items@.take(0), filter));
    }
    while i < items.len()
        invariant
            i <= items.len(),
            token_views(out@) == spec_tokens(items@.take(i as int), filter),
        decreases items.len() - i,
    {
        proof {
            assert(items@.take(i as int + 1).drop_last() =~= items@.take(i as int));
            assert(items@.take(i as int + 1).last() == items@[i as int]);
        }
        if filter.selects(&items[i]) {
            let t = display_token(&items[i]);
            out.push(t);
            proof {
                assert(token_views(out@) =~~= spec_tokens(items@.take(i as int), filter).push(
                    token_seq(items@[i as int]),
                ));
            }
        }
        i = i + 1;
    }
    proof {
        assert(items@.take(items@.len() as int) =~= items@);
    }
    out
}

/// Render the selected items as a padded multi-column grid for the given
/// terminal width.
pub fn render_grid(items: &Vec<DirectoryItem>, filter: Filter, terminal_width: usize) -> (r:
    String)
    requires
        col_width_of(spec_tokens(items@, filter)) <= usize::MAX,
    ensures
        r@ == grid_spec(items@, filter, terminal_width as int),
        spec_tokens(items@, filter).len() == 0 ==> r@ == Seq::<char>::empty(),
{
    let toks = grid_tokens(items, filter);
    layout(&toks, terminal_width)
}

/// The items the filter selects whose directory flag equals `want_dir`, in
/// their original order.
pub open spec fn part_items(items: Seq<DirectoryItem>, f: Filter, want_dir: bool) -> Seq<
    DirectoryItem,
>
    decreases items.len(),
{
    if items.len() == 0 {
        Seq::empty()
    } else {
        let rest = part_items(items.drop_last(), f, want_dir);
        if f.spec_selects(items.last()) && items.last().is_dir == want_dir {
            rest.push(items.last())
        } else {
            rest
        }
    }
}

/// One detailed line: creation date, permission string, human-readable
/// size right-aligned to eight cells, and the styled name, separated by
/// single spaces.
pub open spec fn detail_line(item: DirectoryItem) -> Seq<char> {
    date_seq(item.created_at) + seq![' '] + item.file_permissions@ + seq![' '] + lpad(
        ' ',
        byte_conv_seq(item.size),
        8,
    ) + seq![' '] + token_seq(item)
}

/// The detailed lines of the given items in order, each terminated by a
/// line break.
pub open spec fn lines_seq(items: Seq<DirectoryItem>) -> Seq<char>
    decreases items.len(),
{
    if items.len() == 0 {
        Seq::empty()
    } else {
        lines_seq(items.drop_last()) + detail_line(items.last()) + seq!['\n']
    }
}

/// The detailed rendering: one line per selected item, directories before
/// files (stable otherwise), trailing whitespace trimmed from the block.
pub open spec fn detailed_spec(items: Seq<DirectoryItem>, f: Filter) -> Seq<char> {
    trim_ws(lines_seq(part_items(items, f, true) + part_items(items, f, false)))
}

/// When the filter selects nothing, neither partition holds an item.
proof fn lemma_none_selected(items: Seq<DirectoryItem>, f: Filter, want_dir: bool)
    requires
        forall|i: int| 0 <= i < items.len() ==> !f.spec_selects(#[trigger] items[i]),
    ensures
        part_items(items, f, want_dir).len() == 0,
    decreases items.len(),
{
    if items.len() > 0 {
        assert(forall|i: int|
            0 <= i < items.len() - 1 ==> #[trigger] items.drop_last()[i] == items[i]);
        lemma_none_selected(items.drop_last(), f, want_dir);
        assert(items.last() == items[items.len() - 1]);
    }
}

/// Appends the detailed line for one item, with its line break.
fn push_detail_line(out: &mut String, item: &DirectoryItem)
    ensures
        final(out)@ == old(out)@ + detail_line(*item) + seq!['\n'],
{
    let date = date_string(&item.created_at);
    out.append(date.as_str());
    push_char(out, ' ');
    out.append(item.file_permissions.as_str());
    push_char(out, ' ');
    let size = byte_conv(item.size);
    let sl = size.as_str().unicode_len();
    if sl < 8 {
        push_repeat(out, ' ', 8 - sl);
    } else {
        proof {
            assert(repeat_char(' ', 8 - byte_conv_seq(item.size).len()) =~= Seq::<char>::empty());
        }
    }
    out.append(size.as_str());
    push_char(out, ' ');
    let token = display_token(item);
    out.append(token.as_str());
    push_char(out, '\n');
    proof {
        assert(out@ =~= old(out)@ + detail_line(*item) + seq!['\n']);
    }
}

/// Render the selected items as a detailed listing: one line per item with
/// creation date, permissions, human-readable size and styled name,
/// directories listed before files (stable otherwise), the block's
/// trailing whitespace trimmed.
pub fn output_with_permissions(items: &Vec<DirectoryItem>, filter: Filter) -> (r: String)
    ensures
        r@ == detailed_spec(items@, filter),
        (forall|i: int| 0 <= i < items@.len() ==> !filter.spec_selects(#[trigger] items@[i]))
            ==> r@ == Seq::<char>::empty(),
{
    proof {
        if forall|i: int| 0 <= i < items@.len() ==> !filter.spec_selects(#[trigger] items@[i]) {
            lemma_none_selected(items@, filter, true);
            lemma_none_selected(items@, filter, false);
            assert(part_items(items@, filter, true) + part_items(items@, filter, false)
                =~= Seq::<DirectoryItem>::empty());
        }
    }
    let ghost dirs = part_items(items@, filter, true);
    let mut out = String::new();
    let mut i: usize = 0;
    proof {
        assert(out@ =~= lines_seq(part_items(items@.take(0), filter, true)));
    }
    while i < items.len()
        invariant
            i <= items.len(),
            out@ == lines_seq(part_items(items@.take(i as int), filter, true)),
        decreases items.len() - i,
    {
        proof {
            assert(items@.take(i as int + 1).drop_last() =~= items@.take(i as int));
            assert(items@.take(i as int + 1).last() == items@[i as int]);
        }
        if filter.selects(&items[i]) && items[i].is_dir {
            push_detail_line(&mut out, &items[i]);
            proof {
                let prev = part_items(items@.take(i as int), filter, true);
                assert(part_items(items@.take(i as int + 1), filter, true) == prev.push(
                    items@[i as int],
                ));
                assert(prev.push(items@[i as int]).drop_last() =~= prev);
            }
        }
        i = i + 1;
    }
    proof {
        assert(items@.take(items@.len() as int) =~= items@);
    }
    let mut i: usize = 0;
    proof {
        assert(dirs + part_items(items@.take(0), filter, false) =~= dirs);
    }
    while i < items.len()
        invariant
            i <= items.len(),
            dirs == part_items(items@, filter, true),
            out@ == lines_seq(dirs + part_items(items@.take(i as int), filter, false)),
        decreases items.len() - i,
    {
        proof {
            assert(items@.take(i as int + 1).drop_last() =~= items@.take(i as int));
            assert(items@.take(i as int + 1).last() == items@[i as int]);
        }
        if filter.selects(&items[i]) && !items[i].is_dir {
            push_detail_line(&mut out, &items[i]);
            proof {
                let prev = part_items(items@.take(i as int), filter, false);
                assert(part_items(items@.take(i as int + 1), filter, false) == prev.push(
                    items@[i as int],
                ));
                assert(dirs + prev.push(items@[i as int]) =~= (dirs + prev).push(
                    items@[i as int],
                ));
                assert((dirs + prev).push(items@[i as int]).drop_last() =~= dirs + prev);
            }
        }
        i = i + 1;
    }
    proof {
        assert(items@.take(items@.len() as int) =~= items@);
    }
    trim_trailing(&out)
}

/// Render the selected items in the given mode: the grid for `Grid`, the
/// detailed listing for `Detailed` (which ignores the terminal width).
pub fn render(
    items: &Vec<DirectoryItem>,
    filter: Filter,
    mode: DisplayMode,
    terminal_width: usize,
) -> (r: String)
    requires
        mode == DisplayMode::Grid ==> col_width_of(spec_tokens(items@, filter)) <= usize::MAX,
    ensures
        mode == DisplayMode::Grid ==> r@ == grid_spec(items@, filter, terminal_width as int),
        mode == DisplayMode::Detailed ==> r@ == detailed_spec(items@, filter),
{
    match mode {
        DisplayMode::Grid => render_grid(items, filter, terminal_width),
        DisplayMode::Detailed => output_with_permissions(items, filter),
    }
}

/// Render the selected items as a grid for the terminal the process is
/// attached to: the probed terminal width when one is available, a default
/// of 80 columns otherwise. The width is an environment probe, so the
/// result is pinned only up to the width used.
pub fn output(items: &Vec<DirectoryItem>, filter: Filter) -> (r: String)
    requires
        col_width_of(spec_tokens(items@, filter)) <= usize::MAX,
    ensures
        exists|w: int| 0 <= w <= u16::MAX && r@ == #[trigger] grid_spec(items@, filter, w),
        spec_tokens(items@, filter).len() == 0 ==> r@ == Seq::<char>::empty(),
{
    let probed = get_terminal_width();
    let tw = width_or_default(probed);
    let r = render_grid(items, filter, tw);
    proof {
        assert(0 <= tw as int <= u16::MAX && r@ == grid_spec(items@, filter, tw as int));
    }
    r
}

} // verus!
