//! Sizing the table: the width that each column needs for the rows at
//! hand, and the prefix that all worktree paths share.
//!
//! A column is as wide as its widest cell, and never narrower than its
//! label in the header. A column in which no row shows anything gets width
//! zero, and is left out of the table.

use vstd::prelude::*;
use crate::model::ListItem;
use crate::age::format_relative_time;
use crate::render::{
    age_of,
    counts_text,
    format_all_states,
    joined,
    message_text,
    shows_counts,
    state_labels,
    upstream_segments,
    working_diff_of,
    ColumnWidths,
    DiffWidths,
    LayoutConfig,
};
use crate::styling::{cells_width, lemma_width_of_one};
use crate::text::{
    chars_of,
    common_len,
    common_prefix_len,
    decimal,
    decimal_string,
    directory_of,
    directory_part,
    lemma_decimal_bound,
    lemma_decimal_len,
    push_decimal,
    truncate_at_word_boundary,
};

verus! {

/// What is measured of a row: the text of a cell, or the digits of one of
/// the numbers in a column of line totals.
#[derive(Clone, Copy, Debug, PartialEq, Eq, Structural)]
pub enum Measure {
    Branch,
    Age,
    Counts,
    BranchAdded,
    BranchDeleted,
    WorkingAdded,
    WorkingDeleted,
    Upstream,
    Message,
    States,
}

/// Whether line totals show: where they apply and are not both zero.
pub open spec fn shows_diff(shown: bool, diff: (usize, usize)) -> bool {
    shown && (diff.0 > 0 || diff.1 > 0)
}

/// The text of an upstream: `origin ↑4 ↓0`.
pub open spec fn upstream_text(remote: Seq<char>, ahead: nat, behind: nat) -> Seq<char> {
    remote + seq![' ', '↑'] + decimal(ahead) + seq![' ', '↓'] + decimal(behind)
}

/// The width of what a row shows in a column; zero where it shows nothing.
pub open spec fn measured(item: ListItem, now: i64, layout_max: nat, which: Measure) -> nat {
    match which {
        Measure::Branch => item.spec_branch_name().len(),
        Measure::Age => age_of(item, now).len(),
        Measure::Counts => if shows_counts(item) {
            counts_text(item.spec_counts().ahead as nat, item.spec_counts().behind as nat).len()
        } else {
            0
        },
        Measure::BranchAdded => if shows_diff(
            !item.spec_is_primary(),
            item.spec_branch_diff().diff,
        ) {
            decimal(item.spec_branch_diff().diff.0 as nat).len()
        } else {
            0
        },
        Measure::BranchDeleted => if shows_diff(
            !item.spec_is_primary(),
            item.spec_branch_diff().diff,
        ) {
            decimal(item.spec_branch_diff().diff.1 as nat).len()
        } else {
            0
        },
        Measure::WorkingAdded => if shows_diff(item is Worktree, working_diff_of(item)) {
            decimal(working_diff_of(item).0 as nat).len()
        } else {
            0
        },
        Measure::WorkingDeleted => if shows_diff(item is Worktree, working_diff_of(item)) {
            decimal(working_diff_of(item).1 as nat).len()
        } else {
            0
        },
        Measure::Upstream => match item.spec_upstream()@.remote {
            Some(remote) => upstream_text(
                remote,
                item.spec_upstream()@.ahead,
                item.spec_upstream()@.behind,
            ).len(),
            None => 0,
        },
        Measure::Message => truncated_len(item, layout_max),
        Measure::States => match item {
            ListItem::Worktree(info) => joined(state_labels(info)).len(),
            ListItem::Branch(_) => 0,
        },
    }
}

/// The length of the message as it shows.
pub open spec fn truncated_len(item: ListItem, layout_max: nat) -> nat {
    crate::text::truncated(item.spec_commit_details().commit_message@, layout_max).len()
}

/// The widest that any of the rows measures.
pub open spec fn widest(items: Seq<ListItem>, now: i64, layout_max: nat, which: Measure) -> nat
    decreases items.len(),
{
    if items.len() == 0 {
        0
    } else {
        let front = widest(items.drop_last(), now, layout_max, which);
        let last = measured(items.last(), now, layout_max, which);
        if front >= last {
            front
        } else {
            last
        }
    }
}

/// The width of a column: that of its widest cell and at least that of its
/// label, or zero where no cell shows anything.
pub open spec fn column_width(content: nat, label: nat) -> nat {
    if content == 0 {
        0
    } else if content < label {
        label
    } else {
        content
    }
}

/// The widths of a column of line totals: the digits of the widest
/// numbers, with more room for the added lines where the label of the
/// column is wider than both; all zero where no row shows totals.
pub open spec fn diff_widths(added: nat, deleted: nat, label: nat) -> (nat, nat, nat) {
    if added == 0 && deleted == 0 {
        (0, 0, 0)
    } else if added + deleted + 3 < label {
        (label, (label - 3 - deleted) as nat, deleted)
    } else {
        (added + deleted + 3, added, deleted)
    }
}

/// Whether `w` is the widths of a column of line totals for these digits.
pub open spec fn is_diff_widths(w: DiffWidths, added: nat, deleted: nat, label: nat) -> bool {
    (w.total as nat, w.added_digits as nat, w.deleted_digits as nat) == diff_widths(
        added,
        deleted,
        label,
    )
}

/// Whether `w` is the widths that the rows need.
pub open spec fn fits_rows(w: ColumnWidths, items: Seq<ListItem>, now: i64, layout_max: nat) -> bool {
    &&& w.branch == if widest(items, now, layout_max, Measure::Branch) < 6 {
        6
    } else {
        widest(items, now, layout_max, Measure::Branch)
    }
    &&& w.time == column_width(widest(items, now, layout_max, Measure::Age), 3)
    &&& w.ahead_behind == column_width(widest(items, now, layout_max, Measure::Counts), 4)
    &&& is_diff_widths(
        w.branch_diff,
        widest(items, now, layout_max, Measure::BranchAdded),
        widest(items, now, layout_max, Measure::BranchDeleted),
        7,
    )
    &&& is_diff_widths(
        w.working_diff,
        widest(items, now, layout_max, Measure::WorkingAdded),
        widest(items, now, layout_max, Measure::WorkingDeleted),
        6,
    )
    &&& w.upstream == column_width(widest(items, now, layout_max, Measure::Upstream), 6)
    &&& w.message == column_width(widest(items, now, layout_max, Measure::Message), 7)
    &&& w.states == column_width(widest(items, now, layout_max, Measure::States), 5)
}

/// The paths of the worktrees among the rows, in their order.
pub open spec fn worktree_paths(items: Seq<ListItem>) -> Seq<Seq<char>>
    decreases items.len(),
{
    if items.len() == 0 {
        Seq::empty()
    } else {
        match items.last() {
            ListItem::Worktree(info) => worktree_paths(items.drop_last()).push(
                info.worktree.path@,
            ),
            ListItem::Branch(_) => worktree_paths(items.drop_last()),
        }
    }
}

/// The longest text that all the paths start with; nothing for no path.
pub open spec fn shared_start(paths: Seq<Seq<char>>) -> Seq<char>
    decreases paths.len(),
{
    if paths.len() == 0 {
        Seq::empty()
    } else if paths.len() == 1 {
        paths[0]
    } else {
        let front = shared_start(paths.drop_last());
        front.take(common_len(front, paths.last()) as int)
    }
}

/// The prefix that the list leaves out of the worktree paths: the
/// directory part of what they all start with.
pub open spec fn common_prefix_of(items: Seq<ListItem>) -> Seq<char> {
    directory_of(shared_start(worktree_paths(items)))
}

fn digits(n: usize) -> (len: usize)
    ensures
        len == decimal(n as nat).len(),
        1 <= len <= 20,
{
    proof {
        lemma_decimal_bound(n);
    }
    decimal_string(n).as_str().unicode_len()
}

/// Measure what a row shows in a column.
pub fn measure(item: &ListItem, now: i64, max_message_len: usize, which: Measure) -> (m: usize)
    ensures
        m == measured(*item, now, max_message_len as nat, which),
{
    match which {
        Measure::Branch => item.branch_name().unicode_len(),
        Measure::Age => format_relative_time(item.commit_timestamp(), now).as_str().unicode_len(),
        Measure::Counts => {
            let counts = item.counts();
            if !item.is_primary() && (counts.ahead > 0 || counts.behind > 0) {
                let mut text = String::new();
                text.push('↑');
                push_decimal(&mut text, counts.ahead);
                text.push(' ');
                text.push('↓');
                push_decimal(&mut text, counts.behind);
                assert(text@ =~= counts_text(counts.ahead as nat, counts.behind as nat));
                text.as_str().unicode_len()
            } else {
                0
            }
        },
        Measure::BranchAdded => {
            let diff = item.branch_diff().diff;
            if !item.is_primary() && (diff.0 > 0 || diff.1 > 0) {
                digits(diff.0)
            } else {
                0
            }
        },
        Measure::BranchDeleted => {
            let diff = item.branch_diff().diff;
            if !item.is_primary() && (diff.0 > 0 || diff.1 > 0) {
                digits(diff.1)
            } else {
                0
            }
        },
        Measure::WorkingAdded => match item {
            ListItem::Worktree(info) => {
                let diff = info.working_tree_diff;
                if diff.0 > 0 || diff.1 > 0 {
                    digits(diff.0)
                } else {
                    0
                }
            },
            ListItem::Branch(_) => 0,
        },
        Measure::WorkingDeleted => match item {
            ListItem::Worktree(info) => {
                let diff = info.working_tree_diff;
                if diff.0 > 0 || diff.1 > 0 {
                    digits(diff.1)
                } else {
                    0
                }
            },
            ListItem::Branch(_) => 0,
        },
        Measure::Upstream => match item.upstream().active() {
            Some((remote, ahead, behind)) => {
                let mut text = String::from_str(remote);
                text.push(' ');
                text.push('↑');
                push_decimal(&mut text, ahead);
                text.push(' ');
                text.push('↓');
                push_decimal(&mut text, behind);
                assert(text@ =~= upstream_text(remote@, ahead as nat, behind as nat));
                text.as_str().unicode_len()
            },
            None => 0,
        },
        Measure::Message => truncate_at_word_boundary(
            item.commit_details().commit_message.as_str(),
            max_message_len,
        ).as_str().unicode_len(),
        Measure::States => match item {
            ListItem::Worktree(info) => format_all_states(info).as_str().unicode_len(),
            ListItem::Branch(_) => 0,
        },
    }
}

/// The widest that any of the rows measures.
pub fn widest_measure(
    items: &Vec<ListItem>,
    now: i64,
    max_message_len: usize,
    which: Measure,
) -> (width: usize)
    ensures
        width == widest(items@, now, max_message_len as nat, which),
{
    let mut width: usize = 0;
    let mut i: usize = 0;
    assert(items@.take(0) =~= Seq::<ListItem>::empty());
    while i < items.len()
        invariant
            i <= items.len(),
            width == widest(items@.take(i as int), now, max_message_len as nat, which),
        decreases items.len() - i,
    {
        let m = measure(&items[i], now, max_message_len, which);
        proof {
            assert(items@.take(i + 1).drop_last() =~= items@.take(i as int));
            assert(items@.take(i + 1).last() == items@[i as int]);
        }
        if m > width {
            width = m;
        }
        i += 1;
    }
    assert(items@.take(items@.len() as int) =~= items@);
    width
}

/// The digits of a measure are at most twenty.
proof fn lemma_widest_digits(items: Seq<ListItem>, now: i64, layout_max: nat, which: Measure)
    requires
        which == Measure::BranchAdded || which == Measure::BranchDeleted || which
            == Measure::WorkingAdded || which == Measure::WorkingDeleted,
    ensures
        widest(items, now, layout_max, which) <= 20,
    decreases items.len(),
{
    if items.len() > 0 {
        lemma_widest_digits(items.drop_last(), now, layout_max, which);
        let item = items.last();
        lemma_decimal_bound(item.spec_branch_diff().diff.0);
        lemma_decimal_bound(item.spec_branch_diff().diff.1);
        lemma_decimal_bound(working_diff_of(item).0);
        lemma_decimal_bound(working_diff_of(item).1);
    }
}

fn column(content: usize, label: usize) -> (width: usize)
    ensures
        width == column_width(content as nat, label as nat),
{
    if content == 0 {
        0
    } else if content < label {
        label
    } else {
        content
    }
}

fn diff_column(added: usize, deleted: usize, label: usize) -> (w: DiffWidths)
    requires
        added <= 20,
        deleted <= 20,
        label <= 20,
    ensures
        is_diff_widths(w, added as nat, deleted as nat, label as nat),
{
    if added == 0 && deleted == 0 {
        DiffWidths { total: 0, added_digits: 0, deleted_digits: 0 }
    } else if added + deleted + 3 < label {
        DiffWidths { total: label, added_digits: label - 3 - deleted, deleted_digits: deleted }
    } else {
        DiffWidths { total: added + deleted + 3, added_digits: added, deleted_digits: deleted }
    }
}

/// The widths that the rows need when the list is shown at `now`.
pub fn calculate_column_widths(
    items: &Vec<ListItem>,
    now: i64,
    max_message_len: usize,
) -> (w: ColumnWidths)
    ensures
        fits_rows(w, items@, now, max_message_len as nat),
{
    let branch = widest_measure(items, now, max_message_len, Measure::Branch);
    let branch_added = widest_measure(items, now, max_message_len, Measure::BranchAdded);
    let branch_deleted = widest_measure(items, now, max_message_len, Measure::BranchDeleted);
    let working_added = widest_measure(items, now, max_message_len, Measure::WorkingAdded);
    let working_deleted = widest_measure(items, now, max_message_len, Measure::WorkingDeleted);
    proof {
        let max = max_message_len as nat;
        lemma_widest_digits(items@, now, max, Measure::BranchAdded);
        lemma_widest_digits(items@, now, max, Measure::BranchDeleted);
        lemma_widest_digits(items@, now, max, Measure::WorkingAdded);
        lemma_widest_digits(items@, now, max, Measure::WorkingDeleted);
    }
    ColumnWidths {
        branch: if branch < 6 {
            6
        } else {
            branch
        },
        time: column(widest_measure(items, now, max_message_len, Measure::Age), 3),
        message: column(widest_measure(items, now, max_message_len, Measure::Message), 7),
        ahead_behind: column(widest_measure(items, now, max_message_len, Measure::Counts), 4),
        working_diff: diff_column(working_added, working_deleted, 6),
        branch_diff: diff_column(branch_added, branch_deleted, 7),
        upstream: column(widest_measure(items, now, max_message_len, Measure::Upstream), 6),
        states: column(widest_measure(items, now, max_message_len, Measure::States), 5),
    }
}

/// The prefix that all worktree paths share, up to a directory.
pub fn common_path_prefix(items: &Vec<ListItem>) -> (prefix: String)
    ensures
        prefix@ == common_prefix_of(items@),
{
    let mut shared: Vec<char> = Vec::new();
    let mut seen = false;
    let mut i: usize = 0;
    assert(items@.take(0) =~= Seq::<ListItem>::empty());
    while i < items.len()
        invariant
            i <= items.len(),
            seen == (worktree_paths(items@.take(i as int)).len() > 0),
            shared@ == shared_start(worktree_paths(items@.take(i as int))),
        decreases items.len() - i,
    {
        proof {
            assert(items@.take(i + 1).drop_last() =~= items@.take(i as int));
            assert(items@.take(i + 1).last() == items@[i as int]);
        }
        let ghost before = worktree_paths(items@.take(i as int));
        match &items[i] {
            ListItem::Worktree(info) => {
                let path = chars_of(info.worktree.path.as_str());
                proof {
                    assert(before.push(path@).drop_last() =~= before);
                    assert(before.push(path@).last() == path@);
                }
                if seen {
                    let n = common_prefix_len(&shared, &path);
                    shared.truncate(n);
                    assert(shared@ =~= shared_start(before).take(n as int));
                } else {
                    shared = path;
                    assert(before.push(path@)[0] == path@);
                }
                seen = true;
            },
            ListItem::Branch(_) => {},
        }
        i += 1;
    }
    assert(items@.take(items@.len() as int) =~= items@);
    directory_part(&shared)
}

/// The layout for the rows at hand.
pub fn calculate_layout(items: &Vec<ListItem>, now: i64, max_message_len: usize) -> (layout:
    LayoutConfig)
    ensures
        fits_rows(layout.widths, items@, now, max_message_len as nat),
        layout.common_prefix@ == common_prefix_of(items@),
        layout.max_message_len == max_message_len,
{
    LayoutConfig {
        widths: calculate_column_widths(items, now, max_message_len),
        common_prefix: common_path_prefix(items),
        max_message_len,
    }
}

/// No row measures more than the widest.
pub proof fn lemma_widest_bounds(
    items: Seq<ListItem>,
    now: i64,
    layout_max: nat,
    which: Measure,
    i: int,
)
    requires
        0 <= i < items.len(),
    ensures
        measured(items[i], now, layout_max, which) <= widest(
            items,
            now,
            layout_max,
            which,
        ),
    decreases items.len(),
{
    if i < items.len() - 1 {
        lemma_widest_bounds(items.drop_last(), now, layout_max, which, i);
        assert(items.drop_last()[i] == items[i]);
    }
}

/// The segments of an upstream are as wide as its text is long.
pub proof fn lemma_upstream_width(remote: Seq<char>, ahead: nat, behind: nat)
    ensures
        cells_width(upstream_segments(remote, ahead, behind)) == upstream_text(
            remote,
            ahead,
            behind,
        ).len(),
{
    let s = upstream_segments(remote, ahead, behind);
    lemma_width_of_one(s[0]);
    assert(s.take(1) =~= seq![s[0]]);
    assert(s.take(2).drop_last() =~= s.take(1));
    assert(s.take(3).drop_last() =~= s.take(2));
    assert(s.take(4).drop_last() =~= s.take(3));
    assert(s.take(5).drop_last() =~= s.take(4));
    assert(s.take(5) =~= s);
    assert(cells_width(s.take(2)) == cells_width(s.take(1)) + s[1].text.len());
    assert(cells_width(s.take(3)) == cells_width(s.take(2)) + s[2].text.len());
    assert(cells_width(s.take(4)) == cells_width(s.take(3)) + s[3].text.len());
    assert(cells_width(s.take(5)) == cells_width(s.take(4)) + s[4].text.len());
}

/// In a layout sized for the rows, the labels of the header fit their
/// columns, and so does every cell of every row.
pub proof fn lemma_sized_layout_holds(
    layout: LayoutConfig,
    items: Seq<ListItem>,
    now: i64,
    i: int,
)
    requires
        fits_rows(layout.widths, items, now, layout.max_message_len as nat),
        0 <= i < items.len(),
    ensures
        layout.widths.holds_header(),
        layout.holds_row(items[i], age_of(items[i], now)),
{
    let max = layout.max_message_len as nat;
    let item = items[i];
    lemma_widest_bounds(items, now, max, Measure::Branch, i);
    lemma_widest_bounds(items, now, max, Measure::Age, i);
    lemma_widest_bounds(items, now, max, Measure::Counts, i);
    lemma_widest_bounds(items, now, max, Measure::BranchAdded, i);
    lemma_widest_bounds(items, now, max, Measure::BranchDeleted, i);
    lemma_widest_bounds(items, now, max, Measure::WorkingAdded, i);
    lemma_widest_bounds(items, now, max, Measure::WorkingDeleted, i);
    lemma_widest_bounds(items, now, max, Measure::Upstream, i);
    lemma_widest_bounds(items, now, max, Measure::Message, i);
    lemma_widest_bounds(items, now, max, Measure::States, i);
    lemma_decimal_len(item.spec_branch_diff().diff.0 as nat);
    lemma_decimal_len(item.spec_branch_diff().diff.1 as nat);
    lemma_decimal_len(working_diff_of(item).0 as nat);
    lemma_decimal_len(working_diff_of(item).1 as nat);
    let upstream = item.spec_upstream()@;
    match upstream.remote {
        Some(remote) => {
            lemma_upstream_width(remote, upstream.ahead, upstream.behind);
        },
        None => {},
    }
    assert(message_text(item, layout).len() == truncated_len(item, max));
}

/// Header and rows align in a layout sized for the rows: the header
/// without the label of the path and each row without its path are equally
/// wide, for every row.
pub proof fn lemma_sized_layout_aligns(
    layout: LayoutConfig,
    items: Seq<ListItem>,
    now: i64,
    current: Option<Seq<char>>,
    i: int,
)
    requires
        fits_rows(layout.widths, items, now, layout.max_message_len as nat),
        0 <= i < items.len(),
    ensures
        cells_width(crate::render::header_cells(layout.widths)) - 4 == cells_width(
            crate::render::row_cells(items[i], layout, current, age_of(items[i], now)),
        ) - cells_width(crate::render::path_cells(items[i], layout.common_prefix@, current)),
{
    lemma_sized_layout_holds(layout, items, now, i);
    crate::render::lemma_header_and_row_align(items[i], layout, current, age_of(items[i], now));
}

} // verus!
