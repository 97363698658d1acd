//! The table: a header line and one line for each row, in columns of fixed
//! width.
//!
//! A column that no row has content for has width zero and is left out of
//! every line. Each column that is shown is followed by a gap of two
//! spaces; the path comes last and has no fixed width.

use vstd::prelude::*;
use crate::age::{format_relative_time, relative_time};
use crate::model::{ListItem, UpstreamFacts, UpstreamStatus, WorktreeInfo};
use crate::styling::{
    cells_width,
    lemma_width_of_one,
    lemma_width_of_parts,
    raw,
    styled,
    Cell,
    Style,
    StyledLine,
    StyledString,
};
use crate::text::{
    decimal,
    decimal_string,
    lemma_decimal_len,
    pad_end,
    pad_start,
    padded,
    push_decimal,
    repeat_space,
    right_aligned,
    shorten_path,
    shortened,
    spaces,
    split_after,
    take_chars,
    truncate_at_word_boundary,
    truncated,
};

verus! {

/// The widths of a column of line totals: `+`, the digits of the added
/// lines, ` -`, the digits of the deleted lines.
#[derive(Clone, Copy, Debug)]
pub struct DiffWidths {
    pub total: usize,
    pub added_digits: usize,
    pub deleted_digits: usize,
}

/// The width of each column. Zero leaves an optional column out.
#[derive(Clone, Copy, Debug)]
pub struct ColumnWidths {
    pub branch: usize,
    pub time: usize,
    pub message: usize,
    pub ahead_behind: usize,
    pub working_diff: DiffWidths,
    pub branch_diff: DiffWidths,
    pub upstream: usize,
    pub states: usize,
}

/// The layout of the table.
#[derive(Debug)]
pub struct LayoutConfig {
    pub widths: ColumnWidths,
    /// What all worktree paths start with, and the list leaves out.
    pub common_prefix: String,
    pub max_message_len: usize,
}

/// One label if `present`, else none.
pub open spec fn one_if(present: bool, label: Seq<char>) -> Seq<Seq<char>> {
    if present {
        seq![label]
    } else {
        Seq::empty()
    }
}

/// The label of an operation in progress: its name in square brackets.
pub open spec fn bracketed(state: Seq<char>) -> Seq<char> {
    seq!['['] + state + seq![']']
}

/// The label of an attribute, with its reason where one is given:
/// `(locked)`, `(locked: moving)`.
pub open spec fn with_reason(name: Seq<char>, reason: Seq<char>) -> Seq<char> {
    if reason.len() == 0 {
        seq!['('] + name + seq![')']
    } else {
        seq!['('] + name + seq![':', ' '] + reason + seq![')']
    }
}

/// The labels of a worktree's states, in the order in which they show. A
/// detached head gets no label where the worktree has no branch: the branch
/// column says so already.
pub open spec fn state_labels(info: WorktreeInfo) -> Seq<Seq<char>> {
    one_if(info.worktree_state is Some, bracketed(crate::model::text_or_empty(info.worktree_state)))
        + one_if(info.worktree.detached && info.worktree.branch is Some, "(detached)"@) + one_if(
        info.worktree.bare,
        "(bare)"@,
    ) + one_if(
        info.worktree.locked is Some,
        with_reason("locked"@, crate::model::text_or_empty(info.worktree.locked)),
    ) + one_if(
        info.worktree.prunable is Some,
        with_reason("prunable"@, crate::model::text_or_empty(info.worktree.prunable)),
    )
}

/// The texts, with one space between each two.
pub open spec fn joined(parts: Seq<Seq<char>>) -> Seq<char>
    decreases parts.len(),
{
    if parts.len() == 0 {
        Seq::empty()
    } else if parts.len() == 1 {
        parts[0]
    } else {
        joined(parts.drop_last()) + seq![' '] + parts.last()
    }
}

/// `joined` of a list with one more text.
proof fn lemma_joined_push(parts: Seq<Seq<char>>, label: Seq<char>)
    ensures
        joined(parts.push(label)) == if parts.len() > 0 {
            joined(parts) + seq![' '] + label
        } else {
            label
        },
{
    assert(parts.push(label).drop_last() =~= parts);
    assert(parts.push(label).last() == label);
}

/// Add a label to the joined labels in `out`, if it is present.
fn add_label(out: &mut String, present: bool, label: &str, Ghost(parts): Ghost<Seq<Seq<char>>>)
    requires
        old(out)@ == joined(parts),
        parts.len() > 0 ==> old(out)@.len() > 0,
        present ==> label@.len() > 0,
    ensures
        final(out)@ == joined(parts + one_if(present, label@)),
        (parts + one_if(present, label@)).len() > 0 ==> final(out)@.len() > 0,
        parts.len() == 0 && !present ==> final(out)@.len() == 0,
{
    if present {
        proof {
            lemma_joined_push(parts, label@);
            assert(parts + one_if(present, label@) =~= parts.push(label@));
        }
        if !out.as_str().is_empty() {
            out.push(' ');
        }
        out.append(label);
        assert(out@ =~= joined(parts.push(label@)));
    } else {
        assert(parts + one_if(present, label@) =~= parts);
    }
}

fn label_with_reason(name: &str, reason: &str) -> (label: String)
    ensures
        label@ == with_reason(name@, reason@),
        label@.len() > 0,
{
    let mut label = String::new();
    label.push('(');
    label.append(name);
    if !reason.is_empty() {
        label.push(':');
        label.push(' ');
        label.append(reason);
    }
    label.push(')');
    assert(label@ =~= with_reason(name@, reason@));
    label
}

fn text_of(t: &Option<String>) -> (s: &str)
    ensures
        s@ == crate::model::text_or_empty(*t),
{
    match t {
        Some(s) => s.as_str(),
        None => {
            proof {
                reveal_strlit("");
                assert(""@ =~= Seq::<char>::empty());
            }
            ""
        },
    }
}

/// The states of a worktree in one text: the operation in progress in
/// square brackets, then `(detached)`, `(bare)`, `(locked)` and
/// `(prunable)`, the last two with their reason where one is given.
pub fn format_all_states(info: &WorktreeInfo) -> (out: String)
    ensures
        out@ == joined(state_labels(*info)),
{
    let mut out = String::new();
    let ghost none = Seq::<Seq<char>>::empty();
    assert(out@ =~= joined(none));

    let mut state = String::new();
    state.push('[');
    state.append(text_of(&info.worktree_state));
    state.push(']');
    assert(state@ =~= bracketed(crate::model::text_or_empty(info.worktree_state)));
    add_label(&mut out, info.worktree_state.is_some(), state.as_str(), Ghost(none));
    let ghost p1 = none + one_if(info.worktree_state is Some, state@);

    proof {
        reveal_strlit("(detached)");
        reveal_strlit("(bare)");
    }
    let detached = info.worktree.detached && info.worktree.branch.is_some();
    add_label(&mut out, detached, "(detached)", Ghost(p1));
    let ghost p2 = p1 + one_if(detached, "(detached)"@);

    add_label(&mut out, info.worktree.bare, "(bare)", Ghost(p2));
    let ghost p3 = p2 + one_if(info.worktree.bare, "(bare)"@);

    let locked = label_with_reason("locked", text_of(&info.worktree.locked));
    add_label(&mut out, info.worktree.locked.is_some(), locked.as_str(), Ghost(p3));
    let ghost p4 = p3 + one_if(info.worktree.locked is Some, locked@);

    let prunable = label_with_reason("prunable", text_of(&info.worktree.prunable));
    add_label(&mut out, info.worktree.prunable.is_some(), prunable.as_str(), Ghost(p4));
    let ghost p5 = p4 + one_if(info.worktree.prunable is Some, prunable@);

    assert(p5 =~= state_labels(*info));
    out
}

/// The gap between two columns.
pub open spec fn gap() -> Cell {
    raw(seq![' ', ' '])
}

/// A column: its cell, then the gap.
pub open spec fn column(cell: Cell) -> Seq<Cell> {
    seq![cell, gap()]
}

/// The cells of an optional column: none where its width is zero.
pub open spec fn optional(width: usize, cells: Seq<Cell>) -> Seq<Cell> {
    if width > 0 {
        cells
    } else {
        Seq::empty()
    }
}

/// A column of the header: its label, dimmed, in the column's width.
pub open spec fn header_column(label: Seq<char>, width: usize) -> Seq<Cell> {
    column(styled(padded(label, width as nat), Style::spec_dimmed()))
}

/// The header line.
pub open spec fn header_cells(w: ColumnWidths) -> Seq<Cell> {
    header_column("Branch"@, w.branch) + optional(w.time, header_column("Age"@, w.time))
        + optional(w.ahead_behind, header_column("Cmts"@, w.ahead_behind)) + optional(
        w.branch_diff.total,
        header_column("Cmt +/-"@, w.branch_diff.total),
    ) + optional(w.working_diff.total, header_column("WT +/-"@, w.working_diff.total)) + optional(
        w.upstream,
        header_column("Remote"@, w.upstream),
    ) + column(styled("Commit  "@, Style::spec_dimmed())) + optional(
        w.message,
        header_column("Message"@, w.message),
    ) + optional(w.states, header_column("State"@, w.states)) + seq![
        styled("Path"@, Style::spec_dimmed()),
    ]
}

fn push_gap(line: &mut StyledLine)
    ensures
        final(line)@ == old(line)@.push(gap()),
{
    proof {
        reveal_strlit("  ");
        assert("  "@ =~= seq![' ', ' ']);
    }
    line.push_raw("  ");
}

fn push_column(line: &mut StyledLine, text: String, style: Option<Style>)
    ensures
        final(line)@ == old(line)@ + column(Cell { text: text@, style }),
{
    line.push(StyledString { text, style });
    push_gap(line);
    assert(line@ =~= old(line)@ + column(Cell { text: text@, style }));
}

fn push_header(line: &mut StyledLine, label: &str, width: usize, shown: bool)
    ensures
        final(line)@ == old(line)@ + if shown {
            header_column(label@, width)
        } else {
            Seq::empty()
        },
{
    if shown {
        push_column(line, pad_end(label, width), Some(Style::dimmed()));
    } else {
        assert(line@ =~= old(line)@ + Seq::<Cell>::empty());
    }
}

/// The header line of the table.
pub fn format_header_line(layout: &LayoutConfig) -> (line: StyledLine)
    ensures
        line@ == header_cells(layout.widths),
{
    let widths = &layout.widths;
    let mut line = StyledLine::new();
    push_header(&mut line, "Branch", widths.branch, true);
    push_header(&mut line, "Age", widths.time, widths.time > 0);
    push_header(&mut line, "Cmts", widths.ahead_behind, widths.ahead_behind > 0);
    push_header(&mut line, "Cmt +/-", widths.branch_diff.total, widths.branch_diff.total > 0);
    push_header(&mut line, "WT +/-", widths.working_diff.total, widths.working_diff.total > 0);
    push_header(&mut line, "Remote", widths.upstream, widths.upstream > 0);
    push_column(&mut line, String::from_str("Commit  "), Some(Style::dimmed()));
    push_header(&mut line, "Message", widths.message, widths.message > 0);
    push_header(&mut line, "State", widths.states, widths.states > 0);
    line.push_styled("Path", Style::dimmed());
    assert(line@ =~= header_cells(layout.widths));
    line
}

/// What is shown of a commit id: its first eight characters.
pub open spec fn short_head(head: Seq<char>) -> Seq<char> {
    head.take(if head.len() >= 8 {
        8
    } else {
        head.len() as int
    })
}

/// The highlight of a row: one style for the worktree at the current path,
/// another for the primary worktree, none for any other row.
pub open spec fn text_style(item: ListItem, current: Option<Seq<char>>) -> Option<Style> {
    match item {
        ListItem::Worktree(info) => if current == Some(info.worktree.path@) {
            Some(Style::spec_current())
        } else if info.is_primary {
            Some(Style::spec_primary())
        } else {
            None
        },
        ListItem::Branch(_) => None,
    }
}

/// The commits ahead and behind: `↑3 ↓2`.
pub open spec fn counts_text(ahead: nat, behind: nat) -> Seq<char> {
    seq!['↑'] + decimal(ahead) + seq![' ', '↓'] + decimal(behind)
}

/// The lines added and deleted, each number right-aligned in its digits:
/// `+200 -30`.
pub open spec fn diff_text(added: nat, deleted: nat, w: DiffWidths) -> Seq<char> {
    seq!['+'] + right_aligned(decimal(added), w.added_digits as nat) + seq![' ', '-']
        + right_aligned(decimal(deleted), w.deleted_digits as nat)
}

/// A column of line totals: nothing where its width is zero, spaces where
/// the totals are not shown or both zero, else the added lines in one style
/// and the deleted lines in another, filled up with spaces to the width of
/// the column.
pub open spec fn diff_cells(shown: bool, diff: (usize, usize), w: DiffWidths) -> Seq<Cell> {
    optional(
        w.total,
        (if shown && (diff.0 > 0 || diff.1 > 0) {
            let text = diff_text(diff.0 as nat, diff.1 as nat, w);
            StyledLine::padded_to(
                seq![
                    styled(text.take(1 + w.added_digits), Style::spec_addition()),
                    styled(text.skip(1 + w.added_digits), Style::spec_deletion()),
                ],
                w.total as nat,
            )
        } else {
            seq![raw(spaces(w.total as nat))]
        }).push(gap()),
    )
}

/// The segments of an upstream: the remote, then the commits ahead and
/// behind.
pub open spec fn upstream_segments(remote: Seq<char>, ahead: nat, behind: nat) -> Seq<Cell> {
    seq![
        styled(remote, Style::spec_dimmed()),
        raw(seq![' ']),
        styled(seq!['↑'] + decimal(ahead), Style::spec_addition()),
        raw(seq![' ']),
        styled(seq!['↓'] + decimal(behind), Style::spec_deletion()),
    ]
}

/// The column of the upstream.
pub open spec fn upstream_cells(upstream: UpstreamFacts, width: usize) -> Seq<Cell> {
    optional(
        width,
        (match upstream.remote {
            Some(remote) => StyledLine::padded_to(
                upstream_segments(remote, upstream.ahead, upstream.behind),
                width as nat,
            ),
            None => seq![raw(spaces(width as nat))],
        }).push(gap()),
    )
}

/// The column of the states: those of a worktree, or spaces.
pub open spec fn states_text(item: ListItem, width: usize) -> Seq<char> {
    match item {
        ListItem::Worktree(info) => if joined(state_labels(info)).len() > 0 {
            padded(joined(state_labels(info)), width as nat)
        } else {
            spaces(width as nat)
        },
        ListItem::Branch(_) => spaces(width as nat),
    }
}

/// The working-tree totals of a row: those of a worktree; a branch has
/// none.
pub open spec fn working_diff_of(item: ListItem) -> (usize, usize) {
    match item {
        ListItem::Worktree(info) => info.working_tree_diff,
        ListItem::Branch(_) => (0, 0),
    }
}

/// The cell of the path: the shortened path of a worktree, highlighted as
/// its branch is; a branch has none.
pub open spec fn path_cells(item: ListItem, prefix: Seq<char>, current: Option<Seq<char>>) -> Seq<
    Cell,
> {
    match item {
        ListItem::Worktree(info) => seq![
            Cell { text: shortened(info.worktree.path@, prefix), style: text_style(item, current) },
        ],
        ListItem::Branch(_) => Seq::empty(),
    }
}

/// The column of the branch: its name, highlighted as the row is.
pub open spec fn branch_column(item: ListItem, w: ColumnWidths, current: Option<Seq<char>>) -> Seq<
    Cell,
> {
    column(
        Cell {
            text: padded(item.spec_branch_name(), w.branch as nat),
            style: text_style(item, current),
        },
    )
}

/// The column of the age.
pub open spec fn age_column(age: Seq<char>, w: ColumnWidths) -> Seq<Cell> {
    optional(w.time, column(styled(padded(age, w.time as nat), Style::spec_dimmed())))
}

/// Whether the commits ahead and behind show: not for the primary
/// worktree, and not where both are zero.
pub open spec fn shows_counts(item: ListItem) -> bool {
    !item.spec_is_primary() && (item.spec_counts().ahead > 0 || item.spec_counts().behind > 0)
}

/// The column of the commits ahead and behind: the counts, dimmed, or
/// spaces.
pub open spec fn counts_column(item: ListItem, w: ColumnWidths) -> Seq<Cell> {
    optional(
        w.ahead_behind,
        column(
            if shows_counts(item) {
                styled(
                    padded(
                        counts_text(
                            item.spec_counts().ahead as nat,
                            item.spec_counts().behind as nat,
                        ),
                        w.ahead_behind as nat,
                    ),
                    Style::spec_dimmed(),
                )
            } else {
                raw(spaces(w.ahead_behind as nat))
            },
        ),
    )
}

/// The column of the commit id: its first eight characters, dimmed in every
/// row, and filled up to eight where the id is shorter.
pub open spec fn commit_column(item: ListItem) -> Seq<Cell> {
    column(styled(padded(short_head(item.spec_head()), 8), Style::spec_dimmed()))
}

/// The message as it shows: truncated to the layout's maximum.
pub open spec fn message_text(item: ListItem, layout: LayoutConfig) -> Seq<char> {
    truncated(item.spec_commit_details().commit_message@, layout.max_message_len as nat)
}

/// The column of the message.
pub open spec fn message_column(item: ListItem, layout: LayoutConfig) -> Seq<Cell> {
    optional(
        layout.widths.message,
        column(
            styled(
                padded(message_text(item, layout), layout.widths.message as nat),
                Style::spec_dimmed(),
            ),
        ),
    )
}

/// The column of the states.
pub open spec fn states_column(item: ListItem, w: ColumnWidths) -> Seq<Cell> {
    optional(w.states, column(raw(states_text(item, w.states))))
}

/// The columns of a row before its path.
pub open spec fn row_columns(
    item: ListItem,
    layout: LayoutConfig,
    current: Option<Seq<char>>,
    age: Seq<char>,
) -> Seq<Cell> {
    let w = layout.widths;
    branch_column(item, w, current) + age_column(age, w) + counts_column(item, w) + diff_cells(
        !item.spec_is_primary(),
        item.spec_branch_diff().diff,
        w.branch_diff,
    ) + diff_cells(item is Worktree, working_diff_of(item), w.working_diff) + upstream_cells(
        item.spec_upstream()@,
        w.upstream,
    ) + commit_column(item) + message_column(item, layout) + states_column(item, w)
}

/// The line of a row.
pub open spec fn row_cells(
    item: ListItem,
    layout: LayoutConfig,
    current: Option<Seq<char>>,
    age: Seq<char>,
) -> Seq<Cell> {
    row_columns(item, layout, current, age) + path_cells(item, layout.common_prefix@, current)
}

fn style_of(item: &ListItem, current: &Option<String>) -> (style: Option<Style>)
    ensures
        style == text_style(*item, crate::list::path_text(*current)),
{
    match item {
        ListItem::Worktree(info) => {
            let is_current = match current {
                Some(path) => *path == info.worktree.path,
                None => false,
            };
            if is_current {
                Some(Style::current())
            } else if info.is_primary {
                Some(Style::primary())
            } else {
                None
            }
        },
        ListItem::Branch(_) => None,
    }
}

fn push_optional_column(line: &mut StyledLine, width: usize, text: String, style: Option<Style>)
    ensures
        final(line)@ == old(line)@ + optional(width, column(Cell { text: text@, style })),
{
    if width > 0 {
        push_column(line, text, style);
    } else {
        assert(line@ =~= old(line)@ + Seq::<Cell>::empty());
    }
}

fn push_diff(line: &mut StyledLine, shown: bool, diff: (usize, usize), w: &DiffWidths)
    ensures
        final(line)@ == old(line)@ + diff_cells(shown, diff, *w),
{
    if w.total == 0 {
        assert(line@ =~= old(line)@ + Seq::<Cell>::empty());
        return ;
    }
    if shown && (diff.0 > 0 || diff.1 > 0) {
        let mut formatted = String::new();
        formatted.push('+');
        formatted.append(pad_start(decimal_string(diff.0).as_str(), w.added_digits).as_str());
        formatted.push(' ');
        formatted.push('-');
        formatted.append(pad_start(decimal_string(diff.1).as_str(), w.deleted_digits).as_str());
        proof {
            lemma_decimal_len(diff.0 as nat);
            assert(formatted@ =~= diff_text(diff.0 as nat, diff.1 as nat, *w));
        }
        // Split behind the digits of the added lines, before the space.
        let (added, deleted) = split_after(formatted.as_str(), w.added_digits);
        let mut cell = StyledLine::new();
        cell.push(StyledString { text: added, style: Some(Style::addition()) });
        cell.push(StyledString { text: deleted, style: Some(Style::deletion()) });
        proof {
            let text = diff_text(diff.0 as nat, diff.1 as nat, *w);
            assert(text.len() > w.added_digits);
            assert(cell@ =~= seq![
                styled(text.take(1 + w.added_digits), Style::spec_addition()),
                styled(text.skip(1 + w.added_digits), Style::spec_deletion()),
            ]);
        }
        cell.pad_to(w.total);
        line.append(cell);
    } else {
        line.push(StyledString { text: repeat_space(w.total), style: None });
    }
    push_gap(line);
    assert(line@ =~= old(line)@ + diff_cells(shown, diff, *w));
}

fn push_upstream(line: &mut StyledLine, upstream: &UpstreamStatus, width: usize)
    ensures
        final(line)@ == old(line)@ + upstream_cells(upstream@, width),
{
    if width == 0 {
        assert(line@ =~= old(line)@ + Seq::<Cell>::empty());
        return ;
    }
    match upstream.active() {
        Some((remote, ahead, behind)) => {
            let mut segment = StyledLine::new();
            segment.push_styled(remote, Style::dimmed());
            proof {
                reveal_strlit(" ");
                assert(" "@ =~= seq![' ']);
            }
            segment.push_raw(" ");
            let mut ahead_text = String::new();
            ahead_text.push('↑');
            push_decimal(&mut ahead_text, ahead);
            assert(ahead_text@ =~= seq!['↑'] + decimal(ahead as nat));
            segment.push(StyledString { text: ahead_text, style: Some(Style::addition()) });
            segment.push_raw(" ");
            let mut behind_text = String::new();
            behind_text.push('↓');
            push_decimal(&mut behind_text, behind);
            assert(behind_text@ =~= seq!['↓'] + decimal(behind as nat));
            segment.push(StyledString { text: behind_text, style: Some(Style::deletion()) });
            assert(segment@ =~= upstream_segments(remote@, ahead as nat, behind as nat));
            segment.pad_to(width);
            line.append(segment);
        },
        None => {
            line.push(StyledString { text: repeat_space(width), style: None });
        },
    }
    push_gap(line);
    assert(line@ =~= old(line)@ + upstream_cells(upstream@, width));
}

/// The age of a row's commit as seen at `now`, in words.
pub open spec fn age_of(item: ListItem, now: i64) -> Seq<char> {
    relative_time(item.spec_commit_timestamp() as int, now as int)
}

/// Render a list item (worktree or branch) as a line of the table. `now`
/// is the time at which the list is shown, in seconds since the epoch.
pub fn format_list_item_line(
    item: &ListItem,
    layout: &LayoutConfig,
    current_worktree_path: &Option<String>,
    now: i64,
) -> (line: StyledLine)
    ensures
        line@ == row_cells(
            *item,
            *layout,
            crate::list::path_text(*current_worktree_path),
            age_of(*item, now),
        ),
{
    format_item_line(item, layout, current_worktree_path, now)
}

/// The line of a row: each cell in the width of its column, the path last.
pub fn format_item_line(
    item: &ListItem,
    layout: &LayoutConfig,
    current_worktree_path: &Option<String>,
    now: i64,
) -> (line: StyledLine)
    ensures
        line@ == row_cells(
            *item,
            *layout,
            crate::list::path_text(*current_worktree_path),
            age_of(*item, now),
        ),
{
    let widths = &layout.widths;
    let ghost current = crate::list::path_text(*current_worktree_path);
    let text_style = style_of(item, current_worktree_path);
    let counts = item.counts();
    let mut line = StyledLine::new();

    push_column(&mut line, pad_end(item.branch_name(), widths.branch), text_style);
    let age = format_relative_time(item.commit_timestamp(), now);
    push_optional_column(
        &mut line,
        widths.time,
        pad_end(age.as_str(), widths.time),
        Some(Style::dimmed()),
    );

    if widths.ahead_behind > 0 {
        if !item.is_primary() && (counts.ahead > 0 || counts.behind > 0) {
            let mut text = String::new();
            text.push('↑');
            push_decimal(&mut text, counts.ahead);
            text.push(' ');
            text.push('↓');
            push_decimal(&mut text, counts.behind);
            assert(text@ =~= counts_text(counts.ahead as nat, counts.behind as nat));
            push_column(
                &mut line,
                pad_end(text.as_str(), widths.ahead_behind),
                Some(Style::dimmed()),
            );
        } else {
            push_column(&mut line, repeat_space(widths.ahead_behind), None);
        }
    }

    push_diff(&mut line, !item.is_primary(), item.branch_diff().diff, &widths.branch_diff);
    match item {
        ListItem::Worktree(info) => {
            push_diff(&mut line, true, info.working_tree_diff, &widths.working_diff);
        },
        ListItem::Branch(_) => {
            push_diff(&mut line, false, (0, 0), &widths.working_diff);
        },
    }
    push_upstream(&mut line, item.upstream(), widths.upstream);

    push_column(&mut line, pad_end(take_chars(item.head(), 8), 8), Some(Style::dimmed()));

    push_optional_column(
        &mut line,
        widths.message,
        pad_end(
            truncate_at_word_boundary(
                item.commit_details().commit_message.as_str(),
                layout.max_message_len,
            ).as_str(),
            widths.message,
        ),
        Some(Style::dimmed()),
    );

    if widths.states > 0 {
        let text = match item {
            ListItem::Worktree(info) => {
                let states = format_all_states(info);
                if !states.as_str().is_empty() {
                    pad_end(states.as_str(), widths.states)
                } else {
                    repeat_space(widths.states)
                }
            },
            ListItem::Branch(_) => repeat_space(widths.states),
        };
        push_column(&mut line, text, None);
    }
    let ghost columns = line@;
    assert(columns =~= row_columns(*item, *layout, current, age@));

    match item {
        ListItem::Worktree(info) => {
            let path = shorten_path(info.worktree.path.as_str(), layout.common_prefix.as_str());
            line.push(StyledString { text: path, style: text_style });
        },
        ListItem::Branch(_) => {},
    }
    assert(line@ =~= row_cells(*item, *layout, current, age@));
    line
}

/// The width that a column takes in a line: its own and the gap, or
/// nothing where it is left out.
pub open spec fn taken(width: usize) -> nat {
    if width > 0 {
        (width + 2) as nat
    } else {
        0
    }
}

impl ColumnWidths {
    /// The width of a line up to its path: the columns that are shown, each
    /// with its gap. The branch and the commit id are always shown.
    pub open spec fn table_width(self) -> nat {
        (self.branch + 2) as nat + taken(self.time) + taken(self.ahead_behind) + taken(
            self.branch_diff.total,
        ) + taken(self.working_diff.total) + taken(self.upstream) + 10 + taken(self.message)
            + taken(self.states)
    }

    /// Whether each label of the header fits into its column.
    pub open spec fn holds_header(self) -> bool {
        &&& self.branch >= 6
        &&& (self.time == 0 || self.time >= 3)
        &&& (self.ahead_behind == 0 || self.ahead_behind >= 4)
        &&& (self.branch_diff.total == 0 || self.branch_diff.total >= 7)
        &&& (self.working_diff.total == 0 || self.working_diff.total >= 6)
        &&& (self.upstream == 0 || self.upstream >= 6)
        &&& (self.message == 0 || self.message >= 7)
        &&& (self.states == 0 || self.states >= 5)
    }
}

impl DiffWidths {
    /// Whether the column is left out, or the totals are not shown, or they
    /// fit: each number into its digits, and the digits with their signs
    /// into the column.
    pub open spec fn holds(self, shown: bool, diff: (usize, usize)) -> bool {
        self.total > 0 && shown && (diff.0 > 0 || diff.1 > 0) ==> {
            &&& decimal(diff.0 as nat).len() <= self.added_digits
            &&& decimal(diff.1 as nat).len() <= self.deleted_digits
            &&& self.added_digits + self.deleted_digits + 3 <= self.total
        }
    }
}

impl LayoutConfig {
    /// Whether each cell of the row fits into its column.
    pub open spec fn holds_row(self, item: ListItem, age: Seq<char>) -> bool {
        let w = self.widths;
        let upstream = item.spec_upstream()@;
        &&& item.spec_branch_name().len() <= w.branch
        &&& (w.time > 0 ==> age.len() <= w.time)
        &&& (w.ahead_behind > 0 && shows_counts(item) ==> counts_text(
            item.spec_counts().ahead as nat,
            item.spec_counts().behind as nat,
        ).len() <= w.ahead_behind)
        &&& w.branch_diff.holds(!item.spec_is_primary(), item.spec_branch_diff().diff)
        &&& w.working_diff.holds(item is Worktree, working_diff_of(item))
        &&& (w.upstream > 0 ==> (upstream.remote matches Some(remote) ==> cells_width(
            upstream_segments(remote, upstream.ahead, upstream.behind),
        ) <= w.upstream))
        &&& (w.message > 0 ==> message_text(item, self).len() <= w.message)
        &&& (w.states > 0 ==> (item matches ListItem::Worktree(info) ==> joined(
            state_labels(info),
        ).len() <= w.states))
    }
}

/// The width of a run of segments with one more.
proof fn lemma_width_push(cells: Seq<Cell>, c: Cell)
    ensures
        cells_width(cells.push(c)) == cells_width(cells) + c.text.len(),
{
    assert(cells.push(c).drop_last() =~= cells);
    assert(cells.push(c).last() == c);
}

/// A column is as wide as its cell and the gap.
proof fn lemma_column_width(cell: Cell)
    ensures
        cells_width(column(cell)) == cell.text.len() + 2,
{
    lemma_width_of_one(cell);
    lemma_width_push(seq![cell], gap());
    assert(column(cell) =~= seq![cell].push(gap()));
}

/// An optional column whose cell is as wide as the column takes the column
/// and the gap, or nothing.
proof fn lemma_optional_width(width: usize, cell: Cell)
    requires
        width > 0 ==> cell.text.len() == width,
    ensures
        cells_width(optional(width, column(cell))) == taken(width),
{
    if width > 0 {
        lemma_column_width(cell);
    } else {
        assert(cells_width(Seq::<Cell>::empty()) == 0);
    }
}

/// A column of the header whose label fits is as wide as the column and
/// the gap.
proof fn lemma_header_column_width(label: Seq<char>, width: usize)
    requires
        label.len() <= width,
    ensures
        cells_width(header_column(label, width)) == width + 2,
        cells_width(optional(width, header_column(label, width))) == taken(width),
{
    lemma_column_width(styled(padded(label, width as nat), Style::spec_dimmed()));
    assert(cells_width(Seq::<Cell>::empty()) == 0);
}

/// A column of line totals that fit is as wide as the column and the gap, or
/// is left out.
proof fn lemma_diff_width(shown: bool, diff: (usize, usize), w: DiffWidths)
    requires
        w.holds(shown, diff),
    ensures
        cells_width(diff_cells(shown, diff, w)) == taken(w.total),
{
    if w.total > 0 {
        if shown && (diff.0 > 0 || diff.1 > 0) {
            let text = diff_text(diff.0 as nat, diff.1 as nat, w);
            let a = styled(text.take(1 + w.added_digits), Style::spec_addition());
            let b = styled(text.skip(1 + w.added_digits), Style::spec_deletion());
            lemma_width_of_one(a);
            lemma_width_push(seq![a], b);
            assert(seq![a, b] =~= seq![a].push(b));
            assert(text.len() == w.added_digits + w.deleted_digits + 3);
            assert(cells_width(seq![a, b]) == text.len());
            let filled = StyledLine::padded_to(seq![a, b], w.total as nat);
            if text.len() < w.total {
                lemma_width_push(seq![a, b], raw(spaces((w.total - text.len()) as nat)));
            }
            assert(cells_width(filled) == w.total);
            lemma_width_push(filled, gap());
        } else {
            let c = raw(spaces(w.total as nat));
            lemma_width_of_one(c);
            lemma_width_push(seq![c], gap());
        }
    } else {
        assert(cells_width(Seq::<Cell>::empty()) == 0);
    }
}

/// The column of an upstream that fits is as wide as the column and the
/// gap, or is left out.
proof fn lemma_upstream_width(upstream: UpstreamFacts, width: usize)
    requires
        width > 0 ==> (upstream.remote matches Some(remote) ==> cells_width(
            upstream_segments(remote, upstream.ahead, upstream.behind),
        ) <= width),
    ensures
        cells_width(upstream_cells(upstream, width)) == taken(width),
{
    if width > 0 {
        match upstream.remote {
            Some(remote) => {
                let segments = upstream_segments(remote, upstream.ahead, upstream.behind);
                let filled = StyledLine::padded_to(segments, width as nat);
                if cells_width(segments) < width {
                    lemma_width_push(segments, raw(spaces((width - cells_width(segments)) as nat)));
                }
                assert(cells_width(filled) == width);
                lemma_width_push(filled, gap());
            },
            None => {
                let c = raw(spaces(width as nat));
                lemma_width_of_one(c);
                lemma_width_push(seq![c], gap());
            },
        }
    } else {
        assert(cells_width(Seq::<Cell>::empty()) == 0);
    }
}

/// The width of nine runs of segments is the sum of their widths.
proof fn lemma_width_of_nine(
    c1: Seq<Cell>,
    c2: Seq<Cell>,
    c3: Seq<Cell>,
    c4: Seq<Cell>,
    c5: Seq<Cell>,
    c6: Seq<Cell>,
    c7: Seq<Cell>,
    c8: Seq<Cell>,
    c9: Seq<Cell>,
)
    ensures
        cells_width(c1 + c2 + c3 + c4 + c5 + c6 + c7 + c8 + c9) == cells_width(c1) + cells_width(
            c2,
        ) + cells_width(c3) + cells_width(c4) + cells_width(c5) + cells_width(c6) + cells_width(c7)
            + cells_width(c8) + cells_width(c9),
{
    lemma_width_of_parts(c1, c2);
    lemma_width_of_parts(c1 + c2, c3);
    lemma_width_of_parts(c1 + c2 + c3, c4);
    lemma_width_of_parts(c1 + c2 + c3 + c4, c5);
    lemma_width_of_parts(c1 + c2 + c3 + c4 + c5, c6);
    lemma_width_of_parts(c1 + c2 + c3 + c4 + c5 + c6, c7);
    lemma_width_of_parts(c1 + c2 + c3 + c4 + c5 + c6 + c7, c8);
    lemma_width_of_parts(c1 + c2 + c3 + c4 + c5 + c6 + c7 + c8, c9);
}

/// The header is as wide as the table and the label of the path.
proof fn lemma_header_width(w: ColumnWidths)
    requires
        w.holds_header(),
    ensures
        cells_width(header_cells(w)) == w.table_width() + 4,
{
    reveal_strlit("Branch");
    reveal_strlit("Age");
    reveal_strlit("Cmts");
    reveal_strlit("Cmt +/-");
    reveal_strlit("WT +/-");
    reveal_strlit("Remote");
    reveal_strlit("Commit  ");
    reveal_strlit("Message");
    reveal_strlit("State");
    reveal_strlit("Path");
    let c1 = header_column("Branch"@, w.branch);
    let c2 = optional(w.time, header_column("Age"@, w.time));
    let c3 = optional(w.ahead_behind, header_column("Cmts"@, w.ahead_behind));
    let c4 = optional(w.branch_diff.total, header_column("Cmt +/-"@, w.branch_diff.total));
    let c5 = optional(w.working_diff.total, header_column("WT +/-"@, w.working_diff.total));
    let c6 = optional(w.upstream, header_column("Remote"@, w.upstream));
    let c7 = column(styled("Commit  "@, Style::spec_dimmed()));
    let c8 = optional(w.message, header_column("Message"@, w.message));
    let c9 = optional(w.states, header_column("State"@, w.states));
    let c10 = seq![styled("Path"@, Style::spec_dimmed())];
    assert(cells_width(c1) == w.branch + 2) by {
        lemma_header_column_width("Branch"@, w.branch);
    }
    assert(cells_width(c2) == taken(w.time)) by {
        assert(cells_width(Seq::<Cell>::empty()) == 0);
        if w.time > 0 {
            lemma_header_column_width("Age"@, w.time);
        }
    }
    assert(cells_width(c3) == taken(w.ahead_behind)) by {
        assert(cells_width(Seq::<Cell>::empty()) == 0);
        if w.ahead_behind > 0 {
            lemma_header_column_width("Cmts"@, w.ahead_behind);
        }
    }
    assert(cells_width(c4) == taken(w.branch_diff.total)) by {
        assert(cells_width(Seq::<Cell>::empty()) == 0);
        if w.branch_diff.total > 0 {
            lemma_header_column_width("Cmt +/-"@, w.branch_diff.total);
        }
    }
    assert(cells_width(c5) == taken(w.working_diff.total)) by {
        assert(cells_width(Seq::<Cell>::empty()) == 0);
        if w.working_diff.total > 0 {
            lemma_header_column_width("WT +/-"@, w.working_diff.total);
        }
    }
    assert(cells_width(c6) == taken(w.upstream)) by {
        assert(cells_width(Seq::<Cell>::empty()) == 0);
        if w.upstream > 0 {
            lemma_header_column_width("Remote"@, w.upstream);
        }
    }
    assert(cells_width(c7) == 10) by {
        lemma_column_width(styled("Commit  "@, Style::spec_dimmed()));
    }
    assert(cells_width(c8) == taken(w.message)) by {
        assert(cells_width(Seq::<Cell>::empty()) == 0);
        if w.message > 0 {
            lemma_header_column_width("Message"@, w.message);
        }
    }
    assert(cells_width(c9) == taken(w.states)) by {
        assert(cells_width(Seq::<Cell>::empty()) == 0);
        if w.states > 0 {
            lemma_header_column_width("State"@, w.states);
        }
    }
    assert(cells_width(c10) == 4) by {
        lemma_width_of_one(styled("Path"@, Style::spec_dimmed()));
    }
    lemma_width_of_nine(c1, c2, c3, c4, c5, c6, c7, c8, c9);
    lemma_width_of_parts(c1 + c2 + c3 + c4 + c5 + c6 + c7 + c8 + c9, c10);
}

/// The columns of a row whose cells fit are as wide as the table.
proof fn lemma_row_width(
    item: ListItem,
    layout: LayoutConfig,
    current: Option<Seq<char>>,
    age: Seq<char>,
)
    requires
        layout.holds_row(item, age),
    ensures
        cells_width(row_columns(item, layout, current, age)) == layout.widths.table_width(),
{
    let w = layout.widths;
    let c1 = branch_column(item, w, current);
    let c2 = age_column(age, w);
    let c3 = counts_column(item, w);
    let c4 = diff_cells(!item.spec_is_primary(), item.spec_branch_diff().diff, w.branch_diff);
    let c5 = diff_cells(item is Worktree, working_diff_of(item), w.working_diff);
    let c6 = upstream_cells(item.spec_upstream()@, w.upstream);
    let c7 = commit_column(item);
    let c8 = message_column(item, layout);
    let c9 = states_column(item, w);
    assert(cells_width(c1) == w.branch + 2) by {
        lemma_column_width(
            Cell {
                text: padded(item.spec_branch_name(), w.branch as nat),
                style: text_style(item, current),
            },
        );
    }
    assert(cells_width(c2) == taken(w.time)) by {
        lemma_optional_width(w.time, styled(padded(age, w.time as nat), Style::spec_dimmed()));
    }
    assert(cells_width(c3) == taken(w.ahead_behind)) by {
        lemma_optional_width(
            w.ahead_behind,
            if shows_counts(item) {
                styled(
                    padded(
                        counts_text(
                            item.spec_counts().ahead as nat,
                            item.spec_counts().behind as nat,
                        ),
                        w.ahead_behind as nat,
                    ),
                    Style::spec_dimmed(),
                )
            } else {
                raw(spaces(w.ahead_behind as nat))
            },
        );
    }
    assert(cells_width(c4) == taken(w.branch_diff.total)) by {
        lemma_diff_width(!item.spec_is_primary(), item.spec_branch_diff().diff, w.branch_diff);
    }
    assert(cells_width(c5) == taken(w.working_diff.total)) by {
        lemma_diff_width(item is Worktree, working_diff_of(item), w.working_diff);
    }
    assert(cells_width(c6) == taken(w.upstream)) by {
        lemma_upstream_width(item.spec_upstream()@, w.upstream);
    }
    assert(cells_width(c7) == 10) by {
        lemma_column_width(styled(padded(short_head(item.spec_head()), 8), Style::spec_dimmed()));
    }
    assert(cells_width(c8) == taken(w.message)) by {
        lemma_optional_width(
            w.message,
            styled(padded(message_text(item, layout), w.message as nat), Style::spec_dimmed()),
        );
    }
    assert(cells_width(c9) == taken(w.states)) by {
        lemma_optional_width(w.states, raw(states_text(item, w.states)));
    }
    lemma_width_of_nine(c1, c2, c3, c4, c5, c6, c7, c8, c9);
}

/// Header and rows align. Where each label of the header and each cell of
/// a row fits into its column, the header without the label of the path and
/// the row without its path are equally wide, whichever of the optional
/// columns are shown.
pub proof fn lemma_header_and_row_align(
    item: ListItem,
    layout: LayoutConfig,
    current: Option<Seq<char>>,
    age: Seq<char>,
)
    requires
        layout.widths.holds_header(),
        layout.holds_row(item, age),
    ensures
        cells_width(header_cells(layout.widths)) - 4 == cells_width(
            row_cells(item, layout, current, age),
        ) - cells_width(path_cells(item, layout.common_prefix@, current)),
        cells_width(row_columns(item, layout, current, age)) == layout.widths.table_width(),
{
    lemma_header_width(layout.widths);
    lemma_row_width(item, layout, current, age);
    lemma_width_of_parts(
        row_columns(item, layout, current, age),
        path_cells(item, layout.common_prefix@, current),
    );
}

} // verus!
