//! Fixed-position status symbols.
//!
//! A worktree's state is compressed into four slots that always render at the
//! same columns, so that a column of rows can be scanned vertically:
//!
//! | slot | content |
//! |------|---------|
//! | prefix | conflict, state and attribute markers, in insertion order |
//! | main divergence | `↑`, `↓` or `↕` against the primary branch |
//! | upstream divergence | `⇡`, `⇣` or `⇅` against the tracked remote branch |
//! | working tree | `?`, `!`, `+`, `»`, `✘`, in that order |

use vstd::prelude::*;
use vstd::string::StringSliceAdditionalSpecFns;
use crate::text::{lemma_first_index, lines, strip_line_end};

verus! {

/// How one reference stands against another, from the two commit counts.
#[derive(Clone, Copy, Debug, PartialEq, Eq, Structural)]
pub enum Divergence {
    /// Neither ahead nor behind.
    Level,
    /// Ahead only.
    Ahead,
    /// Behind only.
    Behind,
    /// Both ahead and behind.
    Diverged,
}

impl Divergence {
    /// The divergence that two commit counts amount to.
    pub open spec fn of(ahead: nat, behind: nat) -> Divergence {
        if ahead > 0 && behind > 0 {
            Divergence::Diverged
        } else if ahead > 0 {
            Divergence::Ahead
        } else if behind > 0 {
            Divergence::Behind
        } else {
            Divergence::Level
        }
    }

    /// The text of the slot that shows divergence from the primary branch.
    pub open spec fn main_text(self) -> Seq<char> {
        match self {
            Divergence::Level => Seq::empty(),
            Divergence::Ahead => seq!['↑'],
            Divergence::Behind => seq!['↓'],
            Divergence::Diverged => seq!['↕'],
        }
    }

    /// The text of the slot that shows divergence from the upstream branch.
    pub open spec fn upstream_text(self) -> Seq<char> {
        match self {
            Divergence::Level => Seq::empty(),
            Divergence::Ahead => seq!['⇡'],
            Divergence::Behind => seq!['⇣'],
            Divergence::Diverged => seq!['⇅'],
        }
    }

    /// The divergence that two commit counts amount to.
    pub fn from_counts(ahead: usize, behind: usize) -> (d: Divergence)
        ensures
            d == Divergence::of(ahead as nat, behind as nat),
    {
        if ahead > 0 && behind > 0 {
            Divergence::Diverged
        } else if ahead > 0 {
            Divergence::Ahead
        } else if behind > 0 {
            Divergence::Behind
        } else {
            Divergence::Level
        }
    }

    /// The marker shown against the primary branch, if any.
    pub fn main_symbol(self) -> (c: Option<char>)
        ensures
            match c {
                Some(c) => self.main_text() == seq![c],
                None => self.main_text() == Seq::<char>::empty(),
            },
    {
        match self {
            Divergence::Level => None,
            Divergence::Ahead => Some('↑'),
            Divergence::Behind => Some('↓'),
            Divergence::Diverged => Some('↕'),
        }
    }

    /// The marker shown against the upstream branch, if any.
    pub fn upstream_symbol(self) -> (c: Option<char>)
        ensures
            match c {
                Some(c) => self.upstream_text() == seq![c],
                None => self.upstream_text() == Seq::<char>::empty(),
            },
    {
        match self {
            Divergence::Level => None,
            Divergence::Ahead => Some('⇡'),
            Divergence::Behind => Some('⇣'),
            Divergence::Diverged => Some('⇅'),
        }
    }
}

/// A divergence slot holds nothing or exactly one of its three markers, so
/// "ahead" and "behind" never show together in one slot.
pub proof fn lemma_divergence_exclusive(d: Divergence)
    ensures
        d.main_text() == Seq::<char>::empty() || d.main_text() == seq!['↑'] || d.main_text()
            == seq!['↓'] || d.main_text() == seq!['↕'],
        d.upstream_text() == Seq::<char>::empty() || d.upstream_text() == seq!['⇡']
            || d.upstream_text() == seq!['⇣'] || d.upstream_text() == seq!['⇅'],
        !(d.main_text().contains('↑') && d.main_text().contains('↓')),
        !(d.upstream_text().contains('⇡') && d.upstream_text().contains('⇣')),
        d.main_text().len() <= 1,
        d.upstream_text().len() <= 1,
{
    match d {
        Divergence::Level => {},
        Divergence::Ahead => {
            assert(seq!['↑'][0] == '↑');
            assert(seq!['⇡'][0] == '⇡');
        },
        Divergence::Behind => {
            assert(seq!['↓'][0] == '↓');
            assert(seq!['⇣'][0] == '⇣');
        },
        Divergence::Diverged => {
            assert(seq!['↕'][0] == '↕');
            assert(seq!['⇅'][0] == '⇅');
        },
    }
}

/// The four slots of a symbol set, as mathematical values.
pub struct SymbolSlots {
    pub prefix: Seq<char>,
    pub main_divergence: Divergence,
    pub upstream_divergence: Divergence,
    pub working_tree: Seq<char>,
}

/// A slot as it shows when a later slot has content: itself, or one space.
pub open spec fn slot_or_space(slot: Seq<char>) -> Seq<char> {
    if slot.len() == 0 {
        seq![' ']
    } else {
        slot
    }
}

impl SymbolSlots {
    /// The text of the slot for the primary branch.
    pub open spec fn main_text(self) -> Seq<char> {
        self.main_divergence.main_text()
    }

    /// The text of the slot for the upstream branch.
    pub open spec fn upstream_text(self) -> Seq<char> {
        self.upstream_divergence.upstream_text()
    }

    /// Whether every slot is empty.
    pub open spec fn is_empty(self) -> bool {
        &&& self.prefix.len() == 0
        &&& self.main_divergence == Divergence::Level
        &&& self.upstream_divergence == Divergence::Level
        &&& self.working_tree.len() == 0
    }

    /// The number of the last slot with content, counting from one; zero
    /// when all are empty.
    pub open spec fn last_filled(self) -> nat {
        if self.working_tree.len() > 0 {
            4
        } else if self.upstream_text().len() > 0 {
            3
        } else if self.main_text().len() > 0 {
            2
        } else if self.prefix.len() > 0 {
            1
        } else {
            0
        }
    }

    /// What slot number `k` contributes to the rendering: nothing when it
    /// lies behind the last slot with content, else itself or a placeholder.
    pub open spec fn shown(self, k: nat, slot: Seq<char>) -> Seq<char> {
        if k > self.last_filled() {
            Seq::empty()
        } else {
            slot_or_space(slot)
        }
    }

    /// The aligned rendering of the four slots.
    pub open spec fn rendered(self) -> Seq<char> {
        self.shown(1, self.prefix) + self.shown(2, self.main_text()) + self.shown(
            3,
            self.upstream_text(),
        ) + self.shown(4, self.working_tree)
    }

    /// The number of slots with content.
    pub open spec fn filled_slots(self) -> nat {
        (if self.prefix.len() > 0 { 1nat } else { 0nat })
        + (if self.main_text().len() > 0 { 1nat } else { 0nat })
        + (if self.upstream_text().len() > 0 { 1nat } else { 0nat })
        + (if self.working_tree.len() > 0 { 1nat } else { 0nat })
    }
}

/// The rendering of a symbol set is as long as its slots with content plus one
/// placeholder for each empty slot before the last slot with content. So it
/// is empty exactly when every slot is empty, it never ends in a placeholder,
/// and it is at least as long as the number of slots with content.
pub proof fn lemma_rendered_length(s: SymbolSlots)
    ensures
        s.rendered().len() == s.prefix.len() + s.main_text().len() + s.upstream_text().len()
            + s.working_tree.len() + (s.last_filled() - s.filled_slots()),
        s.filled_slots() <= s.last_filled() <= s.rendered().len(),
        s.is_empty() <==> s.rendered().len() == 0,
        s.is_empty() <==> s.last_filled() == 0,
        s.last_filled() == 4 ==> s.rendered().last() == s.working_tree.last(),
        s.last_filled() == 3 ==> s.rendered().last() == s.upstream_text().last(),
        s.last_filled() == 2 ==> s.rendered().last() == s.main_text().last(),
        s.last_filled() == 1 ==> s.rendered() == s.prefix,
{
    lemma_divergence_exclusive(s.main_divergence);
    lemma_divergence_exclusive(s.upstream_divergence);
}

/// A later slot with content fixes the column of every slot after the
/// prefix: with a one-character prefix, the working-tree slot starts at the
/// fourth column whatever the divergence slots hold.
pub proof fn lemma_rendered_columns(s: SymbolSlots)
    requires
        s.working_tree.len() > 0,
    ensures
        s.rendered() == slot_or_space(s.prefix) + slot_or_space(s.main_text()) + slot_or_space(
            s.upstream_text(),
        ) + s.working_tree,
        slot_or_space(s.main_text()).len() == 1,
        slot_or_space(s.upstream_text()).len() == 1,
{
    lemma_divergence_exclusive(s.main_divergence);
    lemma_divergence_exclusive(s.upstream_divergence);
}

/// Structured status symbols for aligned rendering.
#[derive(Debug)]
pub struct StatusSymbols {
    prefix: String,
    main_divergence: Divergence,
    upstream_divergence: Divergence,
    working_tree: String,
}

impl View for StatusSymbols {
    type V = SymbolSlots;

    closed spec fn view(&self) -> SymbolSlots {
        SymbolSlots {
            prefix: self.prefix@,
            main_divergence: self.main_divergence,
            upstream_divergence: self.upstream_divergence,
            working_tree: self.working_tree@,
        }
    }
}

impl Clone for StatusSymbols {
    fn clone(&self) -> (s: StatusSymbols)
        ensures
            s@ == self@,
    {
        StatusSymbols {
            prefix: self.prefix.clone(),
            main_divergence: self.main_divergence,
            upstream_divergence: self.upstream_divergence,
            working_tree: self.working_tree.clone(),
        }
    }
}

impl Default for StatusSymbols {
    fn default() -> (s: StatusSymbols)
        ensures
            s@.is_empty(),
            s@.prefix == Seq::<char>::empty(),
            s@.working_tree == Seq::<char>::empty(),
    {
        StatusSymbols {
            prefix: String::new(),
            main_divergence: Divergence::Level,
            upstream_divergence: Divergence::Level,
            working_tree: String::new(),
        }
    }
}

impl StatusSymbols {
    /// Render symbols with full alignment: every slot before the last one
    /// with content takes at least one column.
    pub fn render(&self) -> (out: String)
        ensures
            out@ == self@.rendered(),
    {
        let mut result = String::new();
        let has_prefix = !self.prefix.as_str().is_empty();
        let main = self.main_divergence.main_symbol();
        let upstream = self.upstream_divergence.upstream_symbol();
        let has_working_tree = !self.working_tree.as_str().is_empty();
        let has_any_content = has_prefix || main.is_some() || upstream.is_some()
            || has_working_tree;
        if !has_any_content {
            assert(self@.rendered() =~= Seq::<char>::empty());
            return result;
        }
        if has_prefix {
            result.append(self.prefix.as_str());
        } else {
            result.push(' ');
        }
        match main {
            Some(c) => {
                result.push(c);
            },
            None => {
                if upstream.is_some() || has_working_tree {
                    result.push(' ');
                }
            },
        }
        match upstream {
            Some(c) => {
                result.push(c);
            },
            None => {
                if has_working_tree {
                    result.push(' ');
                }
            },
        }
        result.append(self.working_tree.as_str());
        assert(result@ =~= self@.rendered());
        result
    }

    /// Check if symbols are empty.
    pub fn is_empty(&self) -> (b: bool)
        ensures
            b == self@.is_empty(),
    {
        self.prefix.as_str().is_empty() && self.main_divergence == Divergence::Level
            && self.upstream_divergence == Divergence::Level
            && self.working_tree.as_str().is_empty()
    }

    /// A symbol set with the given slots.
    pub fn new(
        prefix: String,
        main_divergence: Divergence,
        upstream_divergence: Divergence,
        working_tree: String,
    ) -> (s: StatusSymbols)
        ensures
            s@ == (SymbolSlots {
                prefix: prefix@,
                main_divergence,
                upstream_divergence,
                working_tree: working_tree@,
            }),
    {
        StatusSymbols { prefix, main_divergence, upstream_divergence, working_tree }
    }

    /// The prefix slot.
    pub fn prefix(&self) -> (p: &str)
        ensures
            p@ == self@.prefix,
    {
        self.prefix.as_str()
    }

    /// The divergence from the primary branch.
    pub fn main_divergence(&self) -> (d: Divergence)
        ensures
            d == self@.main_divergence,
    {
        self.main_divergence
    }

    /// The divergence from the upstream branch.
    pub fn upstream_divergence(&self) -> (d: Divergence)
        ensures
            d == self@.upstream_divergence,
    {
        self.upstream_divergence
    }

    /// The working-tree slot.
    pub fn working_tree(&self) -> (w: &str)
        ensures
            w@ == self@.working_tree,
    {
        self.working_tree.as_str()
    }
}

/// What one line of a status report can say about the working tree.
pub enum Change {
    /// The line names a path at all.
    Any,
    /// An unmerged path: either side `U`, or both deleted, or both added.
    Unmerged,
    Untracked,
    /// Modified in the working tree, not staged.
    Modified,
    /// Added, modified or copied in the index.
    Staged,
    /// Renamed in the index.
    Renamed,
    /// Deleted on either side.
    Deleted,
}

impl Change {
    /// Whether a line with index code `x` and working-tree code `y` reports
    /// this kind of change.
    pub open spec fn matches_codes(self, x: u8, y: u8) -> bool {
        match self {
            Change::Any => true,
            Change::Unmerged => x == 0x55 || y == 0x55 || (x == 0x44 && y == 0x44) || (x == 0x41
                && y == 0x41),
            Change::Untracked => x == 0x3f && y == 0x3f,
            Change::Modified => y == 0x4d,
            Change::Staged => x == 0x41 || x == 0x4d || x == 0x43,
            Change::Renamed => x == 0x52,
            Change::Deleted => x == 0x44 || y == 0x44,
        }
    }

    /// Whether some line of at least two bytes reports this kind of change.
    pub open spec fn seen_in(self, report: Seq<Seq<u8>>) -> bool {
        exists|i: int|
            0 <= i < report.len() && (#[trigger] report[i]).len() >= 2 && self.matches_codes(
                report[i][0],
                report[i][1],
            )
    }
}

/// The marker `c` if `present`, else nothing.
pub open spec fn marker_if(present: bool, c: char) -> Seq<char> {
    if present {
        seq![c]
    } else {
        Seq::empty()
    }
}

/// The symbols that a status report and the four divergence counts give.
pub open spec fn parsed_slots(
    report: Seq<Seq<u8>>,
    main_ahead: nat,
    main_behind: nat,
    upstream_ahead: nat,
    upstream_behind: nat,
) -> SymbolSlots {
    SymbolSlots {
        prefix: marker_if(Change::Unmerged.seen_in(report), '='),
        main_divergence: Divergence::of(main_ahead, main_behind),
        upstream_divergence: Divergence::of(upstream_ahead, upstream_behind),
        working_tree: marker_if(Change::Untracked.seen_in(report), '?') + marker_if(
            Change::Modified.seen_in(report),
            '!',
        ) + marker_if(Change::Staged.seen_in(report), '+') + marker_if(
            Change::Renamed.seen_in(report),
            '»',
        ) + marker_if(Change::Deleted.seen_in(report), '✘'),
    }
}

/// What one status report says: whether the working tree has any change, and
/// the symbols for it.
pub struct GitStatusInfo {
    pub is_dirty: bool,
    pub symbols: StatusSymbols,
}

/// Append the marker `c` if it is present.
pub fn push_if(s: &mut String, present: bool, c: char)
    ensures
        final(s)@ == old(s)@ + marker_if(present, c),
{
    if present {
        s.push(c);
    }
    assert(s@ =~= old(s)@ + marker_if(present, c));
}

/// Parse a porcelain status report, one path per line with a two-byte code
/// in front, into the dirty flag and the status symbols. One scan serves
/// both.
pub fn parse_git_status(
    status_output: &str,
    main_ahead: usize,
    main_behind: usize,
    upstream_ahead: usize,
    upstream_behind: usize,
) -> (info: GitStatusInfo)
    ensures
        info.is_dirty == Change::Any.seen_in(lines(status_output.spec_bytes())),
        info.symbols@ == parsed_slots(
            lines(status_output.spec_bytes()),
            main_ahead as nat,
            main_behind as nat,
            upstream_ahead as nat,
            upstream_behind as nat,
        ),
{
    let bytes = status_output.as_bytes();
    let n = bytes.len();
    let mut has_conflicts = false;
    let mut has_untracked = false;
    let mut has_modified = false;
    let mut has_staged = false;
    let mut has_renamed = false;
    let mut has_deleted = false;
    let mut is_dirty = false;
    let ghost mut done: Seq<Seq<u8>> = Seq::empty();
    let mut pos: usize = 0;
    proof {
        assert(bytes@.skip(0) =~= bytes@);
        assert(done + lines(bytes@) =~= lines(bytes@));
    }
    while pos < n
        invariant
            n == bytes@.len(),
            pos <= n,
            lines(bytes@) == done + lines(bytes@.skip(pos as int)),
            is_dirty == Change::Any.seen_in(done),
            has_conflicts == Change::Unmerged.seen_in(done),
            has_untracked == Change::Untracked.seen_in(done),
            has_modified == Change::Modified.seen_in(done),
            has_staged == Change::Staged.seen_in(done),
            has_renamed == Change::Renamed.seen_in(done),
            has_deleted == Change::Deleted.seen_in(done),
        decreases n - pos,
    {
        let mut end: usize = pos;
        while end < n && bytes[end] != 0x0a
            invariant
                n == bytes@.len(),
                pos <= end <= n,
                forall|k: int| pos <= k < end ==> bytes@[k] != 0x0a,
            decreases n - end,
        {
            end += 1;
        }
        let ghost rest = bytes@.skip(pos as int);
        proof {
            lemma_first_index(rest, 0x0au8, end - pos);
        }
        let terminated = end < n;
        let mut stop: usize = end;
        if terminated && stop > pos && bytes[stop - 1] == 0x0d {
            stop -= 1;
        }
        let ghost line = bytes@.subrange(pos as int, stop as int);
        proof {
            let raw = rest.take(end - pos);
            assert(raw =~= bytes@.subrange(pos as int, end as int));
            if terminated {
                assert(strip_line_end(raw) =~= line);
                assert(rest.skip(end - pos + 1) =~= bytes@.skip(end + 1));
                assert(lines(rest) == seq![line] + lines(bytes@.skip(end + 1)));
            } else {
                assert(raw =~= rest);
                assert(line =~= rest);
                assert(bytes@.skip(n as int) =~= Seq::<u8>::empty());
                assert(lines(bytes@.skip(n as int)) =~= Seq::<Seq<u8>>::empty());
                assert(lines(rest) =~= seq![line] + lines(bytes@.skip(n as int)));
            }
        }
        let ghost before = done;
        proof {
            done = done.push(line);
            assert forall|c: Change| #[trigger]
                c.seen_in(done) == (c.seen_in(before) || (line.len() >= 2 && c.matches_codes(
                    line[0],
                    line[1],
                ))) by {
                if c.seen_in(before) {
                    let i = choose|i: int|
                        0 <= i < before.len() && (#[trigger] before[i]).len() >= 2
                            && c.matches_codes(before[i][0], before[i][1]);
                    assert(done[i] == before[i]);
                }
                if line.len() >= 2 && c.matches_codes(line[0], line[1]) {
                    assert(done[before.len() as int] == line);
                }
                if c.seen_in(done) {
                    let i = choose|i: int|
                        0 <= i < done.len() && (#[trigger] done[i]).len() >= 2 && c.matches_codes(
                            done[i][0],
                            done[i][1],
                        );
                    if i < before.len() {
                        assert(before[i] == done[i]);
                    }
                }
            }
        }
        if stop - pos >= 2 {
            is_dirty = true;
            let index_status = bytes[pos];
            let worktree_status = bytes[pos + 1];
            assert(index_status == line[0] && worktree_status == line[1]);
            if index_status == 0x55 || worktree_status == 0x55 || (index_status == 0x44
                && worktree_status == 0x44) || (index_status == 0x41 && worktree_status == 0x41) {
                has_conflicts = true;
            }
            if index_status == 0x3f && worktree_status == 0x3f {
                has_untracked = true;
            }
            if worktree_status == 0x4d {
                has_modified = true;
            }
            if index_status == 0x41 || index_status == 0x4d || index_status == 0x43 {
                has_staged = true;
            }
            if index_status == 0x52 {
                has_renamed = true;
            }
            if index_status == 0x44 || worktree_status == 0x44 {
                has_deleted = true;
            }
        }
        if terminated {
            pos = end + 1;
        } else {
            pos = n;
        }
        proof {
            assert(lines(bytes@) =~= done + lines(bytes@.skip(pos as int)));
        }
    }
    proof {
        assert(bytes@.skip(pos as int) =~= Seq::<u8>::empty());
        assert(lines(bytes@) =~= done);
    }
    let mut prefix = String::new();
    push_if(&mut prefix, has_conflicts, '=');
    let mut working_tree = String::new();
    push_if(&mut working_tree, has_untracked, '?');
    push_if(&mut working_tree, has_modified, '!');
    push_if(&mut working_tree, has_staged, '+');
    push_if(&mut working_tree, has_renamed, '»');
    push_if(&mut working_tree, has_deleted, '✘');
    let symbols = StatusSymbols {
        prefix,
        main_divergence: Divergence::from_counts(main_ahead, main_behind),
        upstream_divergence: Divergence::from_counts(upstream_ahead, upstream_behind),
        working_tree,
    };
    proof {
        let want = parsed_slots(
            lines(bytes@),
            main_ahead as nat,
            main_behind as nat,
            upstream_ahead as nat,
            upstream_behind as nat,
        );
        assert(symbols@.prefix =~= want.prefix);
        assert(symbols@.working_tree =~= want.working_tree);
    }
    GitStatusInfo { is_dirty, symbols }
}

} // verus!
