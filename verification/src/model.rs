//! The records of the list: worktrees, branches without a worktree, and the
//! metadata gathered for each.

use vstd::prelude::*;
use crate::symbols::StatusSymbols;

verus! {

/// A working copy as the repository enumerates it.
#[derive(Debug)]
pub struct Worktree {
    pub path: String,
    pub head: String,
    /// `None` when the head is detached.
    pub branch: Option<String>,
    pub bare: bool,
    pub detached: bool,
    /// The reason given when the worktree was locked; empty if none was.
    pub locked: Option<String>,
    /// Why the worktree can be pruned; empty if no reason is known.
    pub prunable: Option<String>,
}

/// A copy of an optional text.
pub fn clone_text(t: &Option<String>) -> (c: Option<String>)
    ensures
        c == *t,
{
    match t {
        Some(s) => Some(s.clone()),
        None => None,
    }
}

impl Clone for Worktree {
    fn clone(&self) -> (c: Worktree)
        ensures
            c == *self,
    {
        Worktree {
            path: self.path.clone(),
            head: self.head.clone(),
            branch: clone_text(&self.branch),
            bare: self.bare,
            detached: self.detached,
            locked: clone_text(&self.locked),
            prunable: clone_text(&self.prunable),
        }
    }
}

/// The verdict of a CI or pull-request provider, carried through unread.
#[derive(Debug)]
pub struct PrStatus {
    pub state: String,
}

impl Clone for PrStatus {
    fn clone(&self) -> (c: PrStatus)
        ensures
            c == *self,
    {
        PrStatus { state: self.state.clone() }
    }
}

/// Pre-formatted cells for the pretty machine-readable output.
#[derive(Debug)]
pub struct DisplayFields {
    pub commits_display: Option<String>,
    pub branch_diff_display: Option<String>,
    pub upstream_display: Option<String>,
    pub ci_status_display: Option<String>,
}

impl Default for DisplayFields {
    fn default() -> (d: DisplayFields)
        ensures
            d.commits_display is None,
            d.branch_diff_display is None,
            d.upstream_display is None,
            d.ci_status_display is None,
    {
        DisplayFields {
            commits_display: None,
            branch_diff_display: None,
            upstream_display: None,
            ci_status_display: None,
        }
    }
}

/// The head commit: when it was made, in seconds since the epoch, and what
/// it says.
#[derive(Debug)]
pub struct CommitDetails {
    pub timestamp: i64,
    pub commit_message: String,
}

impl Clone for CommitDetails {
    fn clone(&self) -> (c: CommitDetails)
        ensures
            c == *self,
    {
        CommitDetails { timestamp: self.timestamp, commit_message: self.commit_message.clone() }
    }
}

/// Commit counts relative to a base reference.
#[derive(Debug, Clone, Copy, PartialEq, Eq, Structural)]
pub struct AheadBehind {
    pub ahead: usize,
    pub behind: usize,
}

impl Default for AheadBehind {
    fn default() -> (c: AheadBehind)
        ensures
            c.ahead == 0,
            c.behind == 0,
    {
        AheadBehind { ahead: 0, behind: 0 }
    }
}

/// Lines added and deleted between a base reference and a head.
#[derive(Debug, Clone, Copy)]
pub struct BranchDiffTotals {
    pub diff: (usize, usize),
}

impl Default for BranchDiffTotals {
    fn default() -> (d: BranchDiffTotals)
        ensures
            d.diff == (0usize, 0usize),
    {
        BranchDiffTotals { diff: (0, 0) }
    }
}

/// The remote that a branch tracks, and the commit counts against it.
#[derive(Debug)]
pub struct UpstreamStatus {
    remote: Option<String>,
    ahead: usize,
    behind: usize,
}

/// An upstream status as mathematical values.
pub struct UpstreamFacts {
    pub remote: Option<Seq<char>>,
    pub ahead: nat,
    pub behind: nat,
}

impl View for UpstreamStatus {
    type V = UpstreamFacts;

    closed spec fn view(&self) -> UpstreamFacts {
        UpstreamFacts {
            remote: match self.remote {
                Some(r) => Some(r@),
                None => None,
            },
            ahead: self.ahead as nat,
            behind: self.behind as nat,
        }
    }
}

impl UpstreamFacts {
    /// No remote is tracked.
    pub open spec fn none() -> UpstreamFacts {
        UpstreamFacts { remote: None, ahead: 0, behind: 0 }
    }

    /// The counts that show in the symbols: those against the remote, or
    /// zero where none is tracked.
    pub open spec fn shown_counts(self) -> (nat, nat) {
        if self.remote is Some {
            (self.ahead, self.behind)
        } else {
            (0, 0)
        }
    }
}

impl Default for UpstreamStatus {
    fn default() -> (u: UpstreamStatus)
        ensures
            u@ == UpstreamFacts::none(),
    {
        UpstreamStatus { remote: None, ahead: 0, behind: 0 }
    }
}

impl Clone for UpstreamStatus {
    fn clone(&self) -> (c: UpstreamStatus)
        ensures
            c@ == self@,
    {
        UpstreamStatus { remote: clone_text(&self.remote), ahead: self.ahead, behind: self.behind }
    }
}

impl UpstreamStatus {
    /// The remote's name with the counts against it, when a remote is
    /// tracked.
    pub fn active(&self) -> (r: Option<(&str, usize, usize)>)
        ensures
            match r {
                Some((remote, ahead, behind)) => self@.remote == Some(remote@) && ahead
                    == self@.ahead && behind == self@.behind,
                None => self@.remote is None,
            },
    {
        match &self.remote {
            Some(remote) => Some((remote.as_str(), self.ahead, self.behind)),
            None => None,
        }
    }

    /// An upstream status from its parts.
    pub fn from_parts(remote: Option<String>, ahead: usize, behind: usize) -> (u: UpstreamStatus)
        ensures
            u@.remote == match remote {
                Some(r) => Some(r@),
                None => None,
            },
            u@.ahead == ahead,
            u@.behind == behind,
    {
        UpstreamStatus { remote, ahead, behind }
    }
}

/// A live working copy with everything gathered for it.
#[derive(Debug)]
pub struct WorktreeInfo {
    pub worktree: Worktree,
    pub commit: CommitDetails,
    pub counts: AheadBehind,
    pub working_tree_diff: (usize, usize),
    /// Diff between working tree and the primary branch. `None` means that
    /// it was not computed, `Some((0, 0))` that the two are identical.
    pub working_tree_diff_with_main: Option<(usize, usize)>,
    pub branch_diff: BranchDiffTotals,
    pub is_primary: bool,
    pub upstream: UpstreamStatus,
    pub worktree_state: Option<String>,
    pub pr_status: Option<PrStatus>,
    pub has_conflicts: bool,
    pub status_symbols: StatusSymbols,
    pub user_status: Option<String>,
    pub display: DisplayFields,
    pub working_diff_display: Option<String>,
}

/// A branch that no worktree has checked out.
#[derive(Debug)]
pub struct BranchInfo {
    pub name: String,
    pub head: String,
    pub commit: CommitDetails,
    pub counts: AheadBehind,
    pub branch_diff: BranchDiffTotals,
    pub upstream: UpstreamStatus,
    pub pr_status: Option<PrStatus>,
    pub has_conflicts: bool,
    pub user_status: Option<String>,
    pub display: DisplayFields,
}

/// The text of an optional status: empty where there is none.
pub open spec fn text_or_empty(t: Option<String>) -> Seq<char> {
    match t {
        Some(s) => s@,
        None => Seq::empty(),
    }
}

impl WorktreeInfo {
    /// The status cell: the rendered symbols followed by the user's status.
    pub open spec fn spec_combined_status(&self) -> Seq<char> {
        self.status_symbols@.rendered() + text_or_empty(self.user_status)
    }

    /// Combine git status symbols and user-defined status.
    pub fn combined_status(&self) -> (out: String)
        ensures
            out@ == self.spec_combined_status(),
            self.status_symbols@.is_empty() && self.user_status is None ==> out@.len() == 0,
    {
        proof {
            crate::symbols::lemma_rendered_length(self.status_symbols@);
        }
        if !self.status_symbols.is_empty() {
            let mut rendered = self.status_symbols.render();
            match &self.user_status {
                Some(user_status) => {
                    rendered.append(user_status.as_str());
                    rendered
                },
                None => {
                    assert(rendered@ =~= self.spec_combined_status());
                    rendered
                },
            }
        } else {
            assert(self.status_symbols@.rendered() =~= Seq::<char>::empty());
            match &self.user_status {
                Some(user_status) => {
                    assert(user_status@ =~= self.spec_combined_status());
                    user_status.clone()
                },
                None => {
                    assert(self.spec_combined_status() =~= Seq::<char>::empty());
                    String::new()
                },
            }
        }
    }
}

impl BranchInfo {
    /// The user's status, or a middle dot for "branch without worktree".
    pub open spec fn spec_combined_status(&self) -> Seq<char> {
        match self.user_status {
            Some(s) => s@,
            None => seq!['·'],
        }
    }

    /// The user's status, or a middle dot.
    pub fn combined_status(&self) -> (out: String)
        ensures
            out@ == self.spec_combined_status(),
    {
        match &self.user_status {
            Some(s) => s.clone(),
            None => {
                let mut dot = String::new();
                dot.push('·');
                assert(dot@ =~= seq!['·']);
                dot
            },
        }
    }
}

/// One row of the list: a worktree, or a branch without one.
#[derive(Debug)]
pub enum ListItem {
    Worktree(WorktreeInfo),
    Branch(BranchInfo),
}

/// The gathered rows and the worktree that the process stands in.
#[derive(Debug)]
pub struct ListData {
    pub items: Vec<ListItem>,
    pub current_worktree_path: Option<String>,
}

impl ListItem {
    /// The name of the branch; `(detached)` for a worktree without one.
    pub open spec fn spec_branch_name(&self) -> Seq<char> {
        match self {
            ListItem::Worktree(wt) => match wt.worktree.branch {
                Some(b) => b@,
                None => "(detached)"@,
            },
            ListItem::Branch(br) => br.name@,
        }
    }

    /// Whether this is the primary worktree.
    pub open spec fn spec_is_primary(&self) -> bool {
        self matches ListItem::Worktree(wt) && wt.is_primary
    }

    /// The head commit.
    pub open spec fn spec_commit_details(&self) -> CommitDetails {
        match self {
            ListItem::Worktree(info) => info.commit,
            ListItem::Branch(info) => info.commit,
        }
    }

    /// When the head commit was made.
    pub open spec fn spec_commit_timestamp(&self) -> i64 {
        self.spec_commit_details().timestamp
    }

    /// The id of the head commit.
    pub open spec fn spec_head(&self) -> Seq<char> {
        match self {
            ListItem::Worktree(info) => info.worktree.head@,
            ListItem::Branch(info) => info.head@,
        }
    }

    /// The commits ahead of and behind the primary branch.
    pub open spec fn spec_counts(&self) -> AheadBehind {
        match self {
            ListItem::Worktree(info) => info.counts,
            ListItem::Branch(info) => info.counts,
        }
    }

    /// The lines added and deleted against the primary branch.
    pub open spec fn spec_branch_diff(&self) -> BranchDiffTotals {
        match self {
            ListItem::Worktree(info) => info.branch_diff,
            ListItem::Branch(info) => info.branch_diff,
        }
    }

    /// The upstream status.
    pub open spec fn spec_upstream(&self) -> UpstreamStatus {
        match self {
            ListItem::Worktree(info) => info.upstream,
            ListItem::Branch(info) => info.upstream,
        }
    }

    /// The CI or pull-request status, if one was found.
    pub open spec fn spec_pr_status(&self) -> Option<PrStatus> {
        match self {
            ListItem::Worktree(info) => info.pr_status,
            ListItem::Branch(info) => info.pr_status,
        }
    }

    /// The path of a worktree; a branch has none.
    pub open spec fn spec_worktree_path(&self) -> Option<Seq<char>> {
        match self {
            ListItem::Worktree(info) => Some(info.worktree.path@),
            ListItem::Branch(_) => None,
        }
    }

    pub open spec fn spec_combined_status(&self) -> Seq<char> {
        match self {
            ListItem::Worktree(info) => info.spec_combined_status(),
            ListItem::Branch(info) => info.spec_combined_status(),
        }
    }

    /// The name of the branch; `(detached)` for a worktree without one.
    pub fn branch_name(&self) -> (name: &str)
        ensures
            name@ == self.spec_branch_name(),
    {
        match self {
            ListItem::Worktree(wt) => match &wt.worktree.branch {
                Some(b) => b.as_str(),
                None => "(detached)",
            },
            ListItem::Branch(br) => br.name.as_str(),
        }
    }

    /// Whether this is the primary worktree.
    pub fn is_primary(&self) -> (b: bool)
        ensures
            b == self.spec_is_primary(),
    {
        match self {
            ListItem::Worktree(wt) => wt.is_primary,
            ListItem::Branch(_) => false,
        }
    }

    /// When the head commit was made, in seconds since the epoch.
    pub fn commit_timestamp(&self) -> (t: i64)
        ensures
            t == self.spec_commit_timestamp(),
    {
        match self {
            ListItem::Worktree(info) => info.commit.timestamp,
            ListItem::Branch(info) => info.commit.timestamp,
        }
    }

    /// The id of the head commit.
    pub fn head(&self) -> (h: &str)
        ensures
            h@ == self.spec_head(),
    {
        match self {
            ListItem::Worktree(info) => info.worktree.head.as_str(),
            ListItem::Branch(info) => info.head.as_str(),
        }
    }

    /// The head commit.
    pub fn commit_details(&self) -> (c: &CommitDetails)
        ensures
            *c == self.spec_commit_details(),
    {
        match self {
            ListItem::Worktree(info) => &info.commit,
            ListItem::Branch(info) => &info.commit,
        }
    }

    /// The commits ahead of and behind the primary branch.
    pub fn counts(&self) -> (c: &AheadBehind)
        ensures
            *c == self.spec_counts(),
    {
        match self {
            ListItem::Worktree(info) => &info.counts,
            ListItem::Branch(info) => &info.counts,
        }
    }

    /// The lines added and deleted against the primary branch.
    pub fn branch_diff(&self) -> (d: &BranchDiffTotals)
        ensures
            *d == self.spec_branch_diff(),
    {
        match self {
            ListItem::Worktree(info) => &info.branch_diff,
            ListItem::Branch(info) => &info.branch_diff,
        }
    }

    /// The upstream status.
    pub fn upstream(&self) -> (u: &UpstreamStatus)
        ensures
            *u == self.spec_upstream(),
    {
        match self {
            ListItem::Worktree(info) => &info.upstream,
            ListItem::Branch(info) => &info.upstream,
        }
    }

    /// The worktree record, where this row is a worktree.
    pub fn worktree_info(&self) -> (w: Option<&WorktreeInfo>)
        ensures
            match w {
                Some(info) => *self == ListItem::Worktree(*info),
                None => self is Branch,
            },
    {
        match self {
            ListItem::Worktree(info) => Some(info),
            ListItem::Branch(_) => None,
        }
    }

    /// The path of a worktree; a branch has none.
    pub fn worktree_path(&self) -> (p: Option<&String>)
        ensures
            match p {
                Some(path) => self.spec_worktree_path() == Some(path@),
                None => self.spec_worktree_path() is None,
            },
    {
        match self {
            ListItem::Worktree(info) => Some(&info.worktree.path),
            ListItem::Branch(_) => None,
        }
    }

    /// The CI or pull-request status, if one was found.
    pub fn pr_status(&self) -> (s: Option<&PrStatus>)
        ensures
            match s {
                Some(status) => self.spec_pr_status() == Some(*status),
                None => self.spec_pr_status() is None,
            },
    {
        match self {
            ListItem::Worktree(info) => info.pr_status.as_ref(),
            ListItem::Branch(info) => info.pr_status.as_ref(),
        }
    }

    /// The status cell: for a worktree the symbols followed by the user's
    /// status, for a branch the user's status or a middle dot.
    pub fn combined_status(&self) -> (out: String)
        ensures
            out@ == self.spec_combined_status(),
            self matches ListItem::Branch(b) && b.user_status is None ==> out@ == seq!['·'],
            self matches ListItem::Worktree(w) && w.user_status is None
                && w.status_symbols@.is_empty() ==> out@ == Seq::<char>::empty(),
    {
        match self {
            ListItem::Worktree(info) => {
                let out = info.combined_status();
                assert(out@.len() == 0 ==> out@ =~= Seq::<char>::empty());
                out
            },
            ListItem::Branch(info) => info.combined_status(),
        }
    }
}

} // verus!
