//! From gathered facts to finished records.
//!
//! Everything here is a pure function of the facts: defaults for what was
//! not asked, the three-state diff against the primary branch, the remote's
//! name, the user's status, and the markers that join the parsed status
//! symbols.

use vstd::prelude::*;
use crate::gather::{read_branch_keyed_status, status_value, Facts, Gatherer, Subject};
use crate::model::{
    clone_text,
    AheadBehind,
    BranchDiffTotals,
    BranchInfo,
    CommitDetails,
    DisplayFields,
    UpstreamFacts,
    UpstreamStatus,
    Worktree,
    WorktreeInfo,
};
use crate::symbols::{
    marker_if,
    parse_git_status,
    parsed_slots,
    push_if,
    Change,
    StatusSymbols,
    SymbolSlots,
};
use crate::text::{chars_of, contains_char, contains_text, first_index, has_substring, lemma_first_index};

verus! {

/// The remote of an upstream branch: what stands before its first slash, or
/// `origin` if it has none.
pub open spec fn remote_of(upstream_branch: Seq<char>) -> Seq<char> {
    let at = first_index(upstream_branch, '/');
    if 0 <= at < upstream_branch.len() {
        upstream_branch.take(at)
    } else {
        "origin"@
    }
}

/// The name of the remote that an upstream branch lives on.
pub fn remote_name(upstream_branch: &str) -> (remote: String)
    ensures
        remote@ == remote_of(upstream_branch@),
{
    let chars = chars_of(upstream_branch);
    let mut remote = String::new();
    let mut i: usize = 0;
    while i < chars.len()
        invariant
            i <= chars.len(),
            chars@ == upstream_branch@,
            remote@ == chars@.take(i as int),
            forall|k: int| 0 <= k < i ==> chars@[k] != '/',
        decreases chars.len() - i,
    {
        if chars[i] == '/' {
            proof {
                lemma_first_index(chars@, '/', i as int);
            }
            return remote;
        }
        remote.push(chars[i]);
        assert(remote@ =~= chars@.take(i + 1));
        i += 1;
    }
    proof {
        lemma_first_index(chars@, '/', i as int);
    }
    String::from_str("origin")
}

impl CommitDetails {
    /// The commit's details from the two answers; zero and the empty text
    /// stand in for an answer that is missing.
    pub fn gather(timestamp: Option<i64>, message: Option<String>) -> (commit: CommitDetails)
        ensures
            commit.timestamp == match timestamp {
                Some(t) => t,
                None => 0,
            },
            commit.commit_message@ == crate::model::text_or_empty(message),
    {
        CommitDetails {
            timestamp: match timestamp {
                Some(t) => t,
                None => 0,
            },
            commit_message: match message {
                Some(m) => m,
                None => String::new(),
            },
        }
    }
}

/// Two counts, or zero for both where none were taken.
pub open spec fn pair_or_zero(pair: Option<(usize, usize)>) -> (usize, usize) {
    match pair {
        Some(p) => p,
        None => (0, 0),
    }
}

impl AheadBehind {
    /// The counts against the base, or zero where there is no base.
    pub fn compute(counts: Option<(usize, usize)>) -> (c: AheadBehind)
        ensures
            c.ahead == pair_or_zero(counts).0,
            c.behind == pair_or_zero(counts).1,
    {
        match counts {
            Some((ahead, behind)) => AheadBehind { ahead, behind },
            None => AheadBehind::default(),
        }
    }
}

impl BranchDiffTotals {
    /// The line totals against the base, or zero where there is no base.
    pub fn compute(diff: Option<(usize, usize)>) -> (d: BranchDiffTotals)
        ensures
            d.diff == pair_or_zero(diff),
    {
        match diff {
            Some(diff) => BranchDiffTotals { diff },
            None => BranchDiffTotals::default(),
        }
    }
}

/// The upstream status that an upstream branch and the counts against it
/// give: none unless both are there.
pub open spec fn upstream_facts(
    upstream_branch: Option<String>,
    counts: Option<(usize, usize)>,
) -> UpstreamFacts {
    match (upstream_branch, counts) {
        (Some(u), Some((ahead, behind))) => UpstreamFacts {
            remote: Some(remote_of(u@)),
            ahead: ahead as nat,
            behind: behind as nat,
        },
        _ => UpstreamFacts::none(),
    }
}

impl UpstreamStatus {
    /// The upstream status, from the upstream branch and the counts against it.
    pub fn calculate(upstream_branch: &Option<String>, counts: Option<(usize, usize)>) -> (u:
        UpstreamStatus)
        ensures
            u@ == upstream_facts(*upstream_branch, counts),
    {
        match (upstream_branch, counts) {
            (Some(upstream), Some((ahead, behind))) => UpstreamStatus::from_parts(
                Some(remote_name(upstream.as_str())),
                ahead,
                behind,
            ),
            _ => UpstreamStatus::default(),
        }
    }
}

/// The diff of the working tree against the primary branch, in three
/// states. The primary worktree is identical to itself. Any other worktree
/// gets `None`, "not computed", when there is no base or its tree differs from
/// the base's; with the same tree it is identical when clean, and has the
/// computed diff when not.
pub open spec fn diff_with_main(
    is_primary: bool,
    has_base: bool,
    trees_match: bool,
    dirty: bool,
    computed: Option<(usize, usize)>,
) -> Option<(usize, usize)> {
    if is_primary {
        Some((0usize, 0usize))
    } else if !has_base || !trees_match {
        None
    } else if dirty {
        computed
    } else {
        Some((0usize, 0usize))
    }
}

/// The diff of the working tree against the primary branch, in its three
/// states.
pub fn working_tree_diff_with_main(
    is_primary: bool,
    has_base: bool,
    trees_match: bool,
    dirty: bool,
    computed: Option<(usize, usize)>,
) -> (diff: Option<(usize, usize)>)
    ensures
        diff == diff_with_main(is_primary, has_base, trees_match, dirty, computed),
{
    if is_primary {
        Some((0, 0))
    } else if !has_base || !trees_match {
        None
    } else if dirty {
        computed
    } else {
        Some((0, 0))
    }
}

/// The user's status: the worktree's own entry, else the entry keyed by its
/// branch.
pub open spec fn user_status_of(worktree_raw: Option<String>, branch_raw: Option<String>) -> Option<
    Seq<char>,
> {
    match status_value(worktree_raw) {
        Some(s) => Some(s),
        None => status_value(branch_raw),
    }
}

/// The user's status from the raw values of the two configuration entries,
/// as far as they could be read.
pub fn read_user_status(worktree_raw: &Option<String>, branch_raw: &Option<String>) -> (status:
    Option<String>)
    ensures
        match status {
            Some(s) => user_status_of(*worktree_raw, *branch_raw) == Some(s@),
            None => user_status_of(*worktree_raw, *branch_raw) is None,
        },
{
    match read_branch_keyed_status(worktree_raw) {
        Some(s) => Some(s),
        None => read_branch_keyed_status(branch_raw),
    }
}

/// What is known of a worktree beside its parsed status, as far as the
/// prefix markers depend on it.
pub struct StateMarks {
    /// Merging into the base would conflict.
    pub has_conflicts: bool,
    pub is_primary: bool,
    pub diff_with_main: Option<(usize, usize)>,
    pub ahead: usize,
    pub working_tree_diff: (usize, usize),
    /// The operation in progress.
    pub worktree_state: Option<String>,
    pub bare: bool,
    pub locked: bool,
    pub prunable: bool,
}

impl StateMarks {
    /// `≡` for a worktree identical to the primary branch; else `∅` for one
    /// with no commit ahead and a clean working tree; nothing for the primary
    /// worktree.
    pub open spec fn content_marker(&self) -> Seq<char> {
        if self.is_primary {
            Seq::empty()
        } else if self.diff_with_main == Some((0usize, 0usize)) {
            seq!['≡']
        } else if self.ahead == 0 && self.working_tree_diff == (0usize, 0usize) {
            seq!['∅']
        } else {
            Seq::empty()
        }
    }

    /// `↻` during a rebase, else `⋈` during a merge.
    pub open spec fn operation_marker(&self) -> Seq<char> {
        match self.worktree_state {
            Some(state) => if has_substring(state@, "rebase"@) {
                seq!['↻']
            } else if has_substring(state@, "merge"@) {
                seq!['⋈']
            } else {
                Seq::empty()
            },
            None => Seq::empty(),
        }
    }

    /// `◇` bare, `⊠` locked, `⚠` prunable.
    pub open spec fn attribute_markers(&self) -> Seq<char> {
        marker_if(self.bare, '◇') + marker_if(self.locked, '⊠') + marker_if(self.prunable, '⚠')
    }

    /// The symbols of a worktree: those parsed from its status report, with
    /// the prefix extended. A conflict marker comes first, and only once; the
    /// content, operation and attribute markers follow what was parsed.
    pub open spec fn composed(&self, parsed: SymbolSlots) -> SymbolSlots {
        SymbolSlots {
            prefix: marker_if(self.has_conflicts && !parsed.prefix.contains('='), '=')
                + parsed.prefix + self.content_marker() + self.operation_marker()
                + self.attribute_markers(),
            ..parsed
        }
    }
}

fn content_mark(marks: &StateMarks) -> (out: String)
    ensures
        out@ == marks.content_marker(),
{
    let mut out = String::new();
    if !marks.is_primary {
        let identical = match marks.diff_with_main {
            Some((added, deleted)) => added == 0 && deleted == 0,
            None => false,
        };
        if identical {
            out.push('≡');
        } else if marks.ahead == 0 && marks.working_tree_diff.0 == 0 && marks.working_tree_diff.1
            == 0 {
            out.push('∅');
        }
    }
    assert(out@ =~= marks.content_marker());
    out
}

fn operation_mark(marks: &StateMarks) -> (out: String)
    ensures
        out@ == marks.operation_marker(),
{
    let mut out = String::new();
    match &marks.worktree_state {
        Some(state) => {
            if contains_text(state.as_str(), "rebase") {
                out.push('↻');
            } else if contains_text(state.as_str(), "merge") {
                out.push('⋈');
            }
        },
        None => {},
    }
    assert(out@ =~= marks.operation_marker());
    out
}

fn attribute_marks(marks: &StateMarks) -> (out: String)
    ensures
        out@ == marks.attribute_markers(),
{
    let mut out = String::new();
    push_if(&mut out, marks.bare, '◇');
    push_if(&mut out, marks.locked, '⊠');
    push_if(&mut out, marks.prunable, '⚠');
    assert(out@ =~= marks.attribute_markers());
    out
}

/// Join the markers for a worktree's state to its parsed status symbols.
pub fn compose_symbols(parsed: &StatusSymbols, marks: &StateMarks) -> (symbols: StatusSymbols)
    ensures
        symbols@ == marks.composed(parsed@),
{
    let mut prefix = String::new();
    push_if(&mut prefix, marks.has_conflicts && !contains_char(parsed.prefix(), '='), '=');
    prefix.append(parsed.prefix());
    prefix.append(content_mark(marks).as_str());
    prefix.append(operation_mark(marks).as_str());
    prefix.append(attribute_marks(marks).as_str());
    StatusSymbols::new(
        prefix,
        parsed.main_divergence(),
        parsed.upstream_divergence(),
        String::from_str(parsed.working_tree()),
    )
}

impl Facts {
    /// The state of a worktree as far as its prefix markers depend on it.
    pub open spec fn state_marks(&self, wt: &Worktree, is_primary: bool, has_base: bool) -> StateMarks {
        StateMarks {
            has_conflicts: self.has_conflicts == Some(true),
            is_primary,
            diff_with_main: diff_with_main(
                is_primary,
                has_base,
                self.trees_match(),
                self.is_dirty(),
                self.diff_vs_base,
            ),
            ahead: pair_or_zero(self.counts).0,
            working_tree_diff: pair_or_zero(self.working_tree_diff),
            worktree_state: self.worktree_state,
            bare: wt.bare,
            locked: wt.locked is Some,
            prunable: wt.prunable is Some,
        }
    }

    /// The status symbols of a worktree, from its status report, its counts
    /// and its state.
    pub open spec fn worktree_slots(&self, wt: &Worktree, is_primary: bool, has_base: bool) -> SymbolSlots {
        let upstream = upstream_facts(self.upstream_branch, self.upstream_counts).shown_counts();
        self.state_marks(wt, is_primary, has_base).composed(
            parsed_slots(
                self.report(),
                pair_or_zero(self.counts).0 as nat,
                pair_or_zero(self.counts).1 as nat,
                upstream.0,
                upstream.1,
            ),
        )
    }
}

impl WorktreeInfo {
    /// The record of a worktree from the facts gathered for it. Only the
    /// answers to the questions that its gathering asks count: the record
    /// has the defaults wherever a step was not due.
    pub fn from_worktree(
        wt: &Worktree,
        primary: &Worktree,
        fetch_ci: bool,
        check_conflicts: bool,
        facts: Facts,
    ) -> (info: WorktreeInfo)
        ensures
            ({
                let f = Gatherer::worktree_subject(wt, primary, fetch_ci, check_conflicts).settled(
                    facts,
                );
                let has_base = wt.path@ != primary.path@ && primary.branch is Some;
                &&& info.worktree == *wt
                &&& info.is_primary == (wt.path@ == primary.path@)
                &&& info.commit.timestamp == match f.timestamp {
                    Some(t) => t,
                    None => 0,
                }
                &&& info.commit.commit_message@ == crate::model::text_or_empty(f.message)
                &&& info.counts.ahead == pair_or_zero(f.counts).0
                &&& info.counts.behind == pair_or_zero(f.counts).1
                &&& info.working_tree_diff == pair_or_zero(f.working_tree_diff)
                &&& info.working_tree_diff_with_main == diff_with_main(
                    info.is_primary,
                    has_base,
                    f.trees_match(),
                    f.is_dirty(),
                    f.diff_vs_base,
                )
                &&& info.branch_diff.diff == pair_or_zero(f.branch_diff)
                &&& info.upstream@ == upstream_facts(f.upstream_branch, f.upstream_counts)
                &&& info.worktree_state == f.worktree_state
                &&& info.pr_status == f.pr_status
                &&& info.has_conflicts == (f.has_conflicts == Some(true))
                &&& info.status_symbols@ == f.worktree_slots(wt, info.is_primary, has_base)
                &&& match info.user_status {
                    Some(s) => user_status_of(f.worktree_user_status, f.branch_user_status)
                        == Some(s@),
                    None => user_status_of(f.worktree_user_status, f.branch_user_status) is None,
                }
                &&& info.display.commits_display is None
                &&& info.display.branch_diff_display is None
                &&& info.display.upstream_display is None
                &&& info.display.ci_status_display is None
                &&& info.working_diff_display is None
            }),
    {
        let subject = Subject::for_worktree(wt, primary, fetch_ci, check_conflicts);
        let facts = subject.settle(facts);
        let is_primary = wt.path == primary.path;
        let has_base = !is_primary && primary.branch.is_some();
        let counts = AheadBehind::compute(facts.counts);
        let upstream = UpstreamStatus::calculate(&facts.upstream_branch, facts.upstream_counts);
        let (upstream_ahead, upstream_behind) = match upstream.active() {
            Some((_, ahead, behind)) => (ahead, behind),
            None => (0, 0),
        };
        let report = match &facts.status {
            Some(report) => report.as_str(),
            None => "",
        };
        let status_info = parse_git_status(
            report,
            counts.ahead,
            counts.behind,
            upstream_ahead,
            upstream_behind,
        );
        let dirty = status_info.is_dirty;
        let parsed = status_info.symbols;
        proof {
            reveal_strlit("");
            assert(vstd::utf8::encode_utf8(""@) =~= Seq::<u8>::empty()) by {
                reveal_with_fuel(vstd::utf8::encode_utf8, 1);
            }
        }
        let working_tree_diff = match facts.working_tree_diff {
            Some(diff) => diff,
            None => (0, 0),
        };
        let diff = working_tree_diff_with_main(
            is_primary,
            has_base,
            facts.same_trees(),
            dirty,
            facts.diff_vs_base,
        );
        let has_conflicts = match facts.has_conflicts {
            Some(b) => b,
            None => false,
        };
        let user_status = read_user_status(&facts.worktree_user_status, &facts.branch_user_status);
        let marks = StateMarks {
            has_conflicts,
            is_primary,
            diff_with_main: diff,
            ahead: counts.ahead,
            working_tree_diff,
            worktree_state: clone_text(&facts.worktree_state),
            bare: wt.bare,
            locked: wt.locked.is_some(),
            prunable: wt.prunable.is_some(),
        };
        let status_symbols = compose_symbols(&parsed, &marks);
        WorktreeInfo {
            worktree: wt.clone(),
            commit: CommitDetails::gather(facts.timestamp, facts.message),
            counts,
            working_tree_diff,
            working_tree_diff_with_main: diff,
            branch_diff: BranchDiffTotals::compute(facts.branch_diff),
            is_primary,
            upstream,
            worktree_state: facts.worktree_state,
            pr_status: facts.pr_status,
            has_conflicts,
            status_symbols,
            user_status,
            display: DisplayFields::default(),
            working_diff_display: None,
        }
    }
}

impl BranchInfo {
    /// The record of a branch without a worktree from the facts gathered
    /// for it. Only the answers to the questions that its gathering asks
    /// count: the record has the defaults wherever a step was not due.
    pub fn from_branch(
        branch: String,
        primary_branch: Option<String>,
        fetch_ci: bool,
        check_conflicts: bool,
        facts: Facts,
    ) -> (info: BranchInfo)
        ensures
            ({
                let f = Gatherer::branch_subject(
                    branch,
                    primary_branch,
                    fetch_ci,
                    check_conflicts,
                ).settled(facts);
                &&& info.name == branch
                &&& info.head@ == match f.resolved_head {
                    Some(h) => crate::text::trimmed(h@),
                    None => Seq::empty(),
                }
                &&& info.commit.timestamp == match f.timestamp {
                    Some(t) => t,
                    None => 0,
                }
                &&& info.commit.commit_message@ == crate::model::text_or_empty(f.message)
                &&& info.counts.ahead == pair_or_zero(f.counts).0
                &&& info.counts.behind == pair_or_zero(f.counts).1
                &&& info.branch_diff.diff == pair_or_zero(f.branch_diff)
                &&& info.upstream@ == upstream_facts(f.upstream_branch, f.upstream_counts)
                &&& info.pr_status == f.pr_status
                &&& info.has_conflicts == (f.has_conflicts == Some(true))
                &&& match info.user_status {
                    Some(s) => status_value(f.branch_user_status) == Some(s@),
                    None => status_value(f.branch_user_status) is None,
                }
                &&& info.display.commits_display is None
                &&& info.display.branch_diff_display is None
                &&& info.display.upstream_display is None
                &&& info.display.ci_status_display is None
            }),
    {
        let subject = Subject::for_branch(branch.clone(), primary_branch, fetch_ci, check_conflicts);
        let facts = subject.settle(facts);
        let head = match &facts.resolved_head {
            Some(h) => h.as_str().trim().to_owned(),
            None => String::new(),
        };
        let upstream = UpstreamStatus::calculate(&facts.upstream_branch, facts.upstream_counts);
        let user_status = read_branch_keyed_status(&facts.branch_user_status);
        BranchInfo {
            name: branch,
            head,
            commit: CommitDetails::gather(facts.timestamp, facts.message),
            counts: AheadBehind::compute(facts.counts),
            branch_diff: BranchDiffTotals::compute(facts.branch_diff),
            upstream,
            pr_status: facts.pr_status,
            has_conflicts: match facts.has_conflicts {
                Some(b) => b,
                None => false,
            },
            user_status,
            display: DisplayFields::default(),
        }
    }
}

/// A text made of two parts holds a character exactly when one part does.
pub proof fn lemma_contains_in_parts(a: Seq<char>, b: Seq<char>, c: char)
    ensures
        (a + b).contains(c) <==> a.contains(c) || b.contains(c),
{
    if a.contains(c) {
        let i = choose|i: int| 0 <= i < a.len() && a[i] == c;
        assert((a + b)[i] == c);
    }
    if b.contains(c) {
        let i = choose|i: int| 0 <= i < b.len() && b[i] == c;
        assert((a + b)[a.len() + i] == c);
    }
    if (a + b).contains(c) {
        let i = choose|i: int| 0 <= i < (a + b).len() && (a + b)[i] == c;
        if i < a.len() {
            assert(a[i] == c);
        } else {
            assert(b[i - a.len()] == c);
        }
    }
}

/// A marker slot holds a character exactly when it is present and is that
/// marker.
pub proof fn lemma_marker_contains(present: bool, marker: char, c: char)
    ensures
        marker_if(present, marker).contains(c) <==> present && marker == c,
{
    if present {
        assert(marker_if(present, marker)[0] == marker);
    }
}

/// Which of the two content markers a composed prefix holds, given that the
/// parsed prefix holds neither: `≡` exactly for a worktree other than the
/// primary one whose diff against the primary branch is zero, and `∅`
/// exactly for one that is not identical, has no commit ahead and a clean
/// working tree.
pub proof fn lemma_content_markers(marks: StateMarks, parsed: SymbolSlots)
    requires
        !parsed.prefix.contains('≡'),
        !parsed.prefix.contains('∅'),
    ensures
        marks.composed(parsed).prefix.contains('≡') <==> !marks.is_primary && marks.diff_with_main
            == Some((0usize, 0usize)),
        marks.composed(parsed).prefix.contains('∅') <==> !marks.is_primary && marks.diff_with_main
            != Some((0usize, 0usize)) && marks.ahead == 0 && marks.working_tree_diff == (
            0usize,
            0usize,
        ),
{
    lemma_outside_content(marks, parsed, '≡');
    lemma_outside_content(marks, parsed, '∅');
    let identical = !marks.is_primary && marks.diff_with_main == Some((0usize, 0usize));
    let unchanged = !marks.is_primary && !identical && marks.ahead == 0 && marks.working_tree_diff
        == (0usize, 0usize);
    assert(marks.content_marker() == marker_if(identical, '≡') + marker_if(unchanged, '∅')) by {
        assert(marks.content_marker() =~= marker_if(identical, '≡') + marker_if(unchanged, '∅'));
    }
    lemma_contains_in_parts(marker_if(identical, '≡'), marker_if(unchanged, '∅'), '≡');
    lemma_contains_in_parts(marker_if(identical, '≡'), marker_if(unchanged, '∅'), '∅');
    lemma_marker_contains(identical, '≡', '≡');
    lemma_marker_contains(identical, '≡', '∅');
    lemma_marker_contains(unchanged, '∅', '≡');
    lemma_marker_contains(unchanged, '∅', '∅');
}

/// A content marker stands in a composed prefix only where the parsed prefix
/// or the content marker holds it: no other marker is one of the two.
proof fn lemma_outside_content(marks: StateMarks, parsed: SymbolSlots, c: char)
    requires
        c == '≡' || c == '∅',
    ensures
        marks.composed(parsed).prefix.contains(c) <==> parsed.prefix.contains(c)
            || marks.content_marker().contains(c),
{
    let with_conflict = marks.has_conflicts && !parsed.prefix.contains('=');
    let conflict = marker_if(with_conflict, '=');
    let content = marks.content_marker();
    let operation = marks.operation_marker();
    let attributes = marks.attribute_markers();
    let bare = marker_if(marks.bare, '◇');
    let locked = marker_if(marks.locked, '⊠');
    let prunable = marker_if(marks.prunable, '⚠');
    let rebasing = marks.worktree_state matches Some(state) && has_substring(state@, "rebase"@);
    let merging = marks.worktree_state matches Some(state) && !has_substring(state@, "rebase"@)
        && has_substring(state@, "merge"@);
    assert(operation =~= marker_if(rebasing, '↻') + marker_if(merging, '⋈'));
    lemma_contains_in_parts(marker_if(rebasing, '↻'), marker_if(merging, '⋈'), c);
    lemma_marker_contains(rebasing, '↻', c);
    lemma_marker_contains(merging, '⋈', c);
    lemma_marker_contains(with_conflict, '=', c);
    lemma_marker_contains(marks.bare, '◇', c);
    lemma_marker_contains(marks.locked, '⊠', c);
    lemma_marker_contains(marks.prunable, '⚠', c);
    lemma_contains_in_parts(bare, locked, c);
    lemma_contains_in_parts(bare + locked, prunable, c);
    lemma_contains_in_parts(conflict, parsed.prefix, c);
    lemma_contains_in_parts(conflict + parsed.prefix, content, c);
    lemma_contains_in_parts(conflict + parsed.prefix + content, operation, c);
    lemma_contains_in_parts(conflict + parsed.prefix + content + operation, attributes, c);
}

/// The markers that follow the parsed prefix hold no conflict marker.
proof fn lemma_state_markers_without_conflict(marks: StateMarks)
    ensures
        !(marks.content_marker() + marks.operation_marker() + marks.attribute_markers()).contains(
            '=',
        ),
{
    let content = marks.content_marker();
    let operation = marks.operation_marker();
    let attributes = marks.attribute_markers();
    let bare = marker_if(marks.bare, '◇');
    let locked = marker_if(marks.locked, '⊠');
    let prunable = marker_if(marks.prunable, '⚠');
    let identical = !marks.is_primary && marks.diff_with_main == Some((0usize, 0usize));
    let unchanged = !marks.is_primary && !identical && marks.ahead == 0 && marks.working_tree_diff
        == (0usize, 0usize);
    let rebasing = marks.worktree_state matches Some(state) && has_substring(state@, "rebase"@);
    let merging = marks.worktree_state matches Some(state) && !has_substring(state@, "rebase"@)
        && has_substring(state@, "merge"@);
    assert(content =~= marker_if(identical, '≡') + marker_if(unchanged, '∅'));
    assert(operation =~= marker_if(rebasing, '↻') + marker_if(merging, '⋈'));
    lemma_marker_contains(identical, '≡', '=');
    lemma_marker_contains(unchanged, '∅', '=');
    lemma_marker_contains(rebasing, '↻', '=');
    lemma_marker_contains(merging, '⋈', '=');
    lemma_marker_contains(marks.bare, '◇', '=');
    lemma_marker_contains(marks.locked, '⊠', '=');
    lemma_marker_contains(marks.prunable, '⚠', '=');
    lemma_contains_in_parts(marker_if(identical, '≡'), marker_if(unchanged, '∅'), '=');
    lemma_contains_in_parts(marker_if(rebasing, '↻'), marker_if(merging, '⋈'), '=');
    lemma_contains_in_parts(bare, locked, '=');
    lemma_contains_in_parts(bare + locked, prunable, '=');
    lemma_contains_in_parts(content, operation, '=');
    lemma_contains_in_parts(content + operation, attributes, '=');
}

/// The conflict marker of a worktree: its prefix holds `=` exactly when the
/// status report names an unmerged path or merging into the base would
/// conflict; the marker then stands first, and only once.
pub proof fn lemma_conflict_marker_first(
    marks: StateMarks,
    report: Seq<Seq<u8>>,
    main_ahead: nat,
    main_behind: nat,
    upstream_ahead: nat,
    upstream_behind: nat,
)
    ensures
        ({
            let prefix = marks.composed(
                parsed_slots(report, main_ahead, main_behind, upstream_ahead, upstream_behind),
            ).prefix;
            &&& prefix.contains('=') <==> marks.has_conflicts
                || Change::Unmerged.seen_in(report)
            &&& prefix.contains('=') ==> prefix[0] == '=' && !prefix.skip(1).contains('=')
        }),
{
    let parsed = parsed_slots(report, main_ahead, main_behind, upstream_ahead, upstream_behind);
    let unmerged = Change::Unmerged.seen_in(report);
    let prefix = marks.composed(parsed).prefix;
    let rest = marks.content_marker() + marks.operation_marker() + marks.attribute_markers();
    let shown = marks.has_conflicts || unmerged;
    lemma_marker_contains(unmerged, '=', '=');
    lemma_state_markers_without_conflict(marks);
    assert(prefix =~= marker_if(shown, '=') + rest);
    lemma_contains_in_parts(marker_if(shown, '='), rest, '=');
    lemma_marker_contains(shown, '=', '=');
    if shown {
        assert(prefix.skip(1) =~= rest);
    }
}

/// Facts with a clean report and the same tree as the base give, for a
/// worktree other than the primary one with a base, a diff of zero against
/// the primary branch and a prefix that holds `≡` and not `∅`.
pub proof fn lemma_identical_facts(facts: Facts, wt: Worktree)
    requires
        !facts.is_dirty(),
        facts.trees_match(),
    ensures
        diff_with_main(false, true, facts.trees_match(), facts.is_dirty(), facts.diff_vs_base)
            == Some((0usize, 0usize)),
        facts.worktree_slots(&wt, false, true).prefix.contains('≡'),
        !facts.worktree_slots(&wt, false, true).prefix.contains('∅'),
{
    let upstream = upstream_facts(facts.upstream_branch, facts.upstream_counts).shown_counts();
    let parsed = parsed_slots(
        facts.report(),
        pair_or_zero(facts.counts).0 as nat,
        pair_or_zero(facts.counts).1 as nat,
        upstream.0,
        upstream.1,
    );
    lemma_marker_contains(Change::Unmerged.seen_in(facts.report()), '=', '≡');
    lemma_marker_contains(Change::Unmerged.seen_in(facts.report()), '=', '∅');
    lemma_content_markers(facts.state_marks(&wt, false, true), parsed);
}

/// Facts without a diff against the primary branch, with no commit ahead
/// and no diff of the working tree, give a worktree other than the primary
/// one a prefix that holds `∅`, and not `≡`.
pub proof fn lemma_unchanged_facts(facts: Facts, wt: Worktree, has_base: bool)
    requires
        diff_with_main(false, has_base, facts.trees_match(), facts.is_dirty(), facts.diff_vs_base)
            is None,
        pair_or_zero(facts.counts).0 == 0,
        pair_or_zero(facts.working_tree_diff) == (0usize, 0usize),
    ensures
        facts.worktree_slots(&wt, false, has_base).prefix.contains('∅'),
        !facts.worktree_slots(&wt, false, has_base).prefix.contains('≡'),
{
    let upstream = upstream_facts(facts.upstream_branch, facts.upstream_counts).shown_counts();
    let parsed = parsed_slots(
        facts.report(),
        pair_or_zero(facts.counts).0 as nat,
        pair_or_zero(facts.counts).1 as nat,
        upstream.0,
        upstream.1,
    );
    lemma_marker_contains(Change::Unmerged.seen_in(facts.report()), '=', '≡');
    lemma_marker_contains(Change::Unmerged.seen_in(facts.report()), '=', '∅');
    lemma_content_markers(facts.state_marks(&wt, false, has_base), parsed);
}

/// What a gathering leaves of the facts of a worktree that has a base: the
/// status report and the two trees stay as they are, and the diff of the
/// working tree stays only where the report names a change.
pub proof fn lemma_settled_worktree(
    wt: Worktree,
    primary: Worktree,
    fetch_ci: bool,
    check_conflicts: bool,
    facts: Facts,
)
    requires
        wt.path@ != primary.path@,
        primary.branch is Some,
    ensures
        ({
            let f = Gatherer::worktree_subject(&wt, &primary, fetch_ci, check_conflicts).settled(
                facts,
            );
            &&& f.status == facts.status
            &&& f.head_tree == facts.head_tree
            &&& f.base_tree == facts.base_tree
            &&& f.counts == facts.counts
            &&& f.is_dirty() == facts.is_dirty()
            &&& f.trees_match() == facts.trees_match()
            &&& (!facts.is_dirty() ==> f.working_tree_diff is None && f.diff_vs_base is None)
            &&& (!facts.trees_match() ==> f.diff_vs_base is None)
        }),
{
}

/// A worktree other than the primary one, with a base, a clean working
/// tree and the same tree as the base is identical to the primary branch,
/// whatever else was answered: its diff against the primary branch and the
/// diff of its working tree are zero, and its prefix holds `≡` and not `∅`.
pub proof fn lemma_identical_worktree(
    wt: Worktree,
    primary: Worktree,
    fetch_ci: bool,
    check_conflicts: bool,
    facts: Facts,
)
    requires
        wt.path@ != primary.path@,
        primary.branch is Some,
        !facts.is_dirty(),
        facts.trees_match(),
    ensures
        ({
            let f = Gatherer::worktree_subject(&wt, &primary, fetch_ci, check_conflicts).settled(
                facts,
            );
            &&& diff_with_main(false, true, f.trees_match(), f.is_dirty(), f.diff_vs_base) == Some(
                (0usize, 0usize),
            )
            &&& pair_or_zero(f.working_tree_diff) == (0usize, 0usize)
            &&& f.worktree_slots(&wt, false, true).prefix.contains('≡')
            &&& !f.worktree_slots(&wt, false, true).prefix.contains('∅')
        }),
{
    let f = Gatherer::worktree_subject(&wt, &primary, fetch_ci, check_conflicts).settled(facts);
    lemma_settled_worktree(wt, primary, fetch_ci, check_conflicts, facts);
    lemma_identical_facts(f, wt);
}

/// A worktree other than the primary one, with no commit ahead of its base,
/// a clean working tree and another tree than the base has no changes,
/// whatever else was answered: its diff against the primary branch is not
/// computed, the diff of its working tree is zero, and its prefix holds `∅`
/// at one place only, and not `≡`.
pub proof fn lemma_unchanged_worktree(
    wt: Worktree,
    primary: Worktree,
    fetch_ci: bool,
    check_conflicts: bool,
    facts: Facts,
)
    requires
        wt.path@ != primary.path@,
        primary.branch is Some,
        pair_or_zero(facts.counts).0 == 0,
        !facts.is_dirty(),
        !facts.trees_match(),
    ensures
        ({
            let f = Gatherer::worktree_subject(&wt, &primary, fetch_ci, check_conflicts).settled(
                facts,
            );
            let prefix = f.worktree_slots(&wt, false, true).prefix;
            &&& diff_with_main(false, true, f.trees_match(), f.is_dirty(), f.diff_vs_base) is None
            &&& pair_or_zero(f.working_tree_diff) == (0usize, 0usize)
            &&& prefix.contains('∅')
            &&& !prefix.contains('≡')
            &&& forall|i: int, j: int|
                0 <= i < prefix.len() && 0 <= j < prefix.len() && prefix[i] == '∅' && prefix[j]
                    == '∅' ==> i == j
        }),
{
    let f = Gatherer::worktree_subject(&wt, &primary, fetch_ci, check_conflicts).settled(facts);
    lemma_settled_worktree(wt, primary, fetch_ci, check_conflicts, facts);
    lemma_unchanged_facts(f, wt, true);
    let marks = f.state_marks(&wt, false, true);
    let prefix = f.worktree_slots(&wt, false, true).prefix;
    let front = marker_if(marks.has_conflicts, '=');
    let back = marks.operation_marker() + marks.attribute_markers();
    assert(!Change::Unmerged.seen_in(f.report()));
    assert(marks.content_marker() == seq!['∅']);
    assert(prefix =~= front + seq!['∅'] + back);
    lemma_marker_contains(marks.has_conflicts, '=', '∅');
    lemma_rest_without_content(marks, '∅');
    assert forall|i: int| 0 <= i < prefix.len() && prefix[i] == '∅' implies i == front.len() by {
        if i < front.len() {
            assert(front[i] == '∅');
        } else if i > front.len() {
            assert(back[i - front.len() - 1] == '∅');
        }
    }
}

/// Neither the operation marker nor the attribute markers are one of the
/// two content markers.
proof fn lemma_rest_without_content(marks: StateMarks, c: char)
    requires
        c == '≡' || c == '∅',
    ensures
        !(marks.operation_marker() + marks.attribute_markers()).contains(c),
{
    let operation = marks.operation_marker();
    let attributes = marks.attribute_markers();
    let bare = marker_if(marks.bare, '◇');
    let locked = marker_if(marks.locked, '⊠');
    let prunable = marker_if(marks.prunable, '⚠');
    let rebasing = marks.worktree_state matches Some(state) && has_substring(state@, "rebase"@);
    let merging = marks.worktree_state matches Some(state) && !has_substring(state@, "rebase"@)
        && has_substring(state@, "merge"@);
    assert(operation =~= marker_if(rebasing, '↻') + marker_if(merging, '⋈'));
    lemma_contains_in_parts(marker_if(rebasing, '↻'), marker_if(merging, '⋈'), c);
    lemma_marker_contains(rebasing, '↻', c);
    lemma_marker_contains(merging, '⋈', c);
    lemma_marker_contains(marks.bare, '◇', c);
    lemma_marker_contains(marks.locked, '⊠', c);
    lemma_marker_contains(marks.prunable, '⚠', c);
    lemma_contains_in_parts(bare, locked, c);
    lemma_contains_in_parts(bare + locked, prunable, c);
    lemma_contains_in_parts(operation, attributes, c);
}

} // verus!
