//! Gathering the metadata of one worktree or one branch.
//!
//! Gathering is a bounded run of queries against the repository. Which query
//! comes next depends on the answers so far: a clean working tree needs no
//! diff, a branch without upstream no counts against it. The library holds
//! these decisions as a state machine: a [`Gatherer`] asks one [`Query`] at a
//! time, takes the [`Reply`] and either asks on, ends with the [`Facts`]
//! gathered, or fails. The caller performs the queries.

use vstd::prelude::*;
use vstd::utf8::encode_utf8;
use crate::accessor::{GitError, Query, QueryKind, QueryText, Reply};
use crate::model::{clone_text, PrStatus, Worktree, text_or_empty};
use crate::symbols::{Change, parse_git_status};
use crate::text::{lines, trimmed};

verus! {

/// What is being gathered for.
#[derive(Clone, Copy, Debug, PartialEq, Eq, Structural)]
pub enum SubjectKind {
    Worktree,
    Branch,
}

/// The worktree or branch that a gatherer works on.
#[derive(Debug)]
pub struct Subject {
    pub kind: SubjectKind,
    /// The head commit of a worktree; unused for a branch, whose head the
    /// first query resolves.
    pub head: String,
    /// The branch checked out in the worktree, or the branch itself.
    pub branch: Option<String>,
    /// The primary branch to compare with. The primary worktree has none.
    pub base: Option<String>,
    pub fetch_ci: bool,
    pub check_conflicts: bool,
}

/// The steps of gathering. Each stands for one query and one fact.
#[derive(Clone, Copy, Debug, PartialEq, Eq, Structural)]
pub enum Stage {
    ResolveHead,
    Timestamp,
    Message,
    Counts,
    UpstreamBranch,
    UpstreamCounts,
    Status,
    WorkingTreeDiff,
    HeadTree,
    BaseTree,
    DiffVsBase,
    BranchDiff,
    State,
    Pr,
    Conflicts,
    WorktreeUserStatus,
    BranchUserStatus,
}

/// The order of the steps for a worktree and for a branch.
pub open spec fn plan(kind: SubjectKind) -> Seq<Stage> {
    match kind {
        SubjectKind::Worktree => seq![
            Stage::Timestamp,
            Stage::Message,
            Stage::Counts,
            Stage::UpstreamBranch,
            Stage::UpstreamCounts,
            Stage::Status,
            Stage::WorkingTreeDiff,
            Stage::HeadTree,
            Stage::BaseTree,
            Stage::DiffVsBase,
            Stage::BranchDiff,
            Stage::State,
            Stage::Pr,
            Stage::Conflicts,
            Stage::WorktreeUserStatus,
            Stage::BranchUserStatus,
        ],
        SubjectKind::Branch => seq![
            Stage::ResolveHead,
            Stage::Timestamp,
            Stage::Message,
            Stage::Counts,
            Stage::BranchDiff,
            Stage::UpstreamBranch,
            Stage::UpstreamCounts,
            Stage::Pr,
            Stage::Conflicts,
            Stage::BranchUserStatus,
        ],
    }
}

/// The step at position `at` of the plan, if the plan is that long.
pub fn stage_at(kind: SubjectKind, at: usize) -> (stage: Option<Stage>)
    ensures
        match stage {
            Some(s) => at < plan(kind).len() && plan(kind)[at as int] == s,
            None => at >= plan(kind).len(),
        },
{
    match kind {
        SubjectKind::Worktree => match at {
            0 => Some(Stage::Timestamp),
            1 => Some(Stage::Message),
            2 => Some(Stage::Counts),
            3 => Some(Stage::UpstreamBranch),
            4 => Some(Stage::UpstreamCounts),
            5 => Some(Stage::Status),
            6 => Some(Stage::WorkingTreeDiff),
            7 => Some(Stage::HeadTree),
            8 => Some(Stage::BaseTree),
            9 => Some(Stage::DiffVsBase),
            10 => Some(Stage::BranchDiff),
            11 => Some(Stage::State),
            12 => Some(Stage::Pr),
            13 => Some(Stage::Conflicts),
            14 => Some(Stage::WorktreeUserStatus),
            15 => Some(Stage::BranchUserStatus),
            _ => None,
        },
        SubjectKind::Branch => match at {
            0 => Some(Stage::ResolveHead),
            1 => Some(Stage::Timestamp),
            2 => Some(Stage::Message),
            3 => Some(Stage::Counts),
            4 => Some(Stage::BranchDiff),
            5 => Some(Stage::UpstreamBranch),
            6 => Some(Stage::UpstreamCounts),
            7 => Some(Stage::Pr),
            8 => Some(Stage::Conflicts),
            9 => Some(Stage::BranchUserStatus),
            _ => None,
        },
    }
}

impl Stage {
    /// Whether gathering goes on, without the fact, when this step's query
    /// fails. A failure of any other step ends the gathering.
    pub open spec fn tolerates_failure(self) -> bool {
        self == Stage::UpstreamBranch || self == Stage::Pr || self == Stage::WorktreeUserStatus
            || self == Stage::BranchUserStatus
    }

    /// Whether gathering goes on when this step's query fails.
    pub fn is_tolerant(self) -> (b: bool)
        ensures
            b == self.tolerates_failure(),
    {
        match self {
            Stage::UpstreamBranch | Stage::Pr | Stage::WorktreeUserStatus
            | Stage::BranchUserStatus => true,
            _ => false,
        }
    }
}

/// The raw answers gathered so far, one slot for each step. A slot is empty
/// while its step has not come, when the step was passed over, and when its
/// query failed and the step tolerates that.
#[derive(Debug)]
pub struct Facts {
    pub resolved_head: Option<String>,
    pub timestamp: Option<i64>,
    pub message: Option<String>,
    pub counts: Option<(usize, usize)>,
    pub upstream_branch: Option<String>,
    pub upstream_counts: Option<(usize, usize)>,
    pub status: Option<String>,
    pub working_tree_diff: Option<(usize, usize)>,
    pub head_tree: Option<String>,
    pub base_tree: Option<String>,
    pub diff_vs_base: Option<(usize, usize)>,
    pub branch_diff: Option<(usize, usize)>,
    pub worktree_state: Option<String>,
    pub pr_status: Option<PrStatus>,
    pub has_conflicts: Option<bool>,
    pub worktree_user_status: Option<String>,
    pub branch_user_status: Option<String>,
}

/// A configuration value as a status: trimmed, and absent when nothing is
/// left.
pub open spec fn status_value(raw: Option<String>) -> Option<Seq<char>> {
    match raw {
        Some(t) => if trimmed(t@).len() > 0 {
            Some(trimmed(t@))
        } else {
            None
        },
        None => None,
    }
}

/// A text as a status: absent when it is empty.
pub fn non_empty(value: &str) -> (status: Option<String>)
    ensures
        match status {
            Some(s) => s@ == value@ && value@.len() > 0,
            None => value@.len() == 0,
        },
{
    if value.is_empty() {
        None
    } else {
        Some(value.to_owned())
    }
}

/// Whether two texts are the same.
pub fn same_text(a: &str, b: &str) -> (same: bool)
    ensures
        same == (a@ == b@),
{
    a.to_owned() == b.to_owned()
}

/// The user's status from the raw value of the branch-keyed configuration
/// entry, if the entry could be read.
pub fn read_branch_keyed_status(raw: &Option<String>) -> (status: Option<String>)
    ensures
        match status {
            Some(s) => status_value(*raw) == Some(s@),
            None => status_value(*raw) is None,
        },
{
    match raw {
        Some(t) => non_empty(t.as_str().trim()),
        None => None,
    }
}

impl Facts {
    /// No answer yet.
    pub open spec fn empty() -> Facts {
        Facts {
            resolved_head: None,
            timestamp: None,
            message: None,
            counts: None,
            upstream_branch: None,
            upstream_counts: None,
            status: None,
            working_tree_diff: None,
            head_tree: None,
            base_tree: None,
            diff_vs_base: None,
            branch_diff: None,
            worktree_state: None,
            pr_status: None,
            has_conflicts: None,
            worktree_user_status: None,
            branch_user_status: None,
        }
    }

    /// No answer yet.
    pub fn new() -> (facts: Facts)
        ensures
            facts == Facts::empty(),
    {
        Facts {
            resolved_head: None,
            timestamp: None,
            message: None,
            counts: None,
            upstream_branch: None,
            upstream_counts: None,
            status: None,
            working_tree_diff: None,
            head_tree: None,
            base_tree: None,
            diff_vs_base: None,
            branch_diff: None,
            worktree_state: None,
            pr_status: None,
            has_conflicts: None,
            worktree_user_status: None,
            branch_user_status: None,
        }
    }

    /// The lines of the status report; none while there is no report.
    pub open spec fn report(&self) -> Seq<Seq<u8>> {
        match self.status {
            Some(s) => lines(encode_utf8(s@)),
            None => Seq::empty(),
        }
    }

    /// Whether the status report names any change.
    pub open spec fn is_dirty(&self) -> bool {
        Change::Any.seen_in(self.report())
    }

    /// Whether the tree of the head is that of the base.
    pub open spec fn trees_match(&self) -> bool {
        self.head_tree matches Some(h) && self.base_tree matches Some(b) && trimmed(h@) == trimmed(
            b@,
        )
    }

    /// Whether the status report names any change.
    pub fn dirty(&self) -> (b: bool)
        ensures
            b == self.is_dirty(),
    {
        match &self.status {
            Some(s) => parse_git_status(s.as_str(), 0, 0, 0, 0).is_dirty,
            None => {
                assert(!Change::Any.seen_in(Seq::<Seq<u8>>::empty()));
                false
            },
        }
    }

    /// Whether the tree of the head is that of the base.
    pub fn same_trees(&self) -> (b: bool)
        ensures
            b == self.trees_match(),
    {
        match (&self.head_tree, &self.base_tree) {
            (Some(h), Some(b)) => same_text(h.as_str().trim(), b.as_str().trim()),
            _ => false,
        }
    }

    /// The facts with the answer to a step filled in; `None` where the
    /// answer is not of the step's kind.
    pub open spec fn recorded(self, stage: Stage, reply: Reply) -> Option<Facts> {
        match (stage, reply) {
            (Stage::ResolveHead, Reply::Text(t)) => Some(Facts { resolved_head: Some(t), ..self }),
            (Stage::Timestamp, Reply::Timestamp(t)) => Some(Facts { timestamp: Some(t), ..self }),
            (Stage::Message, Reply::Text(t)) => Some(Facts { message: Some(t), ..self }),
            (Stage::Counts, Reply::Counts(a, b)) => Some(Facts { counts: Some((a, b)), ..self }),
            (Stage::UpstreamBranch, Reply::Name(n)) => Some(Facts { upstream_branch: n, ..self }),
            (Stage::UpstreamCounts, Reply::Counts(a, b)) => Some(
                Facts { upstream_counts: Some((a, b)), ..self },
            ),
            (Stage::Status, Reply::Text(t)) => Some(Facts { status: Some(t), ..self }),
            (Stage::WorkingTreeDiff, Reply::Counts(a, b)) => Some(
                Facts { working_tree_diff: Some((a, b)), ..self },
            ),
            (Stage::HeadTree, Reply::Text(t)) => Some(Facts { head_tree: Some(t), ..self }),
            (Stage::BaseTree, Reply::Text(t)) => Some(Facts { base_tree: Some(t), ..self }),
            (Stage::DiffVsBase, Reply::Counts(a, b)) => Some(
                Facts { diff_vs_base: Some((a, b)), ..self },
            ),
            (Stage::BranchDiff, Reply::Counts(a, b)) => Some(
                Facts { branch_diff: Some((a, b)), ..self },
            ),
            (Stage::State, Reply::Name(n)) => Some(Facts { worktree_state: n, ..self }),
            (Stage::Pr, Reply::Pr(p)) => Some(Facts { pr_status: p, ..self }),
            (Stage::Conflicts, Reply::Flag(b)) => Some(Facts { has_conflicts: Some(b), ..self }),
            (Stage::WorktreeUserStatus, Reply::Text(t)) => Some(
                Facts { worktree_user_status: Some(t), ..self },
            ),
            (Stage::BranchUserStatus, Reply::Text(t)) => Some(
                Facts { branch_user_status: Some(t), ..self },
            ),
            _ => None,
        }
    }

    /// Fill in the answer to a step, if it is of the step's kind.
    pub fn record(self, stage: Stage, reply: Reply) -> (facts: Option<Facts>)
        ensures
            facts == self.recorded(stage, reply),
    {
        let mut facts = self;
        match (stage, reply) {
            (Stage::ResolveHead, Reply::Text(t)) => {
                facts.resolved_head = Some(t);
            },
            (Stage::Timestamp, Reply::Timestamp(t)) => {
                facts.timestamp = Some(t);
            },
            (Stage::Message, Reply::Text(t)) => {
                facts.message = Some(t);
            },
            (Stage::Counts, Reply::Counts(a, b)) => {
                facts.counts = Some((a, b));
            },
            (Stage::UpstreamBranch, Reply::Name(n)) => {
                facts.upstream_branch = n;
            },
            (Stage::UpstreamCounts, Reply::Counts(a, b)) => {
                facts.upstream_counts = Some((a, b));
            },
            (Stage::Status, Reply::Text(t)) => {
                facts.status = Some(t);
            },
            (Stage::WorkingTreeDiff, Reply::Counts(a, b)) => {
                facts.working_tree_diff = Some((a, b));
            },
            (Stage::HeadTree, Reply::Text(t)) => {
                facts.head_tree = Some(t);
            },
            (Stage::BaseTree, Reply::Text(t)) => {
                facts.base_tree = Some(t);
            },
            (Stage::DiffVsBase, Reply::Counts(a, b)) => {
                facts.diff_vs_base = Some((a, b));
            },
            (Stage::BranchDiff, Reply::Counts(a, b)) => {
                facts.branch_diff = Some((a, b));
            },
            (Stage::State, Reply::Name(n)) => {
                facts.worktree_state = n;
            },
            (Stage::Pr, Reply::Pr(p)) => {
                facts.pr_status = p;
            },
            (Stage::Conflicts, Reply::Flag(b)) => {
                facts.has_conflicts = Some(b);
            },
            (Stage::WorktreeUserStatus, Reply::Text(t)) => {
                facts.worktree_user_status = Some(t);
            },
            (Stage::BranchUserStatus, Reply::Text(t)) => {
                facts.branch_user_status = Some(t);
            },
            _ => {
                return None;
            },
        }
        Some(facts)
    }
}

impl Subject {
    /// The head commit that the queries name: the worktree's head, or the
    /// trimmed answer to the branch's first query.
    pub open spec fn head_text(&self, facts: &Facts) -> Seq<char> {
        match self.kind {
            SubjectKind::Worktree => self.head@,
            SubjectKind::Branch => match facts.resolved_head {
                Some(h) => trimmed(h@),
                None => Seq::empty(),
            },
        }
    }

    /// The head commit that the queries name.
    pub fn head_of(&self, facts: &Facts) -> (head: String)
        ensures
            head@ == self.head_text(facts),
    {
        match self.kind {
            SubjectKind::Worktree => self.head.clone(),
            SubjectKind::Branch => match &facts.resolved_head {
                Some(h) => h.as_str().trim().to_owned(),
                None => String::new(),
            },
        }
    }

    /// Whether a step is taken, given the answers so far.
    pub open spec fn applies(&self, stage: Stage, facts: &Facts) -> bool {
        match stage {
            Stage::ResolveHead | Stage::Timestamp | Stage::Message | Stage::Status
            | Stage::State | Stage::WorktreeUserStatus => true,
            Stage::Counts | Stage::BranchDiff | Stage::HeadTree | Stage::BaseTree => self.base
                is Some,
            Stage::UpstreamBranch => self.branch is Some,
            Stage::UpstreamCounts => facts.upstream_branch is Some,
            Stage::WorkingTreeDiff => facts.is_dirty(),
            Stage::DiffVsBase => self.base is Some && facts.trees_match() && facts.is_dirty(),
            Stage::Pr => self.fetch_ci && self.branch is Some,
            Stage::Conflicts => self.check_conflicts && self.base is Some,
            Stage::BranchUserStatus => self.branch is Some && status_value(
                facts.worktree_user_status,
            ) is None,
        }
    }

    /// Whether a step is taken, given the answers so far.
    pub fn is_due(&self, stage: Stage, facts: &Facts) -> (b: bool)
        ensures
            b == self.applies(stage, facts),
    {
        match stage {
            Stage::ResolveHead | Stage::Timestamp | Stage::Message | Stage::Status
            | Stage::State | Stage::WorktreeUserStatus => true,
            Stage::Counts | Stage::BranchDiff | Stage::HeadTree | Stage::BaseTree => {
                self.base.is_some()
            },
            Stage::UpstreamBranch => self.branch.is_some(),
            Stage::UpstreamCounts => facts.upstream_branch.is_some(),
            Stage::WorkingTreeDiff => facts.dirty(),
            Stage::DiffVsBase => self.base.is_some() && facts.same_trees() && facts.dirty(),
            Stage::Pr => self.fetch_ci && self.branch.is_some(),
            Stage::Conflicts => self.check_conflicts && self.base.is_some(),
            Stage::BranchUserStatus => self.branch.is_some() && read_branch_keyed_status(
                &facts.worktree_user_status,
            ).is_none(),
        }
    }

    /// The query of a step.
    pub open spec fn query_text(&self, stage: Stage, facts: &Facts) -> QueryText {
        let head = self.head_text(facts);
        let base = text_or_empty(self.base);
        let branch = text_or_empty(self.branch);
        let none = Seq::<char>::empty();
        match stage {
            Stage::ResolveHead => QueryText { kind: QueryKind::ResolveRef, first: branch, second: none },
            Stage::Timestamp => QueryText { kind: QueryKind::CommitTimestamp, first: head, second: none },
            Stage::Message => QueryText { kind: QueryKind::CommitMessage, first: head, second: none },
            Stage::Counts => QueryText { kind: QueryKind::AheadBehind, first: base, second: head },
            Stage::UpstreamBranch => QueryText {
                kind: QueryKind::UpstreamBranch,
                first: branch,
                second: none,
            },
            Stage::UpstreamCounts => QueryText {
                kind: QueryKind::AheadBehind,
                first: text_or_empty(facts.upstream_branch),
                second: head,
            },
            Stage::Status => QueryText { kind: QueryKind::Status, first: none, second: none },
            Stage::WorkingTreeDiff => QueryText {
                kind: QueryKind::WorkingTreeDiff,
                first: none,
                second: none,
            },
            Stage::HeadTree => QueryText {
                kind: QueryKind::ResolveRef,
                first: "HEAD^{tree}"@,
                second: none,
            },
            Stage::BaseTree => QueryText {
                kind: QueryKind::ResolveRef,
                first: base + "^{tree}"@,
                second: none,
            },
            Stage::DiffVsBase => QueryText {
                kind: QueryKind::WorkingTreeDiffVsRef,
                first: base,
                second: none,
            },
            Stage::BranchDiff => QueryText { kind: QueryKind::BranchDiff, first: base, second: head },
            Stage::State => QueryText { kind: QueryKind::WorktreeState, first: none, second: none },
            Stage::Pr => QueryText { kind: QueryKind::PrStatus, first: branch, second: head },
            Stage::Conflicts => QueryText {
                kind: QueryKind::MergeConflicts,
                first: base,
                second: head,
            },
            Stage::WorktreeUserStatus => QueryText {
                kind: QueryKind::WorktreeConfig,
                first: "worktrunk.status"@,
                second: none,
            },
            Stage::BranchUserStatus => QueryText {
                kind: QueryKind::Config,
                first: "worktrunk.status."@ + branch,
                second: none,
            },
        }
    }

    /// The query of a step.
    pub fn query_for(&self, stage: Stage, facts: &Facts) -> (query: Query)
        ensures
            query@ == self.query_text(stage, facts),
    {
        let base = own_or_empty(&self.base);
        let branch = own_or_empty(&self.branch);
        match stage {
            Stage::ResolveHead => Query::new(QueryKind::ResolveRef, branch, String::new()),
            Stage::Timestamp => Query::new(
                QueryKind::CommitTimestamp,
                self.head_of(facts),
                String::new(),
            ),
            Stage::Message => Query::new(
                QueryKind::CommitMessage,
                self.head_of(facts),
                String::new(),
            ),
            Stage::Counts => Query::new(QueryKind::AheadBehind, base, self.head_of(facts)),
            Stage::UpstreamBranch => Query::new(QueryKind::UpstreamBranch, branch, String::new()),
            Stage::UpstreamCounts => Query::new(
                QueryKind::AheadBehind,
                own_or_empty(&facts.upstream_branch),
                self.head_of(facts),
            ),
            Stage::Status => Query::new(QueryKind::Status, String::new(), String::new()),
            Stage::WorkingTreeDiff => Query::new(
                QueryKind::WorkingTreeDiff,
                String::new(),
                String::new(),
            ),
            Stage::HeadTree => Query::new(
                QueryKind::ResolveRef,
                String::from_str("HEAD^{tree}"),
                String::new(),
            ),
            Stage::BaseTree => Query::new(
                QueryKind::ResolveRef,
                base.concat("^{tree}"),
                String::new(),
            ),
            Stage::DiffVsBase => Query::new(QueryKind::WorkingTreeDiffVsRef, base, String::new()),
            Stage::BranchDiff => Query::new(QueryKind::BranchDiff, base, self.head_of(facts)),
            Stage::State => Query::new(QueryKind::WorktreeState, String::new(), String::new()),
            Stage::Pr => Query::new(QueryKind::PrStatus, branch, self.head_of(facts)),
            Stage::Conflicts => Query::new(QueryKind::MergeConflicts, base, self.head_of(facts)),
            Stage::WorktreeUserStatus => Query::new(
                QueryKind::WorktreeConfig,
                String::from_str("worktrunk.status"),
                String::new(),
            ),
            Stage::BranchUserStatus => Query::new(
                QueryKind::Config,
                String::from_str("worktrunk.status.").concat(branch.as_str()),
                String::new(),
            ),
        }
    }

    /// The position of the first step from `from` on that is taken, or the
    /// length of the plan when none is left.
    pub open spec fn next_due(&self, facts: &Facts, from: nat) -> nat
        decreases plan(self.kind).len() - from,
    {
        if from >= plan(self.kind).len() {
            plan(self.kind).len()
        } else if self.applies(plan(self.kind)[from as int], facts) {
            from
        } else {
            self.next_due(facts, from + 1)
        }
    }
}

/// A slot as it stands after a gathering: empty where its step was not due.
pub open spec fn kept<T>(due: bool, slot: Option<T>) -> Option<T> {
    if due {
        slot
    } else {
        None
    }
}

fn keep<T>(due: bool, slot: Option<T>) -> (out: Option<T>)
    ensures
        out == kept(due, slot),
{
    if due {
        slot
    } else {
        None
    }
}

/// Whether a step stands in the plan for a worktree or for a branch.
pub open spec fn in_plan(kind: SubjectKind, stage: Stage) -> bool {
    match kind {
        SubjectKind::Worktree => stage != Stage::ResolveHead,
        SubjectKind::Branch => stage == Stage::ResolveHead || stage == Stage::Timestamp || stage
            == Stage::Message || stage == Stage::Counts || stage == Stage::BranchDiff || stage
            == Stage::UpstreamBranch || stage == Stage::UpstreamCounts || stage == Stage::Pr
            || stage == Stage::Conflicts || stage == Stage::BranchUserStatus,
    }
}

/// The plan holds the steps that `in_plan` names, and no others.
pub proof fn lemma_in_plan(kind: SubjectKind, stage: Stage)
    ensures
        in_plan(kind, stage) <==> plan(kind).contains(stage),
{
    let p = plan(kind);
    if in_plan(kind, stage) {
        match kind {
            SubjectKind::Worktree => {
                assert(p[0] == Stage::Timestamp && p[1] == Stage::Message && p[2] == Stage::Counts
                    && p[3] == Stage::UpstreamBranch && p[4] == Stage::UpstreamCounts && p[5]
                    == Stage::Status && p[6] == Stage::WorkingTreeDiff && p[7] == Stage::HeadTree
                    && p[8] == Stage::BaseTree && p[9] == Stage::DiffVsBase && p[10]
                    == Stage::BranchDiff && p[11] == Stage::State && p[12] == Stage::Pr && p[13]
                    == Stage::Conflicts && p[14] == Stage::WorktreeUserStatus && p[15]
                    == Stage::BranchUserStatus);
            },
            SubjectKind::Branch => {
                assert(p[0] == Stage::ResolveHead && p[1] == Stage::Timestamp && p[2]
                    == Stage::Message && p[3] == Stage::Counts && p[4] == Stage::BranchDiff
                    && p[5] == Stage::UpstreamBranch && p[6] == Stage::UpstreamCounts && p[7]
                    == Stage::Pr && p[8] == Stage::Conflicts && p[9] == Stage::BranchUserStatus);
            },
        }
    }
}

impl Subject {
    /// The subject for a worktree: compared with the primary worktree's
    /// branch, unless it is the primary worktree itself.
    pub fn for_worktree(wt: &Worktree, primary: &Worktree, fetch_ci: bool, check_conflicts: bool) -> (subject:
        Subject)
        ensures
            subject == Gatherer::worktree_subject(wt, primary, fetch_ci, check_conflicts),
    {
        let is_primary = wt.path == primary.path;
        Subject {
            kind: SubjectKind::Worktree,
            head: wt.head.clone(),
            branch: clone_text(&wt.branch),
            base: if is_primary {
                None
            } else {
                clone_text(&primary.branch)
            },
            fetch_ci,
            check_conflicts,
        }
    }

    /// The subject for a branch without a worktree.
    pub fn for_branch(
        branch: String,
        primary_branch: Option<String>,
        fetch_ci: bool,
        check_conflicts: bool,
    ) -> (subject: Subject)
        ensures
            subject == Gatherer::branch_subject(branch, primary_branch, fetch_ci, check_conflicts),
    {
        Subject {
            kind: SubjectKind::Branch,
            head: branch.clone(),
            branch: Some(branch),
            base: primary_branch,
            fetch_ci,
            check_conflicts,
        }
    }

    /// Whether a gathering for this subject takes a step, given the answers
    /// so far: the step stands in its plan and is due.
    pub open spec fn takes(&self, stage: Stage, facts: &Facts) -> bool {
        in_plan(self.kind, stage) && self.applies(stage, facts)
    }

    /// Whether a gathering for this subject takes a step.
    pub fn is_taken(&self, stage: Stage, facts: &Facts) -> (b: bool)
        ensures
            b == self.takes(stage, facts),
    {
        let planned = match self.kind {
            SubjectKind::Worktree => match stage {
                Stage::ResolveHead => false,
                _ => true,
            },
            SubjectKind::Branch => match stage {
                Stage::ResolveHead | Stage::Timestamp | Stage::Message | Stage::Counts
                | Stage::BranchDiff | Stage::UpstreamBranch | Stage::UpstreamCounts | Stage::Pr
                | Stage::Conflicts | Stage::BranchUserStatus => true,
                _ => false,
            },
        };
        planned && self.is_due(stage, facts)
    }

    /// The slots whose steps depend on the subject alone, each empty where
    /// its step is not taken.
    pub open spec fn settled_first(&self, facts: Facts) -> Facts {
        Facts {
            resolved_head: kept(self.takes(Stage::ResolveHead, &facts), facts.resolved_head),
            timestamp: kept(self.takes(Stage::Timestamp, &facts), facts.timestamp),
            message: kept(self.takes(Stage::Message, &facts), facts.message),
            counts: kept(self.takes(Stage::Counts, &facts), facts.counts),
            upstream_branch: kept(self.takes(Stage::UpstreamBranch, &facts), facts.upstream_branch),
            status: kept(self.takes(Stage::Status, &facts), facts.status),
            head_tree: kept(self.takes(Stage::HeadTree, &facts), facts.head_tree),
            base_tree: kept(self.takes(Stage::BaseTree, &facts), facts.base_tree),
            branch_diff: kept(self.takes(Stage::BranchDiff, &facts), facts.branch_diff),
            worktree_state: kept(self.takes(Stage::State, &facts), facts.worktree_state),
            pr_status: kept(self.takes(Stage::Pr, &facts), facts.pr_status),
            has_conflicts: kept(self.takes(Stage::Conflicts, &facts), facts.has_conflicts),
            worktree_user_status: kept(
                self.takes(Stage::WorktreeUserStatus, &facts),
                facts.worktree_user_status,
            ),
            ..facts
        }
    }

    /// The facts as a gathering for this subject leaves them: a slot is
    /// empty where its step is not taken. What was answered to a question
    /// that the gathering would not have asked does not count: a clean
    /// working tree has no diff, a subject without a base no counts.
    pub open spec fn settled(&self, facts: Facts) -> Facts {
        let first = self.settled_first(facts);
        Facts {
            upstream_counts: kept(self.takes(Stage::UpstreamCounts, &first), first.upstream_counts),
            working_tree_diff: kept(
                self.takes(Stage::WorkingTreeDiff, &first),
                first.working_tree_diff,
            ),
            diff_vs_base: kept(self.takes(Stage::DiffVsBase, &first), first.diff_vs_base),
            branch_user_status: kept(
                self.takes(Stage::BranchUserStatus, &first),
                first.branch_user_status,
            ),
            ..first
        }
    }

    /// Empty the slots of the steps that a gathering for this subject does
    /// not take.
    pub fn settle(&self, facts: Facts) -> (out: Facts)
        ensures
            out == self.settled(facts),
    {
        let resolved_head = self.is_taken(Stage::ResolveHead, &facts);
        let timestamp = self.is_taken(Stage::Timestamp, &facts);
        let message = self.is_taken(Stage::Message, &facts);
        let counts = self.is_taken(Stage::Counts, &facts);
        let upstream_branch = self.is_taken(Stage::UpstreamBranch, &facts);
        let status = self.is_taken(Stage::Status, &facts);
        let head_tree = self.is_taken(Stage::HeadTree, &facts);
        let base_tree = self.is_taken(Stage::BaseTree, &facts);
        let branch_diff = self.is_taken(Stage::BranchDiff, &facts);
        let worktree_state = self.is_taken(Stage::State, &facts);
        let pr_status = self.is_taken(Stage::Pr, &facts);
        let has_conflicts = self.is_taken(Stage::Conflicts, &facts);
        let worktree_user_status = self.is_taken(Stage::WorktreeUserStatus, &facts);
        let first = Facts {
            resolved_head: keep(resolved_head, facts.resolved_head),
            timestamp: keep(timestamp, facts.timestamp),
            message: keep(message, facts.message),
            counts: keep(counts, facts.counts),
            upstream_branch: keep(upstream_branch, facts.upstream_branch),
            upstream_counts: facts.upstream_counts,
            status: keep(status, facts.status),
            working_tree_diff: facts.working_tree_diff,
            head_tree: keep(head_tree, facts.head_tree),
            base_tree: keep(base_tree, facts.base_tree),
            diff_vs_base: facts.diff_vs_base,
            branch_diff: keep(branch_diff, facts.branch_diff),
            worktree_state: keep(worktree_state, facts.worktree_state),
            pr_status: keep(pr_status, facts.pr_status),
            has_conflicts: keep(has_conflicts, facts.has_conflicts),
            worktree_user_status: keep(worktree_user_status, facts.worktree_user_status),
            branch_user_status: facts.branch_user_status,
        };
        assert(first == self.settled_first(facts));
        let upstream_counts = self.is_taken(Stage::UpstreamCounts, &first);
        let working_tree_diff = self.is_taken(Stage::WorkingTreeDiff, &first);
        let diff_vs_base = self.is_taken(Stage::DiffVsBase, &first);
        let branch_user_status = self.is_taken(Stage::BranchUserStatus, &first);
        Facts {
            resolved_head: first.resolved_head,
            timestamp: first.timestamp,
            message: first.message,
            counts: first.counts,
            upstream_branch: first.upstream_branch,
            upstream_counts: keep(upstream_counts, first.upstream_counts),
            status: first.status,
            working_tree_diff: keep(working_tree_diff, first.working_tree_diff),
            head_tree: first.head_tree,
            base_tree: first.base_tree,
            diff_vs_base: keep(diff_vs_base, first.diff_vs_base),
            branch_diff: first.branch_diff,
            worktree_state: first.worktree_state,
            pr_status: first.pr_status,
            has_conflicts: first.has_conflicts,
            worktree_user_status: first.worktree_user_status,
            branch_user_status: keep(branch_user_status, first.branch_user_status),
        }
    }
}

/// A copy of an optional text, or the empty text.
pub fn own_or_empty(t: &Option<String>) -> (s: String)
    ensures
        s@ == text_or_empty(*t),
{
    match t {
        Some(s) => s.clone(),
        None => String::new(),
    }
}

/// A gathering under way: it has asked the query of the step at `cursor`
/// and waits for the answer.
#[derive(Debug)]
pub struct Gatherer {
    pub subject: Subject,
    pub facts: Facts,
    pub cursor: usize,
}

/// What a gatherer does next.
#[derive(Debug)]
pub enum Step {
    /// Put this query to the repository and hand the answer to
    /// [`Gatherer::advance`].
    Ask(Gatherer, Query),
    /// Gathering is complete.
    Done(Facts),
    /// Gathering failed.
    Failed(GitError),
}

/// What a gatherer is to do next, as mathematical values.
pub enum Outcome {
    Ask(Gatherer, QueryText),
    Done(Facts),
    Failed(GitError),
    /// The answer was not of the kind that the step takes.
    Unexpected,
}

/// The text of the error for an answer of the wrong kind.
pub open spec fn unexpected_reply() -> Seq<char> {
    "unexpected reply to a repository query"@
}

impl Step {
    /// Whether this step is the one that `outcome` describes.
    pub open spec fn agrees(self, outcome: Outcome) -> bool {
        match (self, outcome) {
            (Step::Ask(g, q), Outcome::Ask(g2, q2)) => g == g2 && q@ == q2,
            (Step::Done(f), Outcome::Done(f2)) => f == f2,
            (Step::Failed(e), Outcome::Failed(e2)) => e == e2,
            (Step::Failed(e), Outcome::Unexpected) => e matches GitError::ParseError(m) && m@
                == unexpected_reply(),
            _ => false,
        }
    }
}

impl Gatherer {
    /// What follows when the steps before `from` are settled: the query of
    /// the next step that is taken, or the end.
    pub open spec fn proceeding(subject: Subject, facts: Facts, from: nat) -> Outcome {
        let at = subject.next_due(&facts, from);
        if at < plan(subject.kind).len() {
            Outcome::Ask(
                Gatherer { subject, facts, cursor: at as usize },
                subject.query_text(plan(subject.kind)[at as int], &facts),
            )
        } else {
            Outcome::Done(facts)
        }
    }

    /// What follows the answer `reply` to the query that this gatherer has
    /// asked. A failure ends the gathering with that error, unless the step
    /// tolerates it; an answer of the wrong kind ends it with a parse error;
    /// any other answer is recorded.
    pub open spec fn after(self, reply: Reply) -> Outcome {
        if self.cursor >= plan(self.subject.kind).len() {
            Outcome::Done(self.facts)
        } else {
            let stage = plan(self.subject.kind)[self.cursor as int];
            match reply {
                Reply::Failed(e) => if stage.tolerates_failure() {
                    Gatherer::proceeding(self.subject, self.facts, (self.cursor + 1) as nat)
                } else {
                    Outcome::Failed(e)
                },
                _ => match self.facts.recorded(stage, reply) {
                    Some(facts) => Gatherer::proceeding(
                        self.subject,
                        facts,
                        (self.cursor + 1) as nat,
                    ),
                    None => Outcome::Unexpected,
                },
            }
        }
    }

    /// The subject for a worktree: compared with the primary worktree's
    /// branch, unless it is the primary worktree itself.
    pub open spec fn worktree_subject(
        wt: &Worktree,
        primary: &Worktree,
        fetch_ci: bool,
        check_conflicts: bool,
    ) -> Subject {
        Subject {
            kind: SubjectKind::Worktree,
            head: wt.head,
            branch: wt.branch,
            base: if wt.path@ == primary.path@ {
                None
            } else {
                primary.branch
            },
            fetch_ci,
            check_conflicts,
        }
    }

    /// The subject for a branch without a worktree.
    pub open spec fn branch_subject(
        branch: String,
        primary_branch: Option<String>,
        fetch_ci: bool,
        check_conflicts: bool,
    ) -> Subject {
        Subject {
            kind: SubjectKind::Branch,
            head: branch,
            branch: Some(branch),
            base: primary_branch,
            fetch_ci,
            check_conflicts,
        }
    }

    fn proceed(subject: Subject, facts: Facts, from: usize) -> (step: Step)
        ensures
            step.agrees(Gatherer::proceeding(subject, facts, from as nat)),
    {
        let mut cursor: usize = from;
        loop
            invariant
                subject.next_due(&facts, cursor as nat) == subject.next_due(&facts, from as nat),
            decreases plan(subject.kind).len() - cursor,
        {
            match stage_at(subject.kind, cursor) {
                Some(stage) => {
                    if subject.is_due(stage, &facts) {
                        let query = subject.query_for(stage, &facts);
                        return Step::Ask(Gatherer { subject, facts, cursor }, query);
                    }
                    cursor += 1;
                },
                None => {
                    return Step::Done(facts);
                },
            }
        }
    }

    /// Start gathering for a worktree.
    pub fn for_worktree(
        wt: &Worktree,
        primary: &Worktree,
        fetch_ci: bool,
        check_conflicts: bool,
    ) -> (step: Step)
        ensures
            step.agrees(
                Gatherer::proceeding(
                    Gatherer::worktree_subject(wt, primary, fetch_ci, check_conflicts),
                    Facts::empty(),
                    0,
                ),
            ),
    {
        let subject = Subject::for_worktree(wt, primary, fetch_ci, check_conflicts);
        Gatherer::proceed(subject, Facts::new(), 0)
    }

    /// Start gathering for a branch without a worktree.
    pub fn for_branch(
        branch: String,
        primary_branch: Option<String>,
        fetch_ci: bool,
        check_conflicts: bool,
    ) -> (step: Step)
        ensures
            step.agrees(
                Gatherer::proceeding(
                    Gatherer::branch_subject(branch, primary_branch, fetch_ci, check_conflicts),
                    Facts::empty(),
                    0,
                ),
            ),
    {
        let subject = Subject::for_branch(branch, primary_branch, fetch_ci, check_conflicts);
        Gatherer::proceed(subject, Facts::new(), 0)
    }

    /// Take the answer to the query that was asked.
    pub fn advance(self, reply: Reply) -> (step: Step)
        ensures
            step.agrees(self.after(reply)),
    {
        let Gatherer { subject, facts, cursor } = self;
        match stage_at(subject.kind, cursor) {
            None => Step::Done(facts),
            Some(stage) => match reply {
                Reply::Failed(e) => {
                    if stage.is_tolerant() {
                        Gatherer::proceed(subject, facts, cursor + 1)
                    } else {
                        Step::Failed(e)
                    }
                },
                other => match facts.record(stage, other) {
                    Some(facts) => Gatherer::proceed(subject, facts, cursor + 1),
                    None => Step::Failed(
                        GitError::ParseError(
                            String::from_str("unexpected reply to a repository query"),
                        ),
                    ),
                },
            },
        }
    }
}

/// The next step that is due lies at `from` or behind it, within the plan
/// or at its end; no step between the two is due.
pub proof fn lemma_next_due(subject: Subject, facts: Facts, from: nat)
    requires
        from <= plan(subject.kind).len(),
    ensures
        from <= subject.next_due(&facts, from) <= plan(subject.kind).len(),
        subject.next_due(&facts, from) < plan(subject.kind).len() ==> subject.applies(
            plan(subject.kind)[subject.next_due(&facts, from) as int],
            &facts,
        ),
        forall|k: int|
            from <= k < subject.next_due(&facts, from) ==> !subject.applies(
                #[trigger] plan(subject.kind)[k],
                &facts,
            ),
    decreases plan(subject.kind).len() - from,
{
    if from < plan(subject.kind).len() && !subject.applies(plan(subject.kind)[from as int], &facts) {
        lemma_next_due(subject, facts, from + 1);
    }
}

/// Gathering moves forward. The query that follows an answer belongs to a
/// step further down the plan, for the same subject, and to one that is due.
/// So each step is asked at most once, in the order of the plan, and a
/// gathering takes no more answers than its plan has steps.
pub proof fn lemma_gathering_advances(g: Gatherer, reply: Reply)
    requires
        g.cursor < plan(g.subject.kind).len(),
    ensures
        g.after(reply) matches Outcome::Ask(next, query) ==> {
            &&& next.subject == g.subject
            &&& g.cursor < next.cursor < plan(g.subject.kind).len()
            &&& next.subject.applies(plan(g.subject.kind)[next.cursor as int], &next.facts)
            &&& query == next.subject.query_text(
                plan(g.subject.kind)[next.cursor as int],
                &next.facts,
            )
        },
{
    let stage = plan(g.subject.kind)[g.cursor as int];
    lemma_next_due(g.subject, g.facts, (g.cursor + 1) as nat);
    match g.facts.recorded(stage, reply) {
        Some(facts) => {
            lemma_next_due(g.subject, facts, (g.cursor + 1) as nat);
        },
        None => {},
    }
}

/// A failed query ends the gathering with its error at every step but the
/// four that tolerate failure; there the gathering goes on as if the step
/// had not been due.
pub proof fn lemma_failure_policy(g: Gatherer, e: GitError)
    requires
        g.cursor < plan(g.subject.kind).len(),
    ensures
        !plan(g.subject.kind)[g.cursor as int].tolerates_failure() ==> g.after(Reply::Failed(e))
            == Outcome::Failed(e),
        plan(g.subject.kind)[g.cursor as int].tolerates_failure() ==> g.after(Reply::Failed(e))
            == Gatherer::proceeding(g.subject, g.facts, (g.cursor + 1) as nat),
{
}

} // verus!
