//! The questions that gathering puts to the repository, and the answers it
//! takes. The library decides what to ask; its caller does the asking.

use vstd::prelude::*;
use crate::model::PrStatus;

verus! {

/// Why a repository query failed.
#[derive(Debug)]
pub enum GitError {
    /// The command could not be run or ended in failure.
    CommandFailed(String),
    /// The command's output was not what was asked for.
    ParseError(String),
    /// No branch is checked out.
    DetachedHead,
}

impl Clone for GitError {
    fn clone(&self) -> (c: GitError)
        ensures
            c == *self,
    {
        match self {
            GitError::CommandFailed(m) => GitError::CommandFailed(m.clone()),
            GitError::ParseError(m) => GitError::ParseError(m.clone()),
            GitError::DetachedHead => GitError::DetachedHead,
        }
    }
}

impl GitError {
    /// The text of the error, for a warning or a log line.
    pub open spec fn spec_message(&self) -> Seq<char> {
        match self {
            GitError::CommandFailed(m) => m@,
            GitError::ParseError(m) => m@,
            GitError::DetachedHead => "Not on a branch (detached HEAD)"@,
        }
    }

    /// The text of the error.
    pub fn message(&self) -> (m: String)
        ensures
            m@ == self.spec_message(),
    {
        match self {
            GitError::CommandFailed(m) => m.clone(),
            GitError::ParseError(m) => m.clone(),
            GitError::DetachedHead => String::from_str("Not on a branch (detached HEAD)"),
        }
    }
}

/// The kinds of query. Each takes up to two texts, named in its comment.
#[derive(Clone, Copy, Debug, PartialEq, Eq, Structural)]
pub enum QueryKind {
    /// The commit that a reference (first) resolves to.
    ResolveRef,
    /// When a commit (first) was made, in seconds since the epoch.
    CommitTimestamp,
    /// The message of a commit (first).
    CommitMessage,
    /// How many commits a head (second) is ahead of and behind a base (first).
    AheadBehind,
    /// Lines added and deleted between a base (first) and a head (second).
    BranchDiff,
    /// The upstream that a branch (first) tracks, if any.
    UpstreamBranch,
    /// The raw status report of the working tree.
    Status,
    /// Lines added and deleted in the working tree against its head.
    WorkingTreeDiff,
    /// Lines added and deleted in the working tree against a reference
    /// (first).
    WorkingTreeDiffVsRef,
    /// The operation in progress in the worktree, if any.
    WorktreeState,
    /// The CI or pull-request status of a branch (first) at a head (second).
    PrStatus,
    /// Whether merging a head (second) into a base (first) would conflict.
    MergeConflicts,
    /// The worktree-scoped configuration value of a key (first).
    WorktreeConfig,
    /// The configuration value of a key (first).
    Config,
}

/// One question to the repository.
#[derive(Debug)]
pub struct Query {
    pub kind: QueryKind,
    pub first: String,
    pub second: String,
}

/// A query as mathematical values.
pub struct QueryText {
    pub kind: QueryKind,
    pub first: Seq<char>,
    pub second: Seq<char>,
}

impl View for Query {
    type V = QueryText;

    open spec fn view(&self) -> QueryText {
        QueryText { kind: self.kind, first: self.first@, second: self.second@ }
    }
}

impl Query {
    /// A query of a kind with its two texts.
    pub fn new(kind: QueryKind, first: String, second: String) -> (q: Query)
        ensures
            q@ == (QueryText { kind, first: first@, second: second@ }),
    {
        Query { kind, first, second }
    }
}

/// One answer from the repository.
#[derive(Debug)]
pub enum Reply {
    /// The query failed.
    Failed(GitError),
    /// Seconds since the epoch.
    Timestamp(i64),
    /// Raw text: a commit id, a message, a report, a configuration value.
    Text(String),
    /// Two counts: ahead and behind, or added and deleted.
    Counts(usize, usize),
    /// A name that may be absent: an upstream, an operation in progress.
    Name(Option<String>),
    Flag(bool),
    Pr(Option<PrStatus>),
}

} // verus!
