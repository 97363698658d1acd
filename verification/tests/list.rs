use wt_core::accessor::GitError;
use wt_core::list::{collect_worktrees, gather_list_data, merge_branches, sort_items, BranchResult};
use wt_core::model::{
    AheadBehind, BranchDiffTotals, BranchInfo, CommitDetails, DisplayFields, ListItem,
    UpstreamStatus, Worktree, WorktreeInfo,
};
use wt_core::symbols::StatusSymbols;

fn worktree(path: &str, timestamp: i64, is_primary: bool) -> WorktreeInfo {
    WorktreeInfo {
        worktree: Worktree {
            path: path.to_string(),
            head: "0123456789abcdef".to_string(),
            branch: Some(path.trim_start_matches('/').to_string()),
            bare: false,
            detached: false,
            locked: None,
            prunable: None,
        },
        commit: CommitDetails { timestamp, commit_message: String::new() },
        counts: AheadBehind::default(),
        working_tree_diff: (0, 0),
        working_tree_diff_with_main: None,
        branch_diff: BranchDiffTotals::default(),
        is_primary,
        upstream: UpstreamStatus::default(),
        worktree_state: None,
        pr_status: None,
        has_conflicts: false,
        status_symbols: StatusSymbols::default(),
        user_status: None,
        display: DisplayFields::default(),
        working_diff_display: None,
    }
}

fn branch(name: &str, timestamp: i64) -> BranchInfo {
    BranchInfo {
        name: name.to_string(),
        head: "fedcba9876543210".to_string(),
        commit: CommitDetails { timestamp, commit_message: String::new() },
        counts: AheadBehind::default(),
        branch_diff: BranchDiffTotals::default(),
        upstream: UpstreamStatus::default(),
        pr_status: None,
        has_conflicts: false,
        user_status: None,
        display: DisplayFields::default(),
    }
}

fn names(items: &[ListItem]) -> Vec<String> {
    items.iter().map(|i| i.branch_name().to_string()).collect()
}

fn failed(message: &str) -> GitError {
    GitError::CommandFailed(message.to_string())
}

#[test]
fn primary_sorts_first_current_second_rest_by_age() {
    let items = vec![
        ListItem::Worktree(worktree("/old", 100, false)),
        ListItem::Branch(branch("topic", 900)),
        ListItem::Worktree(worktree("/here", 50, false)),
        ListItem::Worktree(worktree("/new", 800, false)),
        ListItem::Worktree(worktree("/main", 1, true)),
    ];
    let sorted = sort_items(items, &Some("/here".to_string()));
    assert_eq!(names(&sorted), vec!["main", "here", "topic", "new", "old"]);
}

#[test]
fn without_a_current_path_only_the_primary_is_special() {
    let items = vec![
        ListItem::Worktree(worktree("/a", 10, false)),
        ListItem::Worktree(worktree("/main", 5, true)),
        ListItem::Worktree(worktree("/b", 20, false)),
    ];
    let sorted = sort_items(items, &None);
    assert_eq!(names(&sorted), vec!["main", "b", "a"]);
}

#[test]
fn current_primary_stays_in_the_first_class() {
    let items = vec![
        ListItem::Worktree(worktree("/a", 10, false)),
        ListItem::Worktree(worktree("/main", 5, true)),
    ];
    let sorted = sort_items(items, &Some("/main".to_string()));
    assert_eq!(names(&sorted), vec!["main", "a"]);
}

#[test]
fn a_branch_is_never_current() {
    let items = vec![
        ListItem::Branch(branch("/here", 10)),
        ListItem::Worktree(worktree("/other", 20, false)),
    ];
    let sorted = sort_items(items, &Some("/here".to_string()));
    assert_eq!(names(&sorted), vec!["other", "/here"]);
}

#[test]
fn sort_keeps_the_order_of_equal_items() {
    let items = vec![
        ListItem::Worktree(worktree("/x", 7, false)),
        ListItem::Branch(branch("y", 7)),
        ListItem::Worktree(worktree("/z", 7, false)),
        ListItem::Branch(branch("w", 9)),
        ListItem::Branch(branch("v", 7)),
    ];
    let sorted = sort_items(items, &None);
    assert_eq!(names(&sorted), vec!["w", "x", "y", "z", "v"]);
}

#[test]
fn sort_handles_extreme_timestamps() {
    let items = vec![
        ListItem::Branch(branch("least", i64::MIN)),
        ListItem::Branch(branch("zero", 0)),
        ListItem::Branch(branch("most", i64::MAX)),
        ListItem::Branch(branch("negative", -1)),
    ];
    let sorted = sort_items(items, &None);
    assert_eq!(names(&sorted), vec!["most", "zero", "negative", "least"]);
    assert!(sort_items(Vec::new(), &None).is_empty());
}

#[test]
fn collect_keeps_the_order_of_the_worktrees() {
    let items = collect_worktrees(vec![Ok(worktree("/a", 1, true)), Ok(worktree("/b", 2, false))]).unwrap();
    assert_eq!(names(&items), vec!["a", "b"]);
    assert!(collect_worktrees(Vec::new()).unwrap().is_empty());
}

#[test]
fn collect_fails_with_the_first_failure() {
    let result = collect_worktrees(vec![
        Ok(worktree("/a", 1, true)),
        Err(failed("first")),
        Ok(worktree("/b", 2, false)),
        Err(failed("second")),
    ]);
    match result {
        Err(GitError::CommandFailed(m)) => assert_eq!(m, "first"),
        _ => panic!("expected the first failure"),
    }
}

#[test]
fn merge_adds_gathered_branches_and_reports_the_rest() {
    let mut items = vec![ListItem::Worktree(worktree("/main", 1, true))];
    let failures = merge_branches(
        &mut items,
        vec![
            BranchResult { branch: "one".to_string(), result: Ok(branch("one", 5)) },
            BranchResult { branch: "two".to_string(), result: Err(failed("no two")) },
            BranchResult { branch: "three".to_string(), result: Ok(branch("three", 9)) },
            BranchResult { branch: "four".to_string(), result: Err(GitError::DetachedHead) },
        ],
    );
    assert_eq!(names(&items), vec!["main", "one", "three"]);
    assert_eq!(failures.len(), 2);
    assert_eq!(failures[0].branch, "two");
    assert_eq!(failures[0].error.message(), "no two");
    assert_eq!(failures[1].branch, "four");
    assert!(matches!(failures[1].error, GitError::DetachedHead));
}

#[test]
fn no_worktree_is_no_data() {
    let gathered = gather_list_data(
        Vec::new(),
        vec![BranchResult { branch: "one".to_string(), result: Ok(branch("one", 5)) }],
        Some("/here".to_string()),
    );
    assert!(matches!(gathered, Ok(None)));
}

#[test]
fn worktree_failure_fails_the_list() {
    let gathered = gather_list_data(
        vec![Ok(worktree("/main", 1, true)), Err(failed("broken worktree"))],
        vec![BranchResult { branch: "one".to_string(), result: Ok(branch("one", 5)) }],
        None,
    );
    match gathered {
        Err(GitError::CommandFailed(m)) => assert_eq!(m, "broken worktree"),
        _ => panic!("expected the worktree's failure"),
    }
}

#[test]
fn branch_failure_leaves_the_other_items() {
    let gathered = gather_list_data(
        vec![Ok(worktree("/main", 1, true)), Ok(worktree("/feature", 30, false))],
        vec![
            BranchResult { branch: "gone".to_string(), result: Err(failed("no such ref")) },
            BranchResult { branch: "topic".to_string(), result: Ok(branch("topic", 40)) },
        ],
        Some("/feature".to_string()),
    )
    .unwrap()
    .unwrap();
    assert_eq!(names(&gathered.data.items), vec!["main", "feature", "topic"]);
    assert_eq!(gathered.data.current_worktree_path.as_deref(), Some("/feature"));
    assert_eq!(gathered.failures.len(), 1);
    assert_eq!(gathered.failures[0].branch, "gone");
    assert_eq!(gathered.failures[0].error.message(), "no such ref");
}

#[test]
fn list_without_branches_is_the_sorted_worktrees() {
    let gathered = gather_list_data(
        vec![
            Ok(worktree("/main", 1, true)),
            Ok(worktree("/a", 10, false)),
            Ok(worktree("/b", 20, false)),
        ],
        Vec::new(),
        None,
    )
    .unwrap()
    .unwrap();
    assert_eq!(names(&gathered.data.items), vec!["main", "b", "a"]);
    assert!(gathered.failures.is_empty());
    assert_eq!(gathered.data.current_worktree_path, None);
}
