use wt_core::accessor::GitError;
use wt_core::layout::{
    calculate_column_widths, calculate_layout, common_path_prefix, measure, widest_measure, Measure,
};
use wt_core::list::BranchFailure;
use wt_core::model::{
    AheadBehind, BranchDiffTotals, BranchInfo, CommitDetails, DisplayFields, ListItem,
    UpstreamStatus, Worktree, WorktreeInfo,
};
use wt_core::render::{format_header_line, format_list_item_line};
use wt_core::symbols::StatusSymbols;
use wt_core::text::{common_prefix_len, directory_part, split_after};

fn worktree(path: &str, branch: &str, message: &str) -> WorktreeInfo {
    WorktreeInfo {
        worktree: Worktree {
            path: path.to_string(),
            head: "0123456789abcdef".to_string(),
            branch: Some(branch.to_string()),
            bare: false,
            detached: false,
            locked: None,
            prunable: None,
        },
        commit: CommitDetails { timestamp: 0, commit_message: message.to_string() },
        counts: AheadBehind { ahead: 0, behind: 0 },
        working_tree_diff: (0, 0),
        working_tree_diff_with_main: None,
        branch_diff: BranchDiffTotals { diff: (0, 0) },
        is_primary: false,
        upstream: UpstreamStatus::default(),
        worktree_state: None,
        pr_status: None,
        has_conflicts: false,
        status_symbols: StatusSymbols::default(),
        user_status: None,
        display: DisplayFields::default(),
        working_diff_display: None,
    }
}

fn branch(name: &str, message: &str) -> BranchInfo {
    BranchInfo {
        name: name.to_string(),
        head: "fedcba9876543210".to_string(),
        commit: CommitDetails { timestamp: 0, commit_message: message.to_string() },
        counts: AheadBehind { ahead: 0, behind: 0 },
        branch_diff: BranchDiffTotals { diff: (0, 0) },
        upstream: UpstreamStatus::default(),
        pr_status: None,
        has_conflicts: false,
        user_status: None,
        display: DisplayFields::default(),
    }
}

fn busy_items() -> Vec<ListItem> {
    let mut primary = worktree("/home/u/repo", "main", "Initial commit");
    primary.is_primary = true;
    primary.counts = AheadBehind { ahead: 9, behind: 9 };
    primary.branch_diff = BranchDiffTotals { diff: (99999, 99999) };
    let mut feature = worktree("/home/u/repo.feature", "feature/long-branch-name", "Add the feature that was asked for so long ago");
    feature.counts = AheadBehind { ahead: 12, behind: 3 };
    feature.branch_diff = BranchDiffTotals { diff: (1200, 7) };
    feature.working_tree_diff = (5, 0);
    feature.upstream = UpstreamStatus::from_parts(Some("origin".to_string()), 2, 10);
    feature.worktree.locked = Some("moving".to_string());
    feature.worktree_state = Some("rebase".to_string());
    let mut topic = branch("topic", "Try something");
    topic.counts = AheadBehind { ahead: 0, behind: 140 };
    vec![ListItem::Worktree(primary), ListItem::Worktree(feature), ListItem::Branch(topic)]
}

/// Four days after the commits of the test data.
const NOW: i64 = 4 * 86_400;

#[test]
fn widths_are_those_of_the_widest_cells() {
    let items = busy_items();
    let w = calculate_column_widths(&items, NOW, 20);
    assert_eq!(w.branch, "feature/long-branch-name".len());
    assert_eq!(w.time, "4 days ago".len());
    // "↑12 ↓3" and "↑0 ↓140"; the primary worktree shows no counts.
    assert_eq!(w.ahead_behind, 7);
    // "+1200 -7": four digits and one; the primary worktree's totals do not count.
    assert_eq!((w.branch_diff.total, w.branch_diff.added_digits, w.branch_diff.deleted_digits), (8, 4, 1));
    // "+5 -0" is narrower than "WT +/-": the added lines get the room.
    assert_eq!((w.working_diff.total, w.working_diff.added_digits, w.working_diff.deleted_digits), (6, 2, 1));
    assert_eq!(w.upstream, "origin ↑2 ↓10".chars().count());
    assert_eq!(w.message, "Add the feature…".chars().count());
    assert_eq!(w.states, "[rebase] (locked: moving)".len());
}

#[test]
fn columns_without_content_are_left_out() {
    let items = vec![
        ListItem::Worktree(worktree("/r", "a", "")),
        ListItem::Branch(branch("b", "")),
    ];
    let w = calculate_column_widths(&items, 30, 50);
    assert_eq!(w.branch, 6);
    // Every row has an age.
    assert_eq!(w.time, "just now".len());
    assert_eq!(w.ahead_behind, 0);
    assert_eq!((w.branch_diff.total, w.branch_diff.added_digits, w.branch_diff.deleted_digits), (0, 0, 0));
    assert_eq!((w.working_diff.total, w.working_diff.added_digits, w.working_diff.deleted_digits), (0, 0, 0));
    assert_eq!(w.upstream, 0);
    assert_eq!(w.message, 0);
    assert_eq!(w.states, 0);
    let empty = calculate_column_widths(&Vec::new(), 30, 50);
    assert_eq!(empty.branch, 6);
    assert_eq!(empty.time, 0);
    assert_eq!(empty.message, 0);
}

#[test]
fn narrow_columns_are_as_wide_as_their_labels() {
    let mut wt = worktree("/r", "a", "x");
    wt.counts = AheadBehind { ahead: 1, behind: 0 };
    wt.branch_diff = BranchDiffTotals { diff: (1, 1) };
    wt.upstream = UpstreamStatus::from_parts(Some("o".to_string()), 0, 0);
    wt.worktree.bare = true;
    let items = vec![ListItem::Worktree(wt)];
    let w = calculate_column_widths(&items, 0, 50);
    // "↑1 ↓0" is wider than "Cmts".
    assert_eq!(w.ahead_behind, 5);
    assert_eq!((w.branch_diff.total, w.branch_diff.added_digits, w.branch_diff.deleted_digits), (7, 3, 1));
    // "o ↑0 ↓0" is wider than "Remote".
    assert_eq!(w.upstream, 7);
    assert_eq!(w.message, 7);
    // "(bare)" is wider than "State".
    assert_eq!(w.states, 6);
}

#[test]
fn header_and_rows_align_in_a_sized_layout() {
    let items = busy_items();
    for max_message_len in [0usize, 1, 5, 20, 200] {
        let layout = calculate_layout(&items, NOW, max_message_len);
        assert_eq!(layout.max_message_len, max_message_len);
        let header = format_header_line(&layout);
        let expected = header.width() - "Path".len();
        for item in &items {
            let row = format_list_item_line(item, &layout, &None, NOW);
            let path = if item.worktree_info().is_some() {
                row.segments.last().unwrap().text.chars().count()
            } else {
                0
            };
            assert_eq!(row.width() - path, expected, "{} at {max_message_len}", item.branch_name());
        }
    }
}

#[test]
fn sized_rows_show_everything() {
    let items = busy_items();
    let layout = calculate_layout(&items, NOW, 20);
    let text = |i: usize| -> String {
        format_list_item_line(&items[i], &layout, &None, NOW)
            .segments
            .iter()
            .map(|s| s.text.as_str())
            .collect()
    };
    let row = |cells: [&str; 10]| -> String {
        format!(
            "{:24}  {:10}  {:7}  {:8}  {:6}  {:13}  {:8}  {:16}  {:25}  {}",
            cells[0], cells[1], cells[2], cells[3], cells[4], cells[5], cells[6], cells[7],
            cells[8], cells[9]
        )
    };
    assert_eq!(
        text(1),
        row([
            "feature/long-branch-name", "4 days ago", "↑12 ↓3", "+1200 -7", "+ 5 -0",
            "origin ↑2 ↓10", "01234567", "Add the feature…", "[rebase] (locked: moving)",
            "./repo.feature",
        ])
    );
    assert_eq!(
        text(0),
        row(["main", "4 days ago", "", "", "", "", "01234567", "Initial commit", "", "./repo"])
    );
    assert_eq!(
        text(2),
        row(["topic", "4 days ago", "↑0 ↓140", "", "", "", "fedcba98", "Try something", "", ""])
    );
}

#[test]
fn common_prefix_is_a_directory_of_all_worktrees() {
    assert_eq!(common_path_prefix(&busy_items()), "/home/u");
    assert_eq!(layout_prefix(&["/home/u/repo"]), "/home/u");
    assert_eq!(layout_prefix(&["/home/u/repo", "/home/u/repo/sub"]), "/home/u");
    assert_eq!(layout_prefix(&["/a/one", "/b/two"]), "");
    assert_eq!(layout_prefix(&["/repo", "/repo.x"]), "");
    assert_eq!(layout_prefix(&["/srv/git/a", "/srv/git/b", "/srv/gone/c"]), "/srv");
    assert_eq!(layout_prefix(&["relative", "relative2"]), "");
    assert_eq!(layout_prefix(&[]), "");
    // Branches have no path.
    assert_eq!(common_path_prefix(&vec![ListItem::Branch(branch("b", ""))]), "");
}

fn layout_prefix(paths: &[&str]) -> String {
    let items: Vec<ListItem> =
        paths.iter().map(|p| ListItem::Worktree(worktree(p, "b", ""))).collect();
    common_path_prefix(&items)
}

#[test]
fn measures_of_one_row() {
    let items = busy_items();
    assert_eq!(measure(&items[1], NOW, 20, Measure::Branch), 24);
    assert_eq!(measure(&items[1], NOW, 20, Measure::Age), 10);
    assert_eq!(measure(&items[1], NOW, 20, Measure::Counts), 6);
    assert_eq!(measure(&items[0], NOW, 20, Measure::Counts), 0);
    assert_eq!(measure(&items[1], NOW, 20, Measure::BranchAdded), 4);
    assert_eq!(measure(&items[1], NOW, 20, Measure::BranchDeleted), 1);
    assert_eq!(measure(&items[0], NOW, 20, Measure::BranchAdded), 0);
    assert_eq!(measure(&items[1], NOW, 20, Measure::WorkingAdded), 1);
    assert_eq!(measure(&items[1], NOW, 20, Measure::WorkingDeleted), 1);
    assert_eq!(measure(&items[2], NOW, 20, Measure::WorkingAdded), 0);
    assert_eq!(measure(&items[1], NOW, 20, Measure::Upstream), 13);
    assert_eq!(measure(&items[2], NOW, 20, Measure::Upstream), 0);
    assert_eq!(measure(&items[1], NOW, 20, Measure::Message), 16);
    assert_eq!(measure(&items[1], NOW, 200, Measure::Message), 46);
    assert_eq!(measure(&items[1], NOW, 20, Measure::States), 25);
    assert_eq!(measure(&items[2], NOW, 20, Measure::States), 0);
    assert_eq!(widest_measure(&items, NOW, 20, Measure::Age), 10);
    assert_eq!(widest_measure(&Vec::new(), NOW, 20, Measure::Age), 0);
}

#[test]
fn text_helpers_for_paths() {
    let a: Vec<char> = "/home/u/repo".chars().collect();
    let b: Vec<char> = "/home/u/rest".chars().collect();
    assert_eq!(common_prefix_len(&a, &b), 10);
    assert_eq!(common_prefix_len(&a, &a), 12);
    assert_eq!(common_prefix_len(&a, &Vec::new()), 0);
    assert_eq!(directory_part(&a), "/home/u");
    assert_eq!(directory_part(&"/repo".chars().collect()), "");
    assert_eq!(directory_part(&"repo".chars().collect()), "");
    assert_eq!(directory_part(&"a/b/".chars().collect()), "a/b");
    assert_eq!(split_after("+200 -30", 3), ("+200".to_string(), " -30".to_string()));
    assert_eq!(split_after("ab", 5), ("ab".to_string(), String::new()));
    assert_eq!(split_after("ab", 0), ("a".to_string(), "b".to_string()));
    assert_eq!(split_after("", 0), (String::new(), String::new()));
}

#[test]
fn branch_failure_is_reported_in_two_lines() {
    let failure = BranchFailure {
        branch: "topic".to_string(),
        error: GitError::CommandFailed("no such ref".to_string()),
    };
    assert_eq!(
        failure.warning(),
        "🟡 \u{1b}[33mFailed to enrich branch \u{1b}[1m\u{1b}[33mtopic\u{1b}[0m: no such ref\u{1b}[0m"
    );
    assert_eq!(
        BranchFailure::hint(),
        "💡 \u{1b}[2mThis branch will be shown with limited information\u{1b}[0m"
    );
}
