use wt_core::model::{
    AheadBehind, BranchDiffTotals, BranchInfo, CommitDetails, DisplayFields, ListItem,
    UpstreamStatus, Worktree, WorktreeInfo,
};
use wt_core::symbols::{parse_git_status, Divergence, StatusSymbols};

fn symbols(prefix: &str, main: Divergence, upstream: Divergence, working_tree: &str) -> StatusSymbols {
    StatusSymbols::new(prefix.to_string(), main, upstream, working_tree.to_string())
}

fn worktree_info(status_symbols: StatusSymbols, user_status: Option<&str>) -> WorktreeInfo {
    WorktreeInfo {
        worktree: Worktree {
            path: "/repo/feature".to_string(),
            head: "0123456789abcdef".to_string(),
            branch: Some("feature".to_string()),
            bare: false,
            detached: false,
            locked: None,
            prunable: None,
        },
        commit: CommitDetails { timestamp: 10, commit_message: "message".to_string() },
        counts: AheadBehind { ahead: 0, behind: 0 },
        working_tree_diff: (0, 0),
        working_tree_diff_with_main: None,
        branch_diff: BranchDiffTotals { diff: (0, 0) },
        is_primary: false,
        upstream: UpstreamStatus::default(),
        worktree_state: None,
        pr_status: None,
        has_conflicts: false,
        status_symbols,
        user_status: user_status.map(|s| s.to_string()),
        display: DisplayFields::default(),
        working_diff_display: None,
    }
}

fn branch_info(user_status: Option<&str>) -> BranchInfo {
    BranchInfo {
        name: "topic".to_string(),
        head: "fedcba9876543210".to_string(),
        commit: CommitDetails { timestamp: 5, commit_message: "message".to_string() },
        counts: AheadBehind { ahead: 0, behind: 0 },
        branch_diff: BranchDiffTotals { diff: (0, 0) },
        upstream: UpstreamStatus::default(),
        pr_status: None,
        has_conflicts: false,
        user_status: user_status.map(|s| s.to_string()),
        display: DisplayFields::default(),
    }
}

#[test]
fn render_of_empty_symbols_is_empty() {
    let s = StatusSymbols::default();
    assert!(s.is_empty());
    assert_eq!(s.render(), "");
}

#[test]
fn render_is_the_same_on_every_call() {
    let s = symbols("=", Divergence::Ahead, Divergence::Level, "?!");
    let first = s.render();
    let second = s.render();
    assert_eq!(first, second);
    assert_eq!(first, "=↑ ?!");
}

#[test]
fn render_keeps_each_slot_in_its_column() {
    assert_eq!(symbols("", Divergence::Level, Divergence::Level, "?").render(), "   ?");
    assert_eq!(symbols("", Divergence::Level, Divergence::Behind, "").render(), "  ⇣");
    assert_eq!(symbols("", Divergence::Diverged, Divergence::Level, "").render(), " ↕");
    assert_eq!(symbols("≡", Divergence::Level, Divergence::Level, "").render(), "≡");
    assert_eq!(symbols("=↻", Divergence::Level, Divergence::Diverged, "+").render(), "=↻ ⇅+");
    assert_eq!(symbols("∅", Divergence::Behind, Divergence::Ahead, "?!+»✘").render(), "∅↓⇡?!+»✘");
}

#[test]
fn render_has_no_trailing_placeholder() {
    for (s, last) in [
        (symbols("=", Divergence::Level, Divergence::Level, ""), '='),
        (symbols("", Divergence::Ahead, Divergence::Level, ""), '↑'),
        (symbols("", Divergence::Level, Divergence::Ahead, ""), '⇡'),
    ] {
        let rendered = s.render();
        assert_eq!(rendered.chars().last(), Some(last));
        assert!(!rendered.ends_with(' '));
    }
}

#[test]
fn render_length_counts_placeholders_up_to_the_last_filled_slot() {
    assert_eq!(symbols("", Divergence::Level, Divergence::Level, "").render().chars().count(), 0);
    assert_eq!(symbols("=", Divergence::Level, Divergence::Level, "").render().chars().count(), 1);
    assert_eq!(symbols("", Divergence::Ahead, Divergence::Level, "").render().chars().count(), 2);
    assert_eq!(symbols("", Divergence::Level, Divergence::Ahead, "").render().chars().count(), 3);
    assert_eq!(symbols("", Divergence::Level, Divergence::Level, "!").render().chars().count(), 4);
    assert_eq!(symbols("=≡", Divergence::Level, Divergence::Level, "!+").render().chars().count(), 6);
}

#[test]
fn divergence_from_counts() {
    assert_eq!(Divergence::from_counts(0, 0), Divergence::Level);
    assert_eq!(Divergence::from_counts(3, 0), Divergence::Ahead);
    assert_eq!(Divergence::from_counts(0, 7), Divergence::Behind);
    assert_eq!(Divergence::from_counts(1, 1), Divergence::Diverged);
}

#[test]
fn divergence_symbols_are_single_and_distinct() {
    assert_eq!(Divergence::Level.main_symbol(), None);
    assert_eq!(Divergence::Ahead.main_symbol(), Some('↑'));
    assert_eq!(Divergence::Behind.main_symbol(), Some('↓'));
    assert_eq!(Divergence::Diverged.main_symbol(), Some('↕'));
    assert_eq!(Divergence::Level.upstream_symbol(), None);
    assert_eq!(Divergence::Ahead.upstream_symbol(), Some('⇡'));
    assert_eq!(Divergence::Behind.upstream_symbol(), Some('⇣'));
    assert_eq!(Divergence::Diverged.upstream_symbol(), Some('⇅'));
}

#[test]
fn parse_clean_status() {
    let info = parse_git_status("", 0, 0, 0, 0);
    assert!(!info.is_dirty);
    assert!(info.symbols.is_empty());
    assert_eq!(info.symbols.render(), "");
}

#[test]
fn parse_sets_divergence_slots_from_counts() {
    let info = parse_git_status("", 2, 0, 0, 3);
    assert!(!info.is_dirty);
    assert_eq!(info.symbols.main_divergence(), Divergence::Ahead);
    assert_eq!(info.symbols.upstream_divergence(), Divergence::Behind);
    assert_eq!(info.symbols.render(), " ↑⇣");
    let both = parse_git_status("", 1, 1, 4, 4);
    assert_eq!(both.symbols.render(), " ↕⇅");
}

#[test]
fn parse_classifies_each_line() {
    let info = parse_git_status("?? new.txt\n M changed.txt\nA  added.txt\nR  a -> b\n D gone.txt\n", 0, 0, 0, 0);
    assert!(info.is_dirty);
    assert_eq!(info.symbols.prefix(), "");
    assert_eq!(info.symbols.working_tree(), "?!+»✘");
    assert_eq!(info.symbols.render(), "   ?!+»✘");
}

#[test]
fn parse_emits_working_tree_markers_in_fixed_order() {
    let info = parse_git_status(" D gone\nR  a -> b\nM  staged\n M changed\n?? new\n", 0, 0, 0, 0);
    assert_eq!(info.symbols.working_tree(), "?!+»✘");
}

#[test]
fn parse_marks_unmerged_paths_as_conflict() {
    for report in ["UU both.txt\n", "AU x\n", "UD x\n", "DD x\n", "AA x\n", "DU x\n", "UA x\n"] {
        let info = parse_git_status(report, 0, 0, 0, 0);
        assert!(info.is_dirty, "{report}");
        assert_eq!(info.symbols.prefix(), "=", "{report}");
    }
    let staged = parse_git_status("AM x\n", 0, 0, 0, 0);
    assert_eq!(staged.symbols.prefix(), "");
    assert_eq!(staged.symbols.working_tree(), "!+");
}

#[test]
fn parse_one_line_may_set_several_markers() {
    let info = parse_git_status("MD file\n", 0, 0, 0, 0);
    assert_eq!(info.symbols.working_tree(), "+✘");
    let both_deleted = parse_git_status("DD file\n", 0, 0, 0, 0);
    assert_eq!(both_deleted.symbols.prefix(), "=");
    assert_eq!(both_deleted.symbols.working_tree(), "✘");
}

#[test]
fn parse_staged_excludes_delete_and_rename() {
    assert_eq!(parse_git_status("D  gone\n", 0, 0, 0, 0).symbols.working_tree(), "✘");
    assert_eq!(parse_git_status("R  a -> b\n", 0, 0, 0, 0).symbols.working_tree(), "»");
    assert_eq!(parse_git_status("C  a -> b\n", 0, 0, 0, 0).symbols.working_tree(), "+");
}

#[test]
fn parse_skips_lines_shorter_than_two_bytes() {
    let info = parse_git_status("\nM\n\n", 0, 0, 0, 0);
    assert!(!info.is_dirty);
    assert!(info.symbols.is_empty());
}

#[test]
fn parse_takes_a_last_line_without_line_feed() {
    let info = parse_git_status("?? a\n M b", 0, 0, 0, 0);
    assert!(info.is_dirty);
    assert_eq!(info.symbols.working_tree(), "?!");
}

#[test]
fn parse_strips_carriage_return_before_line_feed_only() {
    // "M\r\n" is the one-byte line "M": too short to count.
    let crlf = parse_git_status("M\r\n", 0, 0, 0, 0);
    assert!(!crlf.is_dirty);
    // Without a line feed the carriage return stays, and the line has two bytes.
    let bare = parse_git_status("M\r", 0, 0, 0, 0);
    assert!(bare.is_dirty);
    assert_eq!(bare.symbols.working_tree(), "+");
    let full = parse_git_status(" M file\r\n?? other\r\n", 0, 0, 0, 0);
    assert_eq!(full.symbols.working_tree(), "?!");
}

#[test]
fn parse_counts_bytes_not_characters() {
    // One character of two bytes: a line long enough to make the tree dirty,
    // with codes that mean nothing.
    let info = parse_git_status("é\n", 0, 0, 0, 0);
    assert!(info.is_dirty);
    assert_eq!(info.symbols.working_tree(), "");
    assert_eq!(info.symbols.prefix(), "");
}

#[test]
fn symbols_clone_keeps_the_slots() {
    let s = symbols("=", Divergence::Ahead, Divergence::Behind, "?");
    let c = s.clone();
    assert_eq!(c.prefix(), "=");
    assert_eq!(c.main_divergence(), Divergence::Ahead);
    assert_eq!(c.upstream_divergence(), Divergence::Behind);
    assert_eq!(c.working_tree(), "?");
    assert_eq!(c.render(), s.render());
}

#[test]
fn branch_combined_status_without_user_status_is_a_dot() {
    let item = ListItem::Branch(branch_info(None));
    assert_eq!(item.combined_status(), "·");
    assert_eq!(branch_info(None).combined_status(), "·");
}

#[test]
fn branch_combined_status_is_the_user_status() {
    let item = ListItem::Branch(branch_info(Some("🚧")));
    assert_eq!(item.combined_status(), "🚧");
}

#[test]
fn worktree_combined_status_without_anything_is_empty() {
    let item = ListItem::Worktree(worktree_info(StatusSymbols::default(), None));
    assert_eq!(item.combined_status(), "");
}

#[test]
fn worktree_combined_status_joins_symbols_and_user_status() {
    let s = symbols("", Divergence::Ahead, Divergence::Level, "!");
    assert_eq!(worktree_info(s.clone(), None).combined_status(), " ↑ !");
    assert_eq!(worktree_info(s, Some("wip")).combined_status(), " ↑ !wip");
    assert_eq!(worktree_info(StatusSymbols::default(), Some("wip")).combined_status(), "wip");
}

#[test]
fn list_item_accessors() {
    let wt = ListItem::Worktree(worktree_info(StatusSymbols::default(), None));
    let br = ListItem::Branch(branch_info(None));
    assert_eq!(wt.branch_name(), "feature");
    assert_eq!(br.branch_name(), "topic");
    assert!(!wt.is_primary());
    assert!(!br.is_primary());
    assert_eq!(wt.commit_timestamp(), 10);
    assert_eq!(br.commit_timestamp(), 5);
    assert_eq!(wt.head(), "0123456789abcdef");
    assert_eq!(br.head(), "fedcba9876543210");
    assert_eq!(wt.commit_details().commit_message, "message");
    assert_eq!(wt.counts().ahead, 0);
    assert_eq!(br.branch_diff().diff, (0, 0));
    assert!(wt.upstream().active().is_none());
    assert!(wt.worktree_info().is_some());
    assert!(br.worktree_info().is_none());
    assert_eq!(wt.worktree_path().map(|p| p.as_str()), Some("/repo/feature"));
    assert!(br.worktree_path().is_none());
    assert!(wt.pr_status().is_none());
}

#[test]
fn detached_worktree_has_a_placeholder_name() {
    let mut info = worktree_info(StatusSymbols::default(), None);
    info.worktree.branch = None;
    info.is_primary = true;
    let item = ListItem::Worktree(info);
    assert_eq!(item.branch_name(), "(detached)");
    assert!(item.is_primary());
}

#[test]
fn upstream_status_parts() {
    let up = UpstreamStatus::from_parts(Some("origin".to_string()), 4, 1);
    assert_eq!(up.active(), Some(("origin", 4, 1)));
    let none = UpstreamStatus::from_parts(None, 4, 1);
    assert_eq!(none.active(), None);
    assert_eq!(up.clone().active(), Some(("origin", 4, 1)));
    let zero = AheadBehind::default();
    assert_eq!((zero.ahead, zero.behind), (0, 0));
    assert_eq!(BranchDiffTotals::default().diff, (0, 0));
}
