use wt_core::age::format_relative_time;
use wt_core::model::{
    AheadBehind, BranchDiffTotals, BranchInfo, CommitDetails, DisplayFields, ListItem,
    UpstreamStatus, Worktree, WorktreeInfo,
};
use wt_core::render::{
    format_all_states, format_header_line, format_list_item_line, ColumnWidths, DiffWidths,
    LayoutConfig,
};
use wt_core::styling::{Color, Style, StyledLine, StyledString};
use wt_core::symbols::StatusSymbols;
use wt_core::text::{
    contains_char, contains_text, decimal_string, pad_end, pad_start, repeat_space, shorten_path,
    take_chars, truncate_at_word_boundary,
};

fn test_info() -> WorktreeInfo {
    WorktreeInfo {
        worktree: Worktree {
            path: "/test/path".to_string(),
            head: "abc12345".to_string(),
            branch: Some("test-branch".to_string()),
            bare: false,
            detached: false,
            locked: Some("test lck".to_string()), // "(locked: test lck)" = 18 chars
            prunable: None,
        },
        commit: CommitDetails { timestamp: 0, commit_message: "Test message".to_string() },
        counts: AheadBehind { ahead: 3, behind: 2 },
        working_tree_diff: (100, 50),
        working_tree_diff_with_main: None,
        branch_diff: BranchDiffTotals { diff: (200, 30) },
        is_primary: false,
        upstream: UpstreamStatus::from_parts(Some("origin".to_string()), 4, 0),
        worktree_state: None,
        pr_status: None,
        has_conflicts: false,
        status_symbols: StatusSymbols::default(),
        user_status: None,
        display: DisplayFields::default(),
        working_diff_display: None,
    }
}

fn test_layout() -> LayoutConfig {
    LayoutConfig {
        widths: ColumnWidths {
            branch: 11,
            time: 13,
            message: 12,
            ahead_behind: 5,
            working_diff: DiffWidths { total: 8, added_digits: 3, deleted_digits: 2 },
            branch_diff: DiffWidths { total: 8, added_digits: 3, deleted_digits: 2 },
            upstream: 12,
            states: 18,
        },
        common_prefix: "/test".to_string(),
        max_message_len: 12,
    }
}

fn test_branch() -> BranchInfo {
    BranchInfo {
        name: "topic".to_string(),
        head: "fedcba9876543210".to_string(),
        commit: CommitDetails { timestamp: 5, commit_message: "A branch".to_string() },
        counts: AheadBehind { ahead: 0, behind: 0 },
        branch_diff: BranchDiffTotals { diff: (0, 0) },
        upstream: UpstreamStatus::default(),
        pr_status: None,
        has_conflicts: false,
        user_status: None,
        display: DisplayFields::default(),
    }
}

/// Nine months of thirty days after the commits of the test data.
const NINE_MONTHS: i64 = 9 * 30 * 86_400;

fn plain(line: &StyledLine) -> String {
    line.segments.iter().map(|s| s.text.as_str()).collect()
}

#[test]
fn test_column_alignment_with_all_columns() {
    // Create test data with all columns populated
    let info = test_info();
    let layout = test_layout();

    // Build header line manually (mimicking format_header_line logic)
    let mut header = StyledLine::new();
    header.push_raw(&format!("{:width$}", "Branch", width = layout.widths.branch));
    header.push_raw("  ");
    header.push_raw(&format!("{:width$}", "Age", width = layout.widths.time));
    header.push_raw("  ");
    header.push_raw(&format!("{:width$}", "Cmts", width = layout.widths.ahead_behind));
    header.push_raw("  ");
    header.push_raw(&format!("{:width$}", "Cmt +/-", width = layout.widths.branch_diff.total));
    header.push_raw("  ");
    header.push_raw(&format!("{:width$}", "WT +/-", width = layout.widths.working_diff.total));
    header.push_raw("  ");
    header.push_raw(&format!("{:width$}", "Remote", width = layout.widths.upstream));
    header.push_raw("  ");
    header.push_raw("Commit  ");
    header.push_raw("  ");
    header.push_raw(&format!("{:width$}", "Message", width = layout.widths.message));
    header.push_raw("  ");
    header.push_raw(&format!("{:width$}", "State", width = layout.widths.states));
    header.push_raw("  ");
    header.push_raw("Path");

    // Build data line manually (mimicking format_worktree_line logic)
    let mut data = StyledLine::new();
    data.push_raw(&format!("{:width$}", "test-branch", width = layout.widths.branch));
    data.push_raw("  ");
    data.push_raw(&format!("{:width$}", "9 months ago", width = layout.widths.time));
    data.push_raw("  ");
    // Ahead/behind
    let ahead_behind_text = format!("{:width$}", "↑3 ↓2", width = layout.widths.ahead_behind);
    data.push_raw(&ahead_behind_text);
    data.push_raw("  ");
    // Branch diff
    let mut branch_diff_segment = StyledLine::new();
    branch_diff_segment.push_raw("+200 -30");
    branch_diff_segment.pad_to(layout.widths.branch_diff.total);
    for seg in branch_diff_segment.segments {
        data.push(seg);
    }
    data.push_raw("  ");
    // Working diff
    let mut working_diff_segment = StyledLine::new();
    working_diff_segment.push_raw("+100 -50");
    working_diff_segment.pad_to(layout.widths.working_diff.total);
    for seg in working_diff_segment.segments {
        data.push(seg);
    }
    data.push_raw("  ");
    // Upstream
    let mut upstream_segment = StyledLine::new();
    upstream_segment.push_raw("origin ↑4 ↓0");
    upstream_segment.pad_to(layout.widths.upstream);
    for seg in upstream_segment.segments {
        data.push(seg);
    }
    data.push_raw("  ");
    // Commit (fixed 8 chars)
    data.push_raw("abc12345");
    data.push_raw("  ");
    // Message
    data.push_raw(&format!("{:width$}", "Test message", width = layout.widths.message));
    data.push_raw("  ");
    // State
    let states = format_all_states(&info);
    data.push_raw(&format!("{:width$}", states, width = layout.widths.states));
    data.push_raw("  ");
    // Path
    data.push_raw(&shorten_path(&info.worktree.path, &layout.common_prefix));

    // Verify both lines have columns at the same positions
    let header_str = header.render();
    let data_str = data.render();

    assert!(header_str.contains("Branch"));
    assert!(data_str.contains("test-branch"));

    // The key test: both lines should have the same visual width up to "Path" column
    // (Path is variable width, so we only check up to there)
    let header_width_without_path = header.width() - "Path".len();
    let data_width_without_path =
        data.width() - shorten_path(&info.worktree.path, &layout.common_prefix).len();

    assert_eq!(
        header_width_without_path, data_width_without_path,
        "Header and data rows should have same width before Path column"
    );
}

#[test]
fn formatted_lines_match_the_lines_built_by_hand() {
    let layout = test_layout();
    let item = ListItem::Worktree(test_info());
    let header = format_header_line(&layout);
    let row = format_list_item_line(&item, &layout, &None, NINE_MONTHS);
    assert_eq!(
        plain(&header),
        "Branch       Age            Cmts   Cmt +/-   WT +/-    Remote        Commit    Message       State               Path"
    );
    assert_eq!(
        plain(&row),
        "test-branch  9 months ago   ↑3 ↓2  +200 -30  +100 -50  origin ↑4 ↓0  abc12345  Test message  (locked: test lck)  ./path"
    );
    assert_eq!(header.width() - 4, row.width() - "./path".len());
}

#[test]
fn header_and_rows_align_for_any_set_of_columns() {
    let item = ListItem::Worktree(test_info());
    let branch = ListItem::Branch(test_branch());
    let mut primary_info = test_info();
    primary_info.is_primary = true;
    let primary = ListItem::Worktree(primary_info);
    for mask in 0..128u32 {
        let mut layout = test_layout();
        if mask & 1 == 0 {
            layout.widths.time = 0;
        }
        if mask & 2 == 0 {
            layout.widths.ahead_behind = 0;
        }
        if mask & 4 == 0 {
            layout.widths.branch_diff = DiffWidths { total: 0, added_digits: 0, deleted_digits: 0 };
        }
        if mask & 8 == 0 {
            layout.widths.working_diff = DiffWidths { total: 0, added_digits: 0, deleted_digits: 0 };
        }
        if mask & 16 == 0 {
            layout.widths.upstream = 0;
        }
        if mask & 32 == 0 {
            layout.widths.message = 0;
        }
        if mask & 64 == 0 {
            layout.widths.states = 0;
        }
        let header = format_header_line(&layout);
        let expected = header.width() - "Path".len();
        let row = format_list_item_line(&item, &layout, &None, NINE_MONTHS);
        assert_eq!(row.width() - "./path".len(), expected, "worktree, columns {mask:07b}");
        let row = format_list_item_line(&primary, &layout, &None, NINE_MONTHS);
        assert_eq!(row.width() - "./path".len(), expected, "primary, columns {mask:07b}");
        let row = format_list_item_line(&branch, &layout, &None, NINE_MONTHS);
        assert_eq!(row.width(), expected, "branch, columns {mask:07b}");
    }
}

#[test]
fn narrowest_table_has_branch_commit_and_path() {
    let mut layout = test_layout();
    layout.widths = ColumnWidths {
        branch: 6,
        time: 0,
        message: 0,
        ahead_behind: 0,
        working_diff: DiffWidths { total: 0, added_digits: 0, deleted_digits: 0 },
        branch_diff: DiffWidths { total: 0, added_digits: 0, deleted_digits: 0 },
        upstream: 0,
        states: 0,
    };
    assert_eq!(plain(&format_header_line(&layout)), "Branch  Commit    Path");
    let row = format_list_item_line(&ListItem::Branch(test_branch()), &layout, &None, 0);
    assert_eq!(plain(&row), "topic   fedcba98  ");
}

#[test]
fn header_is_dimmed_with_plain_gaps() {
    let header = format_header_line(&test_layout());
    assert_eq!(header.segments.len(), 19);
    for (i, segment) in header.segments.iter().enumerate() {
        if i % 2 == 0 {
            assert_eq!(segment.style, Some(Style::dimmed()));
        } else {
            assert_eq!(segment.text, "  ");
            assert_eq!(segment.style, None);
        }
    }
}

#[test]
fn current_and_primary_rows_are_highlighted() {
    let layout = test_layout();
    let mut info = test_info();
    info.is_primary = true;
    let item = ListItem::Worktree(info);
    // Primary, not current.
    let row = format_list_item_line(&item, &layout, &Some("/elsewhere".to_string()), NINE_MONTHS);
    assert_eq!(row.segments[0].style, Some(Style::primary()));
    assert_eq!(row.segments.last().unwrap().style, Some(Style::primary()));
    // Current wins over primary.
    let row = format_list_item_line(&item, &layout, &Some("/test/path".to_string()), NINE_MONTHS);
    assert_eq!(row.segments[0].style, Some(Style::current()));
    assert_eq!(row.segments.last().unwrap().style, Some(Style::current()));
    // The highlight is on the name and the path only.
    let commit = row.segments.iter().find(|s| s.text == "abc12345").unwrap();
    assert_eq!(commit.style, Some(Style::dimmed()));
    let highlighted = row.segments.iter().filter(|s| s.style == Some(Style::current())).count();
    assert_eq!(highlighted, 2);
    // Neither: plain name and path, dimmed commit.
    let other = ListItem::Worktree(test_info());
    let row = format_list_item_line(&other, &layout, &None, NINE_MONTHS);
    assert_eq!(row.segments[0].style, None);
    assert_eq!(row.segments.last().unwrap().style, None);
    let commit = row.segments.iter().find(|s| s.text == "abc12345").unwrap();
    assert_eq!(commit.style, Some(Style::dimmed()));
    assert_ne!(Style::current(), Style::primary());
}

#[test]
fn commit_counts_are_dimmed() {
    let row = format_list_item_line(&ListItem::Worktree(test_info()), &test_layout(), &None, NINE_MONTHS);
    let counts = row.segments.iter().find(|s| s.text == "↑3 ↓2").unwrap();
    assert_eq!(counts.style, Some(Style::dimmed()));
}

#[test]
fn diff_totals_carry_two_styles() {
    let layout = test_layout();
    let row = format_list_item_line(&ListItem::Worktree(test_info()), &layout, &None, NINE_MONTHS);
    let added: Vec<&StyledString> =
        row.segments.iter().filter(|s| s.style == Some(Style::addition())).collect();
    let deleted: Vec<&StyledString> =
        row.segments.iter().filter(|s| s.style == Some(Style::deletion())).collect();
    let texts = |v: &Vec<&StyledString>| v.iter().map(|s| s.text.clone()).collect::<Vec<String>>();
    assert_eq!(texts(&added), vec!["+200", "+100", "↑4"]);
    assert_eq!(texts(&deleted), vec![" -30", " -50", "↓0"]);
}

#[test]
fn diff_numbers_are_right_aligned_in_their_digits() {
    let mut layout = test_layout();
    layout.widths.branch_diff = DiffWidths { total: 10, added_digits: 4, deleted_digits: 3 };
    let mut info = test_info();
    info.branch_diff = BranchDiffTotals { diff: (7, 0) };
    let row = format_list_item_line(&ListItem::Worktree(info), &layout, &None, NINE_MONTHS);
    let added = row.segments.iter().find(|s| s.style == Some(Style::addition())).unwrap();
    let deleted = row.segments.iter().find(|s| s.style == Some(Style::deletion())).unwrap();
    assert_eq!(added.text, "+   7");
    assert_eq!(deleted.text, " -  0");
}

#[test]
fn primary_and_zero_totals_show_as_spaces() {
    let layout = test_layout();
    let mut info = test_info();
    info.is_primary = true;
    info.working_tree_diff = (0, 0);
    let row = format_list_item_line(&ListItem::Worktree(info), &layout, &None, NINE_MONTHS);
    assert_eq!(
        plain(&row),
        format!(
            "{:11}  {:13}  {:5}  {:8}  {:8}  {:12}  {:8}  {:12}  {:18}  {}",
            "test-branch", "9 months ago", "", "", "", "origin ↑4 ↓0", "abc12345", "Test message",
            "(locked: test lck)", "./path"
        )
    );
    let row = format_list_item_line(&ListItem::Branch(test_branch()), &layout, &None, NINE_MONTHS);
    assert_eq!(
        plain(&row),
        format!(
            "{:11}  {:13}  {:5}  {:8}  {:8}  {:12}  {:8}  {:12}  {:18}  ",
            "topic", "8 months ago", "", "", "", "", "fedcba98", "A branch", ""
        )
    );
}

#[test]
fn message_is_truncated_to_the_layout() {
    let mut layout = test_layout();
    layout.max_message_len = 8;
    layout.widths.message = 8;
    let row = format_list_item_line(&ListItem::Worktree(test_info()), &layout, &None, NINE_MONTHS);
    assert!(plain(&row).contains("  Test…     (locked"));
}

#[test]
fn states_in_display_order() {
    let mut info = test_info();
    assert_eq!(format_all_states(&info), "(locked: test lck)");
    info.worktree_state = Some("rebase".to_string());
    info.worktree.detached = true;
    info.worktree.bare = true;
    info.worktree.locked = Some(String::new());
    info.worktree.prunable = Some("gitdir missing".to_string());
    assert_eq!(
        format_all_states(&info),
        "[rebase] (detached) (bare) (locked) (prunable: gitdir missing)"
    );
    info.worktree.prunable = Some(String::new());
    info.worktree.branch = None;
    info.worktree_state = None;
    assert_eq!(format_all_states(&info), "(bare) (locked) (prunable)");
    info.worktree.bare = false;
    info.worktree.locked = None;
    info.worktree.prunable = None;
    assert_eq!(format_all_states(&info), "");
}

#[test]
fn truncation_stops_at_a_word_boundary() {
    assert_eq!(truncate_at_word_boundary("Test message", 12), "Test message");
    assert_eq!(truncate_at_word_boundary("Test message", 11), "Test…");
    assert_eq!(truncate_at_word_boundary("Fix the parser for good", 16), "Fix the parser…");
    // A word that ends where the room ends stays whole.
    assert_eq!(truncate_at_word_boundary("Fix the parser for good", 15), "Fix the parser…");
    assert_eq!(truncate_at_word_boundary("Fix the parser for good", 14), "Fix the…");
    assert_eq!(truncate_at_word_boundary("one   two three", 9), "one…");
    assert_eq!(truncate_at_word_boundary("", 0), "");
    assert_eq!(truncate_at_word_boundary("word", 0), "");
    assert_eq!(truncate_at_word_boundary("word", 1), "…");
    // A first word that is too long is left out, not cut in two.
    assert_eq!(truncate_at_word_boundary("Supercalifragilistic", 6), "…");
    assert_eq!(truncate_at_word_boundary("Supercalifragilistic expialidocious", 21), "Supercalifragilistic…");
    assert_eq!(truncate_at_word_boundary("Supercalifragilistic expialidocious", 20), "…");
    assert_eq!(truncate_at_word_boundary("héllo wörld again", 12), "héllo wörld…");
    assert_eq!(truncate_at_word_boundary("héllo wörld again", 13), "héllo wörld…");
}

#[test]
fn truncated_text_fits_the_maximum() {
    let text = "The quick brown fox jumps over the lazy dog";
    for max in 1..50usize {
        let out = truncate_at_word_boundary(text, max);
        assert!(out.chars().count() <= max, "{max}: {out}");
        if text.chars().count() > max {
            assert!(out.ends_with('…'));
            assert!(!out.ends_with(" …"));
        } else {
            assert_eq!(out, text);
        }
    }
}

#[test]
fn paths_are_shortened_by_the_common_prefix() {
    assert_eq!(shorten_path("/test/path", "/test"), "./path");
    assert_eq!(shorten_path("/test", "/test"), ".");
    assert_eq!(shorten_path("/test/a/b", "/test"), "./a/b");
    assert_eq!(shorten_path("/testing/a", "/test"), "/testing/a");
    assert_eq!(shorten_path("/other/path", "/test"), "/other/path");
    assert_eq!(shorten_path("/te", "/test"), "/te");
    assert_eq!(shorten_path("/test/path", ""), "/test/path");
    assert_eq!(shorten_path("", ""), ".");
}

#[test]
fn ages_in_words() {
    assert_eq!(format_relative_time(100, 99), "in the future");
    assert_eq!(format_relative_time(100, 100), "just now");
    assert_eq!(format_relative_time(100, 159), "just now");
    assert_eq!(format_relative_time(100, 160), "1 minute ago");
    assert_eq!(format_relative_time(0, 3_599), "59 minutes ago");
    assert_eq!(format_relative_time(0, 3_600), "1 hour ago");
    assert_eq!(format_relative_time(0, 86_399), "23 hours ago");
    assert_eq!(format_relative_time(0, 86_400), "1 day ago");
    assert_eq!(format_relative_time(0, 6 * 86_400), "6 days ago");
    assert_eq!(format_relative_time(0, 7 * 86_400), "1 week ago");
    assert_eq!(format_relative_time(0, 29 * 86_400), "4 weeks ago");
    assert_eq!(format_relative_time(0, 30 * 86_400), "1 month ago");
    assert_eq!(format_relative_time(0, NINE_MONTHS), "9 months ago");
    assert_eq!(format_relative_time(0, 364 * 86_400), "12 months ago");
    assert_eq!(format_relative_time(0, 365 * 86_400), "1 year ago");
    assert_eq!(format_relative_time(-5, 10 * 365 * 86_400), "10 years ago");
    assert_eq!(format_relative_time(i64::MIN, i64::MAX), "584942417355 years ago");
    assert_eq!(format_relative_time(i64::MAX, i64::MIN), "in the future");
}

#[test]
fn padding_counts_characters() {
    assert_eq!(pad_end("ab", 5), "ab   ");
    assert_eq!(pad_end("abcdef", 3), "abcdef");
    assert_eq!(pad_end("↑3 ↓2", 7), "↑3 ↓2  ");
    assert_eq!(pad_end("", 0), "");
    assert_eq!(pad_start("7", 3), "  7");
    assert_eq!(pad_start("1234", 3), "1234");
    assert_eq!(repeat_space(4), "    ");
    assert_eq!(repeat_space(0), "");
}

#[test]
fn numbers_in_decimal() {
    assert_eq!(decimal_string(0), "0");
    assert_eq!(decimal_string(9), "9");
    assert_eq!(decimal_string(10), "10");
    assert_eq!(decimal_string(1234567890), "1234567890");
    assert_eq!(decimal_string(usize::MAX), usize::MAX.to_string());
}

#[test]
fn text_searches() {
    assert!(contains_text("interactive rebase", "rebase"));
    assert!(contains_text("rebase", "rebase"));
    assert!(!contains_text("rebas", "rebase"));
    assert!(contains_text("anything", ""));
    assert!(!contains_text("", "merge"));
    assert!(contains_char("=≡", '≡'));
    assert!(!contains_char("=≡", '∅'));
    assert_eq!(take_chars("abc12345ff", 8), "abc12345");
    assert_eq!(take_chars("abc", 8), "abc");
    assert_eq!(take_chars("héllo", 2), "hé");
}

#[test]
fn short_commit_ids_are_filled_to_the_column() {
    let mut branch = test_branch();
    branch.head = "abc".to_string();
    let layout = test_layout();
    let row = format_list_item_line(&ListItem::Branch(branch), &layout, &None, NINE_MONTHS);
    assert!(row.segments.iter().any(|s| s.text == "abc     "));
    assert_eq!(row.width(), format_header_line(&layout).width() - "Path".len());
}

#[test]
fn diff_totals_are_filled_to_the_column() {
    let mut layout = test_layout();
    layout.widths.branch_diff = DiffWidths { total: 7, added_digits: 1, deleted_digits: 1 };
    let mut info = test_info();
    info.branch_diff = BranchDiffTotals { diff: (5, 3) };
    let shown = format_list_item_line(&ListItem::Worktree(info), &layout, &None, NINE_MONTHS);
    assert!(plain(&shown).contains("  +5 -3    +100 -50  "));
    let mut blank = test_info();
    blank.branch_diff = BranchDiffTotals { diff: (0, 0) };
    let hidden = format_list_item_line(&ListItem::Worktree(blank), &layout, &None, NINE_MONTHS);
    assert!(plain(&hidden).contains("           +100 -50  "));
    let header = format_header_line(&layout);
    assert_eq!(shown.width(), hidden.width());
    assert_eq!(shown.width() - "./path".len(), header.width() - "Path".len());
    let fill = &shown.segments[shown.segments.iter().position(|s| s.text == " -3").unwrap() + 1];
    assert_eq!((fill.text.as_str(), fill.style), ("  ", None));
}

#[test]
fn truncation_never_cuts_a_word() {
    let text = "The quick  brown fox jumps over the lazy dog";
    for max in 1..44usize {
        let out = truncate_at_word_boundary(text, max);
        let kept = out.strip_suffix('…').unwrap();
        assert!(text.starts_with(kept));
        assert!(kept.is_empty() || text[kept.len()..].starts_with(' '), "{max}: {out}");
        assert!(!kept.ends_with(' '));
    }
}

#[test]
fn styles_render_as_ansi_codes() {
    let mut line = StyledLine::new();
    line.push_styled("b", Style::bold());
    line.push_raw(" ");
    line.push_styled("d", Style::dimmed());
    line.push_styled("c", Style::current());
    line.push_styled("p", Style::primary());
    line.push_styled("n", Style::warning());
    line.push_styled("+", Style::addition());
    line.push_styled("-", Style::deletion());
    assert_eq!(
        line.render(),
        "\u{1b}[1mb\u{1b}[0m \u{1b}[2md\u{1b}[0m\u{1b}[1m\u{1b}[35mc\u{1b}[0m\u{1b}[36mp\u{1b}[0m\u{1b}[33mn\u{1b}[0m\u{1b}[32m+\u{1b}[0m\u{1b}[31m-\u{1b}[0m"
    );
    assert_eq!(line.width(), 8);
}

#[test]
fn plain_style_renders_no_code() {
    let mut out = String::from("x");
    Style { bold: false, dimmed: false, color: None }.write(&mut out, "plain");
    assert_eq!(out, "xplain");
    let mut out = String::new();
    Style { bold: true, dimmed: true, color: Some(Color::Yellow) }.write(&mut out, "all");
    assert_eq!(out, "\u{1b}[1m\u{1b}[2m\u{1b}[33mall\u{1b}[0m");
    assert_eq!(Color::Red.code(), 1);
    assert_eq!(Color::Green.code(), 2);
    assert_eq!(Color::Yellow.code(), 3);
    assert_eq!(Color::Magenta.code(), 5);
    assert_eq!(Color::Cyan.code(), 6);
}

#[test]
fn styled_line_pads_to_a_width() {
    let mut line = StyledLine::new();
    assert_eq!(line.width(), 0);
    assert_eq!(line.render(), "");
    line.push_raw("origin ↑4 ↓0");
    assert_eq!(line.width(), 12);
    line.pad_to(15);
    assert_eq!(line.width(), 15);
    assert_eq!(line.segments.len(), 2);
    assert_eq!(line.segments[1].text, "   ");
    line.pad_to(10);
    assert_eq!(line.segments.len(), 2);
    line.push(StyledString { text: "x".to_string(), style: Some(Style::addition()) });
    assert_eq!(line.width(), 16);
}
