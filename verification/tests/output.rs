use wt_core::accessor::GitError;
use wt_core::output::{
    command_outcome, format_remove_message_plain, format_switch_message_plain,
    handle_remove_output, handle_switch_output, merged_command, shell_integration_hint,
    OutputAction, RemoveResult, SwitchResult,
};

fn texts(actions: &[OutputAction]) -> Vec<String> {
    actions
        .iter()
        .map(|a| match a {
            OutputAction::ChangeDirectory(p) => format!("cd:{p}"),
            OutputAction::Success(m) => format!("ok:{m}"),
            OutputAction::Hint(m) => format!("hint:{m}"),
            OutputAction::Execute(c) => format!("run:{c}"),
            OutputAction::Flush => "flush".to_string(),
        })
        .collect()
}

#[test]
fn switch_message_for_an_existing_worktree() {
    let result = SwitchResult::ExistingWorktree("/repo.feature".to_string());
    assert_eq!(
        format_switch_message_plain(&result, "feature"),
        "Switched to worktree for \u{1b}[1mfeature\u{1b}[0m at /repo.feature"
    );
    assert_eq!(result.path(), "/repo.feature");
}

#[test]
fn switch_message_for_a_created_worktree() {
    let created = SwitchResult::CreatedWorktree { path: "/repo.x".to_string(), created_branch: true };
    assert_eq!(
        format_switch_message_plain(&created, "x"),
        "Created new worktree for \u{1b}[1mx\u{1b}[0m at /repo.x"
    );
    let added = SwitchResult::CreatedWorktree { path: "/repo.x".to_string(), created_branch: false };
    assert_eq!(
        format_switch_message_plain(&added, "x"),
        "Added worktree for \u{1b}[1mx\u{1b}[0m at /repo.x"
    );
    assert_eq!(added.path(), "/repo.x");
}

#[test]
fn remove_messages() {
    assert_eq!(
        format_remove_message_plain(&RemoveResult::AlreadyOnDefault("main".to_string())),
        "Already on default branch \u{1b}[1mmain\u{1b}[0m"
    );
    assert_eq!(
        format_remove_message_plain(&RemoveResult::RemovedWorktree { primary_path: "/repo".to_string() }),
        "Removed worktree, returned to primary at /repo"
    );
    assert_eq!(
        format_remove_message_plain(&RemoveResult::SwitchedToDefault("main".to_string())),
        "Switched to default branch \u{1b}[1mmain\u{1b}[0m"
    );
    assert_eq!(
        format_remove_message_plain(&RemoveResult::RemovedOtherWorktree { branch: "old".to_string() }),
        "Removed worktree for \u{1b}[1mold\u{1b}[0m"
    );
}

#[test]
fn hint_names_the_command() {
    assert_eq!(shell_integration_hint(), "To enable automatic cd, run: wt configure-shell");
}

#[test]
fn switch_without_a_command_shows_the_hint() {
    let result = SwitchResult::ExistingWorktree("/repo.feature".to_string());
    let actions = handle_switch_output(&result, "feature", None);
    assert_eq!(
        texts(&actions),
        vec![
            "cd:/repo.feature".to_string(),
            "ok:Switched to worktree for \u{1b}[1mfeature\u{1b}[0m at /repo.feature".to_string(),
            "hint:\nTo enable automatic cd, run: wt configure-shell".to_string(),
            "flush".to_string(),
        ]
    );
}

#[test]
fn switch_with_a_command_runs_it() {
    let result = SwitchResult::CreatedWorktree { path: "/repo.x".to_string(), created_branch: true };
    let actions = handle_switch_output(&result, "x", Some("cargo test"));
    assert_eq!(
        texts(&actions),
        vec![
            "cd:/repo.x".to_string(),
            "ok:Created new worktree for \u{1b}[1mx\u{1b}[0m at /repo.x".to_string(),
            "run:cargo test".to_string(),
            "flush".to_string(),
        ]
    );
}

#[test]
fn removal_of_the_current_worktree_changes_directory() {
    let actions = handle_remove_output(&RemoveResult::RemovedWorktree { primary_path: "/repo".to_string() });
    assert_eq!(
        texts(&actions),
        vec![
            "cd:/repo".to_string(),
            "ok:Removed worktree, returned to primary at /repo".to_string(),
            "flush".to_string(),
        ]
    );
}

#[test]
fn other_removals_stay_where_they_are() {
    for (result, message) in [
        (RemoveResult::AlreadyOnDefault("main".to_string()), "Already on default branch \u{1b}[1mmain\u{1b}[0m"),
        (RemoveResult::SwitchedToDefault("main".to_string()), "Switched to default branch \u{1b}[1mmain\u{1b}[0m"),
        (RemoveResult::RemovedOtherWorktree { branch: "old".to_string() }, "Removed worktree for \u{1b}[1mold\u{1b}[0m"),
    ] {
        let actions = handle_remove_output(&result);
        assert_eq!(texts(&actions), vec![format!("ok:{message}"), "flush".to_string()]);
    }
}

#[test]
fn command_is_wrapped_to_merge_its_output() {
    assert_eq!(merged_command("echo hi"), "{ echo hi; } 1>&2");
    assert_eq!(merged_command(""), "{ ; } 1>&2");
}

#[test]
fn failed_command_names_its_status() {
    assert!(command_outcome(true, "exit status: 0").is_ok());
    match command_outcome(false, "exit status: 2") {
        Err(GitError::CommandFailed(m)) => assert_eq!(m, "Command failed with exit code: exit status: 2"),
        _ => panic!("expected a failure"),
    }
}
