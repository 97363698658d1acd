//! What to tell the user after a switch or a removal.
//!
//! The handlers decide what is put out and in which order; the caller
//! performs each action in turn and stops at the first that fails.

use vstd::prelude::*;
use crate::accessor::GitError;
use crate::styling::Style;

verus! {

/// How a switch to a branch's worktree ended.
#[derive(Debug)]
pub enum SwitchResult {
    /// The worktree was there already.
    ExistingWorktree(String),
    /// A worktree was made, and with it the branch if `created_branch`.
    CreatedWorktree { path: String, created_branch: bool },
}

impl SwitchResult {
    /// The path of the worktree switched to.
    pub open spec fn spec_path(&self) -> Seq<char> {
        match self {
            SwitchResult::ExistingWorktree(path) => path@,
            SwitchResult::CreatedWorktree { path, created_branch } => path@,
        }
    }

    /// The path of the worktree switched to.
    pub fn path(&self) -> (p: &String)
        ensures
            p@ == self.spec_path(),
    {
        match self {
            SwitchResult::ExistingWorktree(path) => path,
            SwitchResult::CreatedWorktree { path, created_branch: _ } => path,
        }
    }
}

/// How a removal ended.
#[derive(Debug)]
pub enum RemoveResult {
    AlreadyOnDefault(String),
    RemovedWorktree { primary_path: String },
    SwitchedToDefault(String),
    RemovedOtherWorktree { branch: String },
}

/// One action on the output.
#[derive(Debug)]
pub enum OutputAction {
    /// Make the shell change to this directory.
    ChangeDirectory(String),
    /// Show a message of success.
    Success(String),
    /// Show a hint.
    Hint(String),
    /// Run a command in the target directory.
    Execute(String),
    /// Flush what was put out.
    Flush,
}

/// An action as mathematical values.
pub enum ActionText {
    ChangeDirectory(Seq<char>),
    Success(Seq<char>),
    Hint(Seq<char>),
    Execute(Seq<char>),
    Flush,
}

impl View for OutputAction {
    type V = ActionText;

    open spec fn view(&self) -> ActionText {
        match self {
            OutputAction::ChangeDirectory(path) => ActionText::ChangeDirectory(path@),
            OutputAction::Success(message) => ActionText::Success(message@),
            OutputAction::Hint(message) => ActionText::Hint(message@),
            OutputAction::Execute(command) => ActionText::Execute(command@),
            OutputAction::Flush => ActionText::Flush,
        }
    }
}

/// The actions as mathematical values.
pub open spec fn actions_text(actions: Seq<OutputAction>) -> Seq<ActionText> {
    Seq::new(actions.len(), |i: int| actions[i]@)
}

/// A text in bold, as it is written to a terminal.
pub open spec fn in_bold(text: Seq<char>) -> Seq<char> {
    Style::spec_bold().wrap(text)
}

/// The message for a switch.
pub open spec fn switch_message(result: SwitchResult, branch: Seq<char>) -> Seq<char> {
    match result {
        SwitchResult::ExistingWorktree(path) => "Switched to worktree for "@ + in_bold(branch)
            + " at "@ + path@,
        SwitchResult::CreatedWorktree { path, created_branch } => if created_branch {
            "Created new worktree for "@ + in_bold(branch) + " at "@ + path@
        } else {
            "Added worktree for "@ + in_bold(branch) + " at "@ + path@
        },
    }
}

/// The message for a removal.
pub open spec fn remove_message(result: RemoveResult) -> Seq<char> {
    match result {
        RemoveResult::AlreadyOnDefault(branch) => "Already on default branch "@ + in_bold(
            branch@,
        ),
        RemoveResult::RemovedWorktree { primary_path } =>
            "Removed worktree, returned to primary at "@ + primary_path@,
        RemoveResult::SwitchedToDefault(branch) => "Switched to default branch "@ + in_bold(
            branch@,
        ),
        RemoveResult::RemovedOtherWorktree { branch } => "Removed worktree for "@ + in_bold(
            branch@,
        ),
    }
}

/// `lead`, then `name` in bold.
fn with_bold(lead: &str, name: &str) -> (out: String)
    ensures
        out@ == lead@ + in_bold(name@),
{
    let mut out = String::from_str(lead);
    Style::bold().write(&mut out, name);
    out
}

/// Format the plain message for a switch.
pub fn format_switch_message_plain(result: &SwitchResult, branch: &str) -> (out: String)
    ensures
        out@ == switch_message(*result, branch@),
{
    let lead = match result {
        SwitchResult::ExistingWorktree(_) => "Switched to worktree for ",
        SwitchResult::CreatedWorktree { path: _, created_branch } => if *created_branch {
            "Created new worktree for "
        } else {
            "Added worktree for "
        },
    };
    let mut out = with_bold(lead, branch);
    out.append(" at ");
    out.append(result.path().as_str());
    out
}

/// Format the plain message for a removal.
pub fn format_remove_message_plain(result: &RemoveResult) -> (out: String)
    ensures
        out@ == remove_message(*result),
{
    match result {
        RemoveResult::AlreadyOnDefault(branch) => with_bold(
            "Already on default branch ",
            branch.as_str(),
        ),
        RemoveResult::RemovedWorktree { primary_path } => {
            let mut out = String::from_str("Removed worktree, returned to primary at ");
            out.append(primary_path.as_str());
            out
        },
        RemoveResult::SwitchedToDefault(branch) => with_bold(
            "Switched to default branch ",
            branch.as_str(),
        ),
        RemoveResult::RemovedOtherWorktree { branch } => with_bold(
            "Removed worktree for ",
            branch.as_str(),
        ),
    }
}

/// The hint for users without shell integration.
pub fn shell_integration_hint() -> (hint: &'static str)
    ensures
        hint@ == "To enable automatic cd, run: wt configure-shell"@,
{
    "To enable automatic cd, run: wt configure-shell"
}

/// The actions after a switch: change to the worktree, show the message,
/// then run the command if one was given or else show the hint on a line
/// of its own, and flush.
pub open spec fn switch_actions(
    result: SwitchResult,
    branch: Seq<char>,
    execute: Option<Seq<char>>,
) -> Seq<ActionText> {
    seq![
        ActionText::ChangeDirectory(result.spec_path()),
        ActionText::Success(switch_message(result, branch)),
        match execute {
            Some(command) => ActionText::Execute(command),
            None => ActionText::Hint(
                seq!['\n'] + "To enable automatic cd, run: wt configure-shell"@,
            ),
        },
        ActionText::Flush,
    ]
}

/// The actions after a removal: change to the primary worktree if the
/// worktree stood in was removed, show the message, and flush.
pub open spec fn remove_actions(result: RemoveResult) -> Seq<ActionText> {
    (match result {
        RemoveResult::RemovedWorktree { primary_path } => seq![
            ActionText::ChangeDirectory(primary_path@),
        ],
        _ => Seq::empty(),
    }) + seq![ActionText::Success(remove_message(result)), ActionText::Flush]
}

/// Handle output for a switch operation.
pub fn handle_switch_output(result: &SwitchResult, branch: &str, execute: Option<&str>) -> (actions:
    Vec<OutputAction>)
    ensures
        actions_text(actions@) == switch_actions(
            *result,
            branch@,
            match execute {
                Some(command) => Some(command@),
                None => None,
            },
        ),
{
    let mut actions: Vec<OutputAction> = Vec::new();
    actions.push(OutputAction::ChangeDirectory(result.path().clone()));
    actions.push(OutputAction::Success(format_switch_message_plain(result, branch)));
    match execute {
        Some(command) => {
            actions.push(OutputAction::Execute(String::from_str(command)));
        },
        None => {
            let mut hint = String::new();
            hint.push('\n');
            hint.append(shell_integration_hint());
            assert(hint@ =~= seq!['\n'] + "To enable automatic cd, run: wt configure-shell"@);
            actions.push(OutputAction::Hint(hint));
        },
    }
    actions.push(OutputAction::Flush);
    assert(actions_text(actions@) =~= switch_actions(
        *result,
        branch@,
        match execute {
            Some(command) => Some(command@),
            None => None,
        },
    ));
    actions
}

/// Handle output for a remove operation.
pub fn handle_remove_output(result: &RemoveResult) -> (actions: Vec<OutputAction>)
    ensures
        actions_text(actions@) == remove_actions(*result),
{
    let mut actions: Vec<OutputAction> = Vec::new();
    match result {
        RemoveResult::RemovedWorktree { primary_path } => {
            actions.push(OutputAction::ChangeDirectory(primary_path.clone()));
        },
        _ => {},
    }
    actions.push(OutputAction::Success(format_remove_message_plain(result)));
    actions.push(OutputAction::Flush);
    assert(actions_text(actions@) =~= remove_actions(*result));
    actions
}

/// The shell command that runs `command` with its output sent to the error
/// stream, so that all of it comes through one pipe in the order written.
pub open spec fn merged(command: Seq<char>) -> Seq<char> {
    "{ "@ + command + "; } 1>&2"@
}

/// Wrap a command so that its output goes to the error stream.
pub fn merged_command(command: &str) -> (out: String)
    ensures
        out@ == merged(command@),
{
    let mut out = String::from_str("{ ");
    out.append(command);
    out.append("; } 1>&2");
    out
}

/// The outcome of a command that was run: success, or a failure that names
/// the exit status.
pub fn command_outcome(success: bool, status: &str) -> (outcome: Result<(), GitError>)
    ensures
        success ==> outcome is Ok,
        !success ==> (outcome matches Err(GitError::CommandFailed(message)) && message@
            == "Command failed with exit code: "@ + status@),
{
    if success {
        Ok(())
    } else {
        let mut message = String::from_str("Command failed with exit code: ");
        message.append(status);
        Err(GitError::CommandFailed(message))
    }
}

} // verus!
