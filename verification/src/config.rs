//! What the user can set.

use vstd::prelude::*;
use crate::names::NameMap;
use crate::text;

verus! {

/// A column of the list of commits.
#[derive(Debug, Clone, Copy, PartialEq, Eq, Structural)]
pub enum UserListColumnType {
    Graph,
    Marker,
    Status,
    Subject,
    Name,
    Hash,
    Date,
}

/// How texts are put into the clipboard.
#[derive(Debug, PartialEq, Eq)]
pub enum ClipboardConfig {
    Auto,
    Custom { commands: Vec<String> },
}

/// How a command of the user's is run.
#[derive(Debug, Clone, Copy, PartialEq, Eq, Structural)]
pub enum UserCommandType {
    Inline,
    Silent,
    Suspend,
}

/// A command of the user's.
#[derive(Debug, PartialEq, Eq)]
pub struct UserCommand {
    pub name: String,
    pub kind: UserCommandType,
    pub commands: Vec<String>,
    pub refresh: bool,
}

/// The commands of the user's, by their numbers.
#[derive(Debug)]
pub struct UserCommandConfig {
    pub commands: NameMap<UserCommand>,
}

/// How work is handed to the assistant.
#[derive(Debug, PartialEq, Eq)]
pub struct WorkflowConfig {
    pub enabled: bool,
    pub codex_command: String,
    pub git_dummy_index_path: String,
    pub require_git_dummy_index: bool,
    pub pr_create_default: String,
}

/// How branches are made and kept.
#[derive(Debug, PartialEq, Eq)]
pub struct GitHelperConfig {
    pub protected_base_branches: Vec<String>,
    pub branch_prefix: String,
    pub hidden_worktree_dir: String,
    pub stash_message_prefix: String,
    pub auto_set_upstream_on_first_push: bool,
    pub workflow: WorkflowConfig,
}

/// How texts are searched for.
#[derive(Debug, Clone, Copy, PartialEq, Eq, Structural)]
pub struct SearchConfig {
    pub ignore_case: bool,
    pub fuzzy: bool,
}

/// How the program works.
#[derive(Debug)]
pub struct CoreConfig {
    pub search: SearchConfig,
    pub user_command: UserCommandConfig,
    pub clipboard: ClipboardConfig,
    pub git_helper: GitHelperConfig,
}

/// How the caret of an input is shown: by the terminal, or as a text.
#[derive(Debug, PartialEq, Eq)]
pub enum CursorType {
    Native,
    Virtual(String),
}

/// How the list of commits looks.
#[derive(Debug, PartialEq, Eq)]
pub struct UiListConfig {
    pub columns: Vec<UserListColumnType>,
    pub subject_min_width: u16,
    pub name_width: u16,
    pub date_width: u16,
}

/// How the program looks.
#[derive(Debug, PartialEq, Eq)]
pub struct UiConfig {
    pub cursor_type: CursorType,
    pub list: UiListConfig,
    pub detail_height: u16,
    pub refs_width: u16,
    pub user_command_height: u16,
}

impl Default for GitHelperConfig {
    fn default() -> (r: GitHelperConfig)
        ensures
            text::texts(r.protected_base_branches@) == seq!["main"@],
            r.branch_prefix@ == "feature"@,
            r.hidden_worktree_dir@ == ".lbh/worktrees"@,
            r.stash_message_prefix@ == "lbh"@,
            r.auto_set_upstream_on_first_push,
            r.workflow.enabled,
            r.workflow.codex_command@ == "codex"@,
            r.workflow.git_dummy_index_path@ == ".git-dummy/index.mdc"@,
            r.workflow.require_git_dummy_index,
            r.workflow.pr_create_default@ == "gh pr create --fill"@,
    {
        let protected_base_branches = text::words(&["main"]);
        assert(text::texts(protected_base_branches@) =~= seq!["main"@]);
        GitHelperConfig {
            protected_base_branches,
            branch_prefix: "feature".to_string(),
            hidden_worktree_dir: ".lbh/worktrees".to_string(),
            stash_message_prefix: "lbh".to_string(),
            auto_set_upstream_on_first_push: true,
            workflow: WorkflowConfig {
                enabled: true,
                codex_command: "codex".to_string(),
                git_dummy_index_path: ".git-dummy/index.mdc".to_string(),
                require_git_dummy_index: true,
                pr_create_default: "gh pr create --fill".to_string(),
            },
        }
    }
}

} // verus!
