//! Work on the repository that is handed to an assistant.

use vstd::prelude::*;
use vstd::string::*;
use crate::config::GitHelperConfig;
use crate::text;

verus! {

/// What the assistant is asked to do.
#[derive(Debug, PartialEq, Eq)]
pub enum WorkflowAction {
    StatusCommit { paths: Vec<String> },
    StatusDiscard { paths: Vec<String> },
    GraphPushCurrent,
    GraphPullCurrent,
    GraphPullOtherRemote { remote: String, branch: String },
    GraphCreateBranch { base_branch: String, branch_name: String },
    GraphCreatePullRequest,
}

pub ghost enum ActionView {
    StatusCommit { paths: Seq<Seq<char>> },
    StatusDiscard { paths: Seq<Seq<char>> },
    GraphPushCurrent,
    GraphPullCurrent,
    GraphPullOtherRemote { remote: Seq<char>, branch: Seq<char> },
    GraphCreateBranch { base_branch: Seq<char>, branch_name: Seq<char> },
    GraphCreatePullRequest,
}

impl View for WorkflowAction {
    type V = ActionView;

    open spec fn view(&self) -> ActionView {
        match self {
            WorkflowAction::StatusCommit { paths } => ActionView::StatusCommit {
                paths: text::texts(paths@),
            },
            WorkflowAction::StatusDiscard { paths } => ActionView::StatusDiscard {
                paths: text::texts(paths@),
            },
            WorkflowAction::GraphPushCurrent => ActionView::GraphPushCurrent,
            WorkflowAction::GraphPullCurrent => ActionView::GraphPullCurrent,
            WorkflowAction::GraphPullOtherRemote {
                remote,
                branch,
            } => ActionView::GraphPullOtherRemote { remote: remote@, branch: branch@ },
            WorkflowAction::GraphCreateBranch {
                base_branch,
                branch_name,
            } => ActionView::GraphCreateBranch {
                base_branch: base_branch@,
                branch_name: branch_name@,
            },
            WorkflowAction::GraphCreatePullRequest => ActionView::GraphCreatePullRequest,
        }
    }
}

impl ActionView {
    /// The paths that the action is about.
    pub open spec fn paths(self) -> Seq<Seq<char>> {
        match self {
            ActionView::StatusCommit { paths } => paths,
            ActionView::StatusDiscard { paths } => paths,
            _ => Seq::empty(),
        }
    }
}

/// The paths that an action is about: those of the files that it commits or discards.
pub fn action_paths(action: &WorkflowAction) -> (r: Vec<String>)
    ensures
        text::texts(r@) == action@.paths(),
{
    match action {
        WorkflowAction::StatusCommit { paths }
        | WorkflowAction::StatusDiscard { paths } => text::clone_texts(paths),
        _ => {
            let none: Vec<String> = Vec::new();
            assert(text::texts(none@) =~= Seq::<Seq<char>>::empty());
            none
        },
    }
}

/// Whether the assistant runs unseen or takes over the terminal.
#[derive(Debug, Clone, Copy, PartialEq, Eq, Structural)]
pub enum WorkflowExecutionMode {
    Silent,
    Suspend,
}

/// What the assistant is told of the repository.
#[derive(Debug, PartialEq, Eq)]
pub struct WorkflowPromptContext {
    pub repo_path: String,
    pub current_branch: Option<String>,
    pub upstream_branch: Option<String>,
    pub base_branch: Option<String>,
    pub branch_prefix: String,
    pub protected_branches: Vec<String>,
    pub selected_paths: Vec<String>,
    pub selected_commit_hash: Option<String>,
    pub git_dummy_index_path: String,
    pub git_dummy_index_exists: bool,
    pub git_dummy_index_contents: Option<String>,
    pub require_git_dummy_index: bool,
    pub auto_set_upstream_on_first_push: bool,
    pub pr_create_default: String,
}

pub ghost struct PromptContextView {
    pub repo_path: Seq<char>,
    pub current_branch: Option<Seq<char>>,
    pub upstream_branch: Option<Seq<char>>,
    pub base_branch: Option<Seq<char>>,
    pub branch_prefix: Seq<char>,
    pub protected_branches: Seq<Seq<char>>,
    pub selected_paths: Seq<Seq<char>>,
    pub selected_commit_hash: Option<Seq<char>>,
    pub git_dummy_index_path: Seq<char>,
    pub git_dummy_index_exists: bool,
    pub git_dummy_index_contents: Option<Seq<char>>,
    pub require_git_dummy_index: bool,
    pub auto_set_upstream_on_first_push: bool,
    pub pr_create_default: Seq<char>,
}

impl View for WorkflowPromptContext {
    type V = PromptContextView;

    open spec fn view(&self) -> PromptContextView {
        PromptContextView {
            repo_path: self.repo_path@,
            current_branch: text::opt_text(self.current_branch),
            upstream_branch: text::opt_text(self.upstream_branch),
            base_branch: text::opt_text(self.base_branch),
            branch_prefix: self.branch_prefix@,
            protected_branches: text::texts(self.protected_branches@),
            selected_paths: text::texts(self.selected_paths@),
            selected_commit_hash: text::opt_text(self.selected_commit_hash),
            git_dummy_index_path: self.git_dummy_index_path@,
            git_dummy_index_exists: self.git_dummy_index_exists,
            git_dummy_index_contents: text::opt_text(self.git_dummy_index_contents),
            require_git_dummy_index: self.require_git_dummy_index,
            auto_set_upstream_on_first_push: self.auto_set_upstream_on_first_push,
            pr_create_default: self.pr_create_default@,
        }
    }
}

/// What was found in the repository, and what the user has selected there.
#[derive(Debug)]
pub struct Surroundings {
    pub repo_path: String,
    pub current_branch: Option<String>,
    pub upstream_branch: Option<String>,
    pub git_dummy_index_path: String,
    pub git_dummy_index_exists: bool,
    pub git_dummy_index_contents: Option<String>,
}

impl WorkflowPromptContext {
    /// Puts together what was found, what is selected and what the user has set.
    pub fn gather(
        found: Surroundings,
        git_helper: &GitHelperConfig,
        selected_paths: Vec<String>,
        selected_commit_hash: Option<String>,
        base_branch: Option<String>,
    ) -> (r: WorkflowPromptContext)
        ensures
            r@ == (PromptContextView {
                repo_path: found.repo_path@,
                current_branch: text::opt_text(found.current_branch),
                upstream_branch: text::opt_text(found.upstream_branch),
                base_branch: text::opt_text(base_branch),
                branch_prefix: git_helper.branch_prefix@,
                protected_branches: text::texts(git_helper.protected_base_branches@),
                selected_paths: text::texts(selected_paths@),
                selected_commit_hash: text::opt_text(selected_commit_hash),
                git_dummy_index_path: found.git_dummy_index_path@,
                git_dummy_index_exists: found.git_dummy_index_exists,
                git_dummy_index_contents: text::opt_text(found.git_dummy_index_contents),
                require_git_dummy_index: git_helper.workflow.require_git_dummy_index,
                auto_set_upstream_on_first_push: git_helper.auto_set_upstream_on_first_push,
                pr_create_default: git_helper.workflow.pr_create_default@,
            }),
    {
        WorkflowPromptContext {
            repo_path: found.repo_path,
            current_branch: found.current_branch,
            upstream_branch: found.upstream_branch,
            base_branch,
            branch_prefix: git_helper.branch_prefix.clone(),
            protected_branches: text::clone_texts(&git_helper.protected_base_branches),
            selected_paths,
            selected_commit_hash,
            git_dummy_index_path: found.git_dummy_index_path,
            git_dummy_index_exists: found.git_dummy_index_exists,
            git_dummy_index_contents: found.git_dummy_index_contents,
            require_git_dummy_index: git_helper.workflow.require_git_dummy_index,
            auto_set_upstream_on_first_push: git_helper.auto_set_upstream_on_first_push,
            pr_create_default: git_helper.workflow.pr_create_default.clone(),
        }
    }
}

/// A text, or another where there is none.
pub open spec fn or_else(s: Option<Seq<char>>, default: Seq<char>) -> Seq<char> {
    match s {
        Some(s) => s,
        None => default,
    }
}

fn text_or<'a>(s: &'a Option<String>, default: &'a str) -> (r: &'a str)
    ensures
        r@ == or_else(text::opt_text(*s), default@),
{
    match s {
        Some(s) => s.as_str(),
        None => default,
    }
}

/// A row for each path.
pub open spec fn listed_paths(paths: Seq<Seq<char>>) -> Seq<char> {
    if paths.len() == 0 {
        "none"@
    } else {
        text::joined(Seq::new(paths.len(), |i: int| "- "@ + paths[i]), "\n"@)
    }
}

fn list_paths(paths: &Vec<String>) -> (r: String)
    ensures
        r@ == listed_paths(text::texts(paths@)),
{
    if paths.len() == 0 {
        return "none".to_string();
    }
    let ghost all = text::texts(paths@);
    let mut rows: Vec<String> = Vec::new();
    let mut i: usize = 0;
    while i < paths.len()
        invariant
            i <= paths@.len(),
            rows@.len() == i,
            forall|j: int| 0 <= j < i ==> (#[trigger] rows@[j])@ == "- "@ + paths@[j]@,
        decreases paths@.len() - i,
    {
        rows.push(text::concat("- ", paths[i].as_str()));
        i = i + 1;
    }
    assert(text::texts(rows@) =~= Seq::new(all.len(), |i: int| "- "@ + all[i]));
    text::join(&rows, "\n")
}

/// What is said of the index: where it is, and what it holds.
pub open spec fn index_status(c: PromptContextView) -> Seq<char> {
    if c.git_dummy_index_exists {
        "Present at "@ + c.git_dummy_index_path + ".\nContents:\n"@ + or_else(
            c.git_dummy_index_contents,
            "(empty)"@,
        )
    } else {
        "Missing at "@ + c.git_dummy_index_path + "."@
    }
}

fn describe_index(c: &WorkflowPromptContext) -> (r: String)
    ensures
        r@ == index_status(c@),
{
    if c.git_dummy_index_exists {
        let mut r = "Present at ".to_string();
        r.append(c.git_dummy_index_path.as_str());
        r.append(".\nContents:\n");
        r.append(text_or(&c.git_dummy_index_contents, "(empty)"));
        r
    } else {
        let mut r = "Missing at ".to_string();
        r.append(c.git_dummy_index_path.as_str());
        r.append(".");
        r
    }
}

/// What the action asks for, in words.
pub open spec fn action_text(a: ActionView, c: PromptContextView) -> Seq<char> {
    match a {
        ActionView::StatusCommit { .. } =>
            "Requested action: commit only the selected paths.\nRequirements:\n- Stage only the selected paths.\n- Write an informative git commit message.\n- Refuse if the current branch is protected.\n- If the git-dummy index is missing and required, create or update it before finishing.\n- Append a commit log entry to the git-dummy index after a successful commit."@,
        ActionView::StatusDiscard { .. } =>
            "Requested action: discard only the selected paths.\nRequirements:\n- Restore tracked files only within the selected paths.\n- Remove untracked files only within the selected paths.\n- Refuse if the operation would affect paths outside the selection."@,
        ActionView::GraphPushCurrent =>
            "Requested action: push the current branch to its remote.\nRequirements:\n- Push the current branch only.\n- If there is no upstream and auto-set-upstream is enabled, set it during push."@,
        ActionView::GraphPullCurrent =>
            "Requested action: pull the current branch from its tracked upstream.\nRequirements:\n- Pull only from the tracked upstream.\n- Refuse if there is no current branch or no upstream."@,
        ActionView::GraphPullOtherRemote { remote, branch } =>
            "Requested action: pull from a different remote into the current branch.\nRequirements:\n- Pull from remote `"@ + remote + "` branch `"@ + branch + "` into the current branch.\n- Refuse if the current branch is unknown."@,
        ActionView::GraphCreateBranch { base_branch, branch_name } =>
            "Requested action: create and switch to a new branch.\nRequirements:\n- Use base branch `"@ + base_branch + "`.\n- Create branch `"@ + branch_name + "`.\n- Honor branch-prefix and base-branch rules from the git-dummy index when present.\n- If the git-dummy index is missing and required, create it before branching."@,
        ActionView::GraphCreatePullRequest =>
            "Requested action: create a pull request with GitHub CLI.\nRequirements:\n- Use `gh pr create`.\n- Prefer `"@ + c.pr_create_default + "`.\n- Target the recorded base branch when known, otherwise use the configured base/protected branch."@,
    }
}

fn describe_action(action: &WorkflowAction, c: &WorkflowPromptContext) -> (r: String)
    ensures
        r@ == action_text(action@, c@),
{
    match action {
        WorkflowAction::StatusCommit { .. } =>
            "Requested action: commit only the selected paths.\nRequirements:\n- Stage only the selected paths.\n- Write an informative git commit message.\n- Refuse if the current branch is protected.\n- If the git-dummy index is missing and required, create or update it before finishing.\n- Append a commit log entry to the git-dummy index after a successful commit.".to_string(),
        WorkflowAction::StatusDiscard { .. } =>
            "Requested action: discard only the selected paths.\nRequirements:\n- Restore tracked files only within the selected paths.\n- Remove untracked files only within the selected paths.\n- Refuse if the operation would affect paths outside the selection.".to_string(),
        WorkflowAction::GraphPushCurrent =>
            "Requested action: push the current branch to its remote.\nRequirements:\n- Push the current branch only.\n- If there is no upstream and auto-set-upstream is enabled, set it during push.".to_string(),
        WorkflowAction::GraphPullCurrent =>
            "Requested action: pull the current branch from its tracked upstream.\nRequirements:\n- Pull only from the tracked upstream.\n- Refuse if there is no current branch or no upstream.".to_string(),
        WorkflowAction::GraphPullOtherRemote { remote, branch } => {
            let mut r = "Requested action: pull from a different remote into the current branch.\nRequirements:\n- Pull from remote `".to_string();
            r.append(remote.as_str());
            r.append("` branch `");
            r.append(branch.as_str());
            r.append("` into the current branch.\n- Refuse if the current branch is unknown.");
            r
        },
        WorkflowAction::GraphCreateBranch { base_branch, branch_name } => {
            let mut r = "Requested action: create and switch to a new branch.\nRequirements:\n- Use base branch `".to_string();
            r.append(base_branch.as_str());
            r.append("`.\n- Create branch `");
            r.append(branch_name.as_str());
            r.append("`.\n- Honor branch-prefix and base-branch rules from the git-dummy index when present.\n- If the git-dummy index is missing and required, create it before branching.");
            r
        },
        WorkflowAction::GraphCreatePullRequest => {
            let mut r = "Requested action: create a pull request with GitHub CLI.\nRequirements:\n- Use `gh pr create`.\n- Prefer `".to_string();
            r.append(c.pr_create_default.as_str());
            r.append("`.\n- Target the recorded base branch when known, otherwise use the configured base/protected branch.");
            r
        },
    }
}

pub open spec fn yes_or_no(b: bool) -> Seq<char> {
    if b {
        "true"@
    } else {
        "false"@
    }
}

fn word_for(b: bool) -> (r: &'static str)
    ensures
        r@ == yes_or_no(b),
{
    if b {
        "true"
    } else {
        "false"
    }
}

/// What the assistant is told.
pub open spec fn workflow_prompt(a: ActionView, c: PromptContextView) -> Seq<char> {
    "You are performing a git workflow action for lil-big-helper.\nExecute the requested action directly in the repository. Do not describe what you would do.\nReturn concise terminal-safe output only.\nRefuse with a clear error if the requested action is unsafe.\n\nRepository: "@
        + c.repo_path + "\nCurrent branch: "@ + or_else(c.current_branch, "detached"@)
        + "\nUpstream branch: "@ + or_else(c.upstream_branch, "none"@) + "\nBase branch: "@
        + or_else(c.base_branch, "unknown"@) + "\nBranch prefix: "@ + c.branch_prefix
        + "\nProtected branches: "@ + text::joined(c.protected_branches, ", "@)
        + "\nAuto set upstream on first push: "@ + yes_or_no(c.auto_set_upstream_on_first_push)
        + "\nSelected commit hash: "@ + or_else(c.selected_commit_hash, "none"@)
        + "\nSelected paths:\n"@ + listed_paths(c.selected_paths) + "\n\nGit-dummy index:\n"@
        + index_status(c) + "\nRequired if missing: "@ + yes_or_no(c.require_git_dummy_index)
        + "\n\n"@ + action_text(a, c)
        + "\n\nUse git commands for git operations and `gh` for pull request creation when needed."@
}

/// Writes what the assistant is told.
pub fn build_workflow_prompt(action: &WorkflowAction, context: &WorkflowPromptContext) -> (r:
    String)
    ensures
        r@ == workflow_prompt(action@, context@),
{
    let mut r = "You are performing a git workflow action for lil-big-helper.\nExecute the requested action directly in the repository. Do not describe what you would do.\nReturn concise terminal-safe output only.\nRefuse with a clear error if the requested action is unsafe.\n\nRepository: ".to_string();
    r.append(context.repo_path.as_str());
    r.append("\nCurrent branch: ");
    r.append(text_or(&context.current_branch, "detached"));
    r.append("\nUpstream branch: ");
    r.append(text_or(&context.upstream_branch, "none"));
    r.append("\nBase branch: ");
    r.append(text_or(&context.base_branch, "unknown"));
    r.append("\nBranch prefix: ");
    r.append(context.branch_prefix.as_str());
    r.append("\nProtected branches: ");
    r.append(text::join(&context.protected_branches, ", ").as_str());
    r.append("\nAuto set upstream on first push: ");
    r.append(word_for(context.auto_set_upstream_on_first_push));
    r.append("\nSelected commit hash: ");
    r.append(text_or(&context.selected_commit_hash, "none"));
    r.append("\nSelected paths:\n");
    r.append(list_paths(&context.selected_paths).as_str());
    r.append("\n\nGit-dummy index:\n");
    r.append(describe_index(context).as_str());
    r.append("\nRequired if missing: ");
    r.append(word_for(context.require_git_dummy_index));
    r.append("\n\n");
    r.append(describe_action(action, context).as_str());
    r.append("\n\nUse git commands for git operations and `gh` for pull request creation when needed.");
    r
}

/// How the assistant is to be run: with which prompt, where, and whether what it prints is kept.
#[derive(Debug, PartialEq, Eq)]
pub struct WorkflowRun {
    pub command: String,
    pub repo_path: String,
    pub prompt: String,
    pub capture: bool,
}

/// Decides how the assistant is to be run. It is not run where the user has switched it off.
pub fn execute_workflow_action(
    git_helper: &GitHelperConfig,
    action: &WorkflowAction,
    context: &WorkflowPromptContext,
    mode: WorkflowExecutionMode,
) -> (r: Result<WorkflowRun, String>)
    ensures
        match r {
            Ok(run) => {
                &&& git_helper.workflow.enabled
                &&& run.command@ == git_helper.workflow.codex_command@
                &&& run.repo_path@ == context.repo_path@
                &&& run.prompt@ == workflow_prompt(action@, context@)
                &&& run.capture == (mode is Silent)
            },
            Err(e) => !git_helper.workflow.enabled && e@
                == "Git workflow integration is disabled in config"@,
        },
{
    if !git_helper.workflow.enabled {
        return Err("Git workflow integration is disabled in config".to_string());
    }
    let prompt = build_workflow_prompt(action, context);
    let capture = match mode {
        WorkflowExecutionMode::Silent => true,
        WorkflowExecutionMode::Suspend => false,
    };
    Ok(
        WorkflowRun {
            command: git_helper.workflow.codex_command.clone(),
            repo_path: context.repo_path.clone(),
            prompt,
            capture,
        },
    )
}

/// What a run leaves to show: what it printed, where that was kept.
pub fn workflow_outcome(run: &WorkflowRun, output: Result<String, String>) -> (r: Result<
    Option<String>,
    String,
>)
    ensures
        r == match output {
            Ok(s) => Ok::<Option<String>, String>(
                if run.capture {
                    Some(s)
                } else {
                    None
                },
            ),
            Err(e) => Err::<Option<String>, String>(e),
        },
{
    match output {
        Ok(s) => Ok(
            if run.capture {
                Some(s)
            } else {
                None
            },
        ),
        Err(e) => Err(e),
    }
}

/// The prompt names every selected path, in a row of its own.
pub proof fn prompt_names_every_path(a: ActionView, c: PromptContextView, i: int)
    requires
        0 <= i < c.selected_paths.len(),
    ensures
        text::holds(workflow_prompt(a, c), "- "@ + c.selected_paths[i]),
{
    let rows = Seq::new(c.selected_paths.len(), |i: int| "- "@ + c.selected_paths[i]);
    text::joined_holds(rows, "\n"@, i);
    let front = "You are performing a git workflow action for lil-big-helper.\nExecute the requested action directly in the repository. Do not describe what you would do.\nReturn concise terminal-safe output only.\nRefuse with a clear error if the requested action is unsafe.\n\nRepository: "@
        + c.repo_path + "\nCurrent branch: "@ + or_else(c.current_branch, "detached"@)
        + "\nUpstream branch: "@ + or_else(c.upstream_branch, "none"@) + "\nBase branch: "@
        + or_else(c.base_branch, "unknown"@) + "\nBranch prefix: "@ + c.branch_prefix
        + "\nProtected branches: "@ + text::joined(c.protected_branches, ", "@)
        + "\nAuto set upstream on first push: "@ + yes_or_no(c.auto_set_upstream_on_first_push)
        + "\nSelected commit hash: "@ + or_else(c.selected_commit_hash, "none"@)
        + "\nSelected paths:\n"@;
    let back = "\n\nGit-dummy index:\n"@ + index_status(c) + "\nRequired if missing: "@ + yes_or_no(
        c.require_git_dummy_index,
    ) + "\n\n"@ + action_text(a, c)
        + "\n\nUse git commands for git operations and `gh` for pull request creation when needed."@;
    let rows_text = listed_paths(c.selected_paths);
    assert(rows[i] == "- "@ + c.selected_paths[i]);
    text::holds_inside(front, rows_text, back, rows[i]);
    assert(workflow_prompt(a, c) =~= front + rows_text + back);
}

/// The prompt tells where the work is done and what is known of it: the repository, the branch that
/// is checked out, its upstream, its base, the prefix of new branches and the commit that is
/// selected. What is not known is told as such.
pub proof fn prompts_tell_the_surroundings(a: ActionView, c: PromptContextView)
    ensures
        text::holds(workflow_prompt(a, c), c.repo_path + "\nCurrent branch: "@),
        text::holds(
            workflow_prompt(a, c),
            "\nCurrent branch: "@ + (if c.current_branch is Some {
                c.current_branch->0
            } else {
                "detached"@
            }) + "\nUpstream branch: "@,
        ),
        text::holds(
            workflow_prompt(a, c),
            "\nUpstream branch: "@ + (if c.upstream_branch is Some {
                c.upstream_branch->0
            } else {
                "none"@
            }) + "\nBase branch: "@,
        ),
        text::holds(
            workflow_prompt(a, c),
            "\nBase branch: "@ + (if c.base_branch is Some {
                c.base_branch->0
            } else {
                "unknown"@
            }) + "\nBranch prefix: "@,
        ),
        text::holds(
            workflow_prompt(a, c),
            "\nBranch prefix: "@ + c.branch_prefix + "\nProtected branches: "@,
        ),
        text::holds(
            workflow_prompt(a, c),
            "\nProtected branches: "@ + text::joined(c.protected_branches, ", "@)
                + "\nAuto set upstream on first push: "@,
        ),
        text::holds(
            workflow_prompt(a, c),
            "\nAuto set upstream on first push: "@ + (if c.auto_set_upstream_on_first_push {
                "true"@
            } else {
                "false"@
            }) + "\nSelected commit hash: "@,
        ),
        text::holds(
            workflow_prompt(a, c),
            "\nSelected commit hash: "@ + (if c.selected_commit_hash is Some {
                c.selected_commit_hash->0
            } else {
                "none"@
            }) + "\nSelected paths:\n"@,
        ),
{
    let intro = "You are performing a git workflow action for lil-big-helper.\nExecute the requested action directly in the repository. Do not describe what you would do.\nReturn concise terminal-safe output only.\nRefuse with a clear error if the requested action is unsafe.\n\nRepository: "@;
    let p = workflow_prompt(a, c);
    let branch = or_else(c.current_branch, "detached"@);
    let upstream = or_else(c.upstream_branch, "none"@);
    let base = or_else(c.base_branch, "unknown"@);
    let guarded = text::joined(c.protected_branches, ", "@);
    let auto = yes_or_no(c.auto_set_upstream_on_first_push);
    let hash = or_else(c.selected_commit_hash, "none"@);
    let tail = listed_paths(c.selected_paths) + "\n\nGit-dummy index:\n"@ + index_status(c)
        + "\nRequired if missing: "@ + yes_or_no(c.require_git_dummy_index) + "\n\n"@ + action_text(
        a,
        c,
    ) + "\n\nUse git commands for git operations and `gh` for pull request creation when needed."@;
    let l0 = "\nCurrent branch: "@;
    let l1 = "\nUpstream branch: "@;
    let l2 = "\nBase branch: "@;
    let l3 = "\nBranch prefix: "@;
    let l4 = "\nProtected branches: "@;
    let l5 = "\nAuto set upstream on first push: "@;
    let l6 = "\nSelected commit hash: "@;
    let l7 = "\nSelected paths:\n"@;
    let b6 = hash + l7 + tail;
    let b5 = auto + l6 + b6;
    let b4 = guarded + l5 + b5;
    let b3 = c.branch_prefix + l4 + b4;
    let b2 = base + l3 + b3;
    let b1 = upstream + l2 + b2;
    let b0 = branch + l1 + b1;
    let f0 = intro + c.repo_path;
    let f1 = f0 + l0 + branch;
    let f2 = f1 + l1 + upstream;
    let f3 = f2 + l2 + base;
    let f4 = f3 + l3 + c.branch_prefix;
    let f5 = f4 + l4 + guarded;
    let f6 = f5 + l5 + auto;
    assert(p == f6 + l6 + hash + l7 + tail) by {
        let front = f6 + l6 + hash + l7;
        let p0 = listed_paths(c.selected_paths);
        let p1 = "\n\nGit-dummy index:\n"@;
        let p2 = index_status(c);
        let p3 = "\nRequired if missing: "@;
        let p4 = yes_or_no(c.require_git_dummy_index);
        let p5 = "\n\n"@;
        let p6 = action_text(a, c);
        let p7 = "\n\nUse git commands for git operations and `gh` for pull request creation when needed."@;
        assert(front + p0 + p1 + p2 + p3 + p4 + p5 + p6 + p7 =~= front + (p0 + p1 + p2 + p3 + p4 + p5
            + p6 + p7));
    }
    labelled_is_held(f6, l6, hash, l7, tail);
    labelled_is_held(f5, l5, auto, l6, b6);
    labelled_is_held(f4, l4, guarded, l5, b5);
    labelled_is_held(f3, l3, c.branch_prefix, l4, b4);
    labelled_is_held(f2, l2, base, l3, b3);
    labelled_is_held(f1, l1, upstream, l2, b2);
    labelled_is_held(f0, l0, branch, l1, b1);
    labelled_is_held(intro, Seq::empty(), c.repo_path, l0, b0);
    assert(intro + Seq::<char>::empty() =~= intro);
    assert(Seq::<char>::empty() + c.repo_path =~= c.repo_path);
}

proof fn labelled_is_held(
    front: Seq<char>,
    label: Seq<char>,
    value: Seq<char>,
    next: Seq<char>,
    back: Seq<char>,
)
    ensures
        text::holds(front + label + value + next + back, label + value + next),
        front + label + value + next + back == front + label + (value + next + back),
{
    text::middles_are_held(front, label + value + next, back);
    assert(front + (label + value + next) + back =~= front + label + value + next + back);
    assert(front + label + value + next + back =~= front + label + (value + next + back));
}

proof fn actions_are_in_the_prompt(a: ActionView, c: PromptContextView, needle: Seq<char>)
    requires
        text::holds(action_text(a, c), needle),
    ensures
        text::holds(workflow_prompt(a, c), needle),
{
    let front = "You are performing a git workflow action for lil-big-helper.\nExecute the requested action directly in the repository. Do not describe what you would do.\nReturn concise terminal-safe output only.\nRefuse with a clear error if the requested action is unsafe.\n\nRepository: "@
        + c.repo_path + "\nCurrent branch: "@ + or_else(c.current_branch, "detached"@)
        + "\nUpstream branch: "@ + or_else(c.upstream_branch, "none"@) + "\nBase branch: "@
        + or_else(c.base_branch, "unknown"@) + "\nBranch prefix: "@ + c.branch_prefix
        + "\nProtected branches: "@ + text::joined(c.protected_branches, ", "@)
        + "\nAuto set upstream on first push: "@ + yes_or_no(c.auto_set_upstream_on_first_push)
        + "\nSelected commit hash: "@ + or_else(c.selected_commit_hash, "none"@)
        + "\nSelected paths:\n"@ + listed_paths(c.selected_paths) + "\n\nGit-dummy index:\n"@
        + index_status(c) + "\nRequired if missing: "@ + yes_or_no(c.require_git_dummy_index)
        + "\n\n"@;
    let back = "\n\nUse git commands for git operations and `gh` for pull request creation when needed."@;
    text::holds_inside(front, action_text(a, c), back, needle);
    assert(workflow_prompt(a, c) =~= front + action_text(a, c) + back);
}

/// The prompt names the remote and the branch to pull from, the base and the name of a branch to
/// make, and how a pull request is made.
pub proof fn prompts_name_what_is_asked(c: PromptContextView, one: Seq<char>, other: Seq<char>)
    ensures
        text::holds(
            workflow_prompt(ActionView::GraphPullOtherRemote { remote: one, branch: other }, c),
            "remote `"@ + one + "` branch `"@ + other + "` into the current branch"@,
        ),
        text::holds(
            workflow_prompt(
                ActionView::GraphCreateBranch { base_branch: one, branch_name: other },
                c,
            ),
            "base branch `"@ + one + "`.\n- Create branch `"@ + other + "`"@,
        ),
        text::holds(
            workflow_prompt(ActionView::GraphCreatePullRequest, c),
            "Prefer `"@ + c.pr_create_default + "`"@,
        ),
{
    let pull = ActionView::GraphPullOtherRemote { remote: one, branch: other };
    let make = ActionView::GraphCreateBranch { base_branch: one, branch_name: other };
    let ask = ActionView::GraphCreatePullRequest;
    let pull_front = "Requested action: pull from a different remote into the current branch.\nRequirements:\n- Pull from remote `"@;
    let pull_back = "` branch `"@;
    let pull_end = "` into the current branch.\n- Refuse if the current branch is unknown."@;
    reveal_strlit("Requested action: pull from a different remote into the current branch.\nRequirements:\n- Pull from remote `");
    reveal_strlit("` into the current branch.\n- Refuse if the current branch is unknown.");
    reveal_strlit("remote `");
    reveal_strlit("` into the current branch");
    let n = pull_front.len() - 8;
    assert(pull_front.skip(n) =~= "remote `"@);
    let m = "` into the current branch"@.len() as int;
    assert(pull_end.take(m) =~= "` into the current branch"@);
    let middle = "remote `"@ + one + pull_back + other + "` into the current branch"@;
    text::middles_are_held(pull_front.take(n), middle, pull_end.skip(m));
    assert(action_text(pull, c) =~= pull_front.take(n) + middle + pull_end.skip(m));
    actions_are_in_the_prompt(pull, c, middle);
    let make_front = "Requested action: create and switch to a new branch.\nRequirements:\n- Use base branch `"@;
    let make_end = "`.\n- Honor branch-prefix and base-branch rules from the git-dummy index when present.\n- If the git-dummy index is missing and required, create it before branching."@;
    reveal_strlit("Requested action: create and switch to a new branch.\nRequirements:\n- Use base branch `");
    reveal_strlit("`.\n- Honor branch-prefix and base-branch rules from the git-dummy index when present.\n- If the git-dummy index is missing and required, create it before branching.");
    reveal_strlit("base branch `");
    reveal_strlit("`");
    let n = make_front.len() - 13;
    assert(make_front.skip(n) =~= "base branch `"@);
    assert(make_end.take(1) =~= "`"@);
    let middle = "base branch `"@ + one + "`.\n- Create branch `"@ + other + "`"@;
    text::middles_are_held(make_front.take(n), middle, make_end.skip(1));
    assert(action_text(make, c) =~= make_front.take(n) + middle + make_end.skip(1));
    actions_are_in_the_prompt(make, c, middle);
    let ask_front = "Requested action: create a pull request with GitHub CLI.\nRequirements:\n- Use `gh pr create`.\n- Prefer `"@;
    let ask_end = "`.\n- Target the recorded base branch when known, otherwise use the configured base/protected branch."@;
    reveal_strlit("Requested action: create a pull request with GitHub CLI.\nRequirements:\n- Use `gh pr create`.\n- Prefer `");
    reveal_strlit("`.\n- Target the recorded base branch when known, otherwise use the configured base/protected branch.");
    reveal_strlit("Prefer `");
    let n = ask_front.len() - 8;
    assert(ask_front.skip(n) =~= "Prefer `"@);
    assert(ask_end.take(1) =~= "`"@);
    let middle = "Prefer `"@ + c.pr_create_default + "`"@;
    text::middles_are_held(ask_front.take(n), middle, ask_end.skip(1));
    assert(action_text(ask, c) =~= ask_front.take(n) + middle + ask_end.skip(1));
    actions_are_in_the_prompt(ask, c, middle);
}

/// An action is run in the repository with the prompt for it by the program that was set, and not
/// at all where that was switched off.
pub proof fn actions_are_run(
    git_helper: &GitHelperConfig,
    action: &WorkflowAction,
    context: &WorkflowPromptContext,
    mode: WorkflowExecutionMode,
    r: Result<WorkflowRun, String>,
    i: int,
)
    requires
        call_ensures(execute_workflow_action, (git_helper, action, context, mode), r),
        0 <= i < context@.selected_paths.len(),
    ensures
        r is Ok <==> git_helper.workflow.enabled,
        r matches Ok(run) ==> {
            &&& run.command@ == git_helper.workflow.codex_command@
            &&& run.repo_path@ == context@.repo_path
            &&& text::holds(run.prompt@, "- "@ + context@.selected_paths[i])
            &&& run.capture <==> mode is Silent
        },
{
    prompt_names_every_path(action@, context@, i);
}

} // verus!
