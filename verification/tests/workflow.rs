use lil_big_helper::config::GitHelperConfig;
use lil_big_helper::workflow::{
    action_paths, build_workflow_prompt, execute_workflow_action, workflow_outcome, Surroundings,
    WorkflowAction, WorkflowExecutionMode, WorkflowPromptContext,
};

fn sample_context() -> WorkflowPromptContext {
    WorkflowPromptContext {
        repo_path: "/repo".into(),
        current_branch: Some("feature/test".into()),
        upstream_branch: Some("origin/feature/test".into()),
        base_branch: Some("main".into()),
        branch_prefix: "feature".into(),
        protected_branches: vec!["main".into()],
        selected_paths: vec!["src/app.rs".into(), "src/view/status.rs".into()],
        selected_commit_hash: Some("abc1234".into()),
        git_dummy_index_path: "/repo/.git-dummy/index.mdc".into(),
        git_dummy_index_exists: false,
        git_dummy_index_contents: None,
        require_git_dummy_index: true,
        auto_set_upstream_on_first_push: true,
        pr_create_default: "gh pr create --fill".into(),
    }
}

#[test]
fn commit_prompt_includes_selected_paths_and_git_dummy_requirement() {
    let prompt = build_workflow_prompt(
        &WorkflowAction::StatusCommit {
            paths: vec!["src/app.rs".into()],
        },
        &sample_context(),
    );
    assert!(prompt.contains("commit only the selected paths"));
    assert!(prompt.contains("- src/app.rs"));
    assert!(prompt.contains("Missing at /repo/.git-dummy/index.mdc."));
}

#[test]
fn pull_other_remote_prompt_includes_remote_and_branch() {
    let prompt = build_workflow_prompt(
        &WorkflowAction::GraphPullOtherRemote {
            remote: "upstream".into(),
            branch: "main".into(),
        },
        &sample_context(),
    );
    assert!(prompt.contains("remote `upstream` branch `main`"));
}

#[test]
fn every_action_is_told_apart() {
    let actions = [
        WorkflowAction::StatusCommit { paths: vec![] },
        WorkflowAction::StatusDiscard { paths: vec![] },
        WorkflowAction::GraphPushCurrent,
        WorkflowAction::GraphPullCurrent,
        WorkflowAction::GraphCreateBranch {
            base_branch: "main".into(),
            branch_name: "feature/x".into(),
        },
        WorkflowAction::GraphCreatePullRequest,
    ];
    let prompts: Vec<String> = actions
        .iter()
        .map(|a| build_workflow_prompt(a, &sample_context()))
        .collect();
    for i in 0..prompts.len() {
        for j in 0..i {
            assert_ne!(prompts[i], prompts[j]);
        }
    }
    assert!(prompts[4].contains("feature/x"));
    assert!(prompts[5].contains("gh pr create --fill"));
}

#[test]
fn an_index_that_is_there_is_shown() {
    let mut context = sample_context();
    context.git_dummy_index_exists = true;
    context.git_dummy_index_contents = Some("the index".into());
    let prompt = build_workflow_prompt(&WorkflowAction::GraphPushCurrent, &context);
    assert!(prompt.contains("the index"));
    assert!(!prompt.contains("Missing at"));
}

#[test]
fn the_context_takes_what_is_set() {
    let config = GitHelperConfig::default();
    let context = WorkflowPromptContext::gather(
        Surroundings {
            repo_path: "/r".into(),
            current_branch: None,
            upstream_branch: None,
            git_dummy_index_path: "/r/i".into(),
            git_dummy_index_exists: false,
            git_dummy_index_contents: None,
        },
        &config,
        vec!["p".into()],
        Some("abc".into()),
        None,
    );
    assert_eq!(context.branch_prefix, "feature");
    assert_eq!(context.protected_branches, vec!["main"]);
    assert_eq!(context.selected_paths, vec!["p"]);
    assert_eq!(context.pr_create_default, "gh pr create --fill");
    assert!(context.require_git_dummy_index);
}

#[test]
fn the_assistant_is_run_where_it_is_switched_on() {
    let mut config = GitHelperConfig::default();
    let action = WorkflowAction::GraphPushCurrent;
    let context = sample_context();
    let silent =
        execute_workflow_action(&config, &action, &context, WorkflowExecutionMode::Silent).unwrap();
    assert_eq!(silent.command, "codex");
    assert_eq!(silent.repo_path, "/repo");
    assert!(silent.capture);
    assert_eq!(silent.prompt, build_workflow_prompt(&action, &context));
    let suspended =
        execute_workflow_action(&config, &action, &context, WorkflowExecutionMode::Suspend)
            .unwrap();
    assert!(!suspended.capture);

    assert_eq!(
        workflow_outcome(&silent, Ok("done".into())),
        Ok(Some("done".into()))
    );
    assert_eq!(workflow_outcome(&suspended, Ok("done".into())), Ok(None));
    assert_eq!(
        workflow_outcome(&silent, Err("bad".into())),
        Err("bad".into())
    );

    config.workflow.enabled = false;
    assert!(
        execute_workflow_action(&config, &action, &context, WorkflowExecutionMode::Silent).is_err()
    );
}

#[test]
fn actions_name_their_paths() {
    let paths = vec!["a".to_string(), "b/c".to_string()];
    let commit = WorkflowAction::StatusCommit {
        paths: paths.clone(),
    };
    let discard = WorkflowAction::StatusDiscard {
        paths: paths.clone(),
    };
    assert_eq!(action_paths(&commit), paths);
    assert_eq!(action_paths(&discard), paths);
    assert!(action_paths(&WorkflowAction::GraphPushCurrent).is_empty());
}
