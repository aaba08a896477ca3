use lil_big_helper::config::GitHelperConfig;
use lil_big_helper::protection::{
    install_or_update_pre_commit_hook, is_protected_branch, managed_hook_content,
    replace_managed_block, HookPlan, MANAGED_END, MANAGED_START,
};

fn config() -> GitHelperConfig {
    GitHelperConfig {
        protected_base_branches: vec!["main".into(), "dev".into()],
        ..GitHelperConfig::default()
    }
}

#[test]
fn protected_branch_match() {
    assert!(is_protected_branch("main", &config()));
    assert!(!is_protected_branch("feature/test", &config()));
}

#[test]
fn install_hook_refuses_unmanaged_hook() {
    let err =
        install_or_update_pre_commit_hook(Some("#!/bin/sh\necho custom\n"), &config()).unwrap_err();
    assert!(err.contains("unmanaged"));
}

#[test]
fn install_hook_creates_managed_file() {
    let plan = install_or_update_pre_commit_hook(None, &config()).unwrap();
    match plan {
        HookPlan::Create { content } => {
            assert!(content.contains(MANAGED_START));
            assert!(content.contains(MANAGED_END));
        }
        HookPlan::Update { .. } => panic!("there was no hook to update"),
    }
}

#[test]
fn the_hook_names_the_protected_branches() {
    let content = managed_hook_content(&config());
    assert_eq!(
        content,
        "#!/bin/sh\n# lil-big-helper managed start\nbranch=\"$(git branch --show-current)\"\nfor protected in \"main\" \"dev\"; do\n  if [ \"$branch\" = \"$protected\" ]; then\n    echo \"lil-big-helper: direct commits to protected branch '$branch' are blocked\"\n    exit 1\n  fi\ndone\n# lil-big-helper managed end\n"
    );
}

#[test]
fn an_update_keeps_what_stands_around_the_block() {
    let existing = format!("before\n{MANAGED_START}\nold\n{MANAGED_END}\nafter\n");
    let updated = replace_managed_block(&existing, "new\n").unwrap();
    assert_eq!(updated, "before\nnew\nafter\n");

    let plan = install_or_update_pre_commit_hook(Some(&existing), &config()).unwrap();
    match plan {
        HookPlan::Update { content } => {
            assert!(content.starts_with("before\n#!/bin/sh\n"));
            assert!(content.ends_with("\nafter\n"));
        }
        HookPlan::Create { .. } => panic!("there was a hook"),
    }
}

#[test]
fn blocks_without_markers_are_refused() {
    assert_eq!(
        replace_managed_block("nothing", "new").unwrap_err(),
        "missing managed hook start marker"
    );
    assert_eq!(
        replace_managed_block(MANAGED_START, "new").unwrap_err(),
        "missing managed hook end marker"
    );
}
