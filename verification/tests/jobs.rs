use lil_big_helper::app::jobs::{
    current_branch_prefix, resolve_git_dir, Ask, Ending, Job, Point, Progress, Purpose, Task, Told,
};
use lil_big_helper::app::status_line::StatusLine;
use lil_big_helper::config::GitHelperConfig;

fn going(p: Progress) -> Job {
    match p {
        Progress::Going(job) => job,
        Progress::Ended(e) => panic!("{e:?}"),
    }
}

fn ended(p: Progress) -> Ending {
    match p {
        Progress::Ended(e) => e,
        Progress::Going(job) => panic!("{job:?}"),
    }
}

fn error(p: Progress) -> String {
    let e = ended(p);
    assert!(!e.refresh);
    match e.notice {
        Some(StatusLine::NotificationError(m)) => m,
        other => panic!("{other:?}"),
    }
}

fn git(ask: Ask) -> Vec<String> {
    match ask {
        Ask::Git {
            directory: None,
            arguments,
        } => arguments,
        other => panic!("{other:?}"),
    }
}

fn answer(s: &str) -> Told {
    Told::Answer(Some(s.into()))
}

fn done() -> Told {
    Told::Done(Ok(()))
}

#[test]
fn a_branch_is_made_on_a_base_that_is_up_to_date() {
    let config = GitHelperConfig::default();
    let job = going(
        Task::CreateBranch {
            base_branch: "main".into(),
            suffix: " /login/ ".into(),
        }
        .begin(),
    );
    assert_eq!(job.name, "login");
    assert_eq!(
        git(job.ask(&config)),
        vec!["rev-parse", "--show-toplevel"]
    );
    let job = going(job.tell(answer("/repo"), &config));
    assert_eq!(
        job.ask(&config),
        Ask::Exists {
            path: "/repo/.lbh/worktrees/main".into()
        }
    );
    let job = going(job.tell(Told::Flag(false), &config));
    assert!(matches!(job.ask(&config), Ask::MakeParents { .. }));
    let job = going(job.tell(done(), &config));
    assert_eq!(
        git(job.ask(&config)),
        vec![
            "worktree",
            "add",
            "-B",
            "main",
            "/repo/.lbh/worktrees/main",
            "main"
        ]
    );
    let job = going(job.tell(done(), &config));
    assert_eq!(
        job.ask(&config),
        Ask::Git {
            directory: Some("/repo/.lbh/worktrees/main".into()),
            arguments: vec!["branch".into(), "--show-current".into()],
        }
    );
    let job = going(job.tell(answer("main"), &config));
    let job = going(job.tell(Told::Flag(false), &config));
    assert_eq!(job.point, Point::FetchBase);
    let job = going(job.tell(done(), &config));
    assert_eq!(
        job.ask(&config),
        Ask::Git {
            directory: Some("/repo/.lbh/worktrees/main".into()),
            arguments: vec!["merge".into(), "--ff-only".into(), "origin/main".into()],
        }
    );
    let job = going(job.tell(done(), &config));
    assert_eq!(job.ask(&config), Ask::Prefix);
    let job = going(job.tell(Told::Lookup(Ok(Some("mason".into()))), &config));
    assert_eq!(git(job.ask(&config)), vec!["branch", "mason/login", "main"]);
    let job = going(job.tell(done(), &config));
    assert_eq!(git(job.ask(&config)), vec!["switch", "mason/login"]);
    let job = going(job.tell(done(), &config));
    assert_eq!(
        job.ask(&config),
        Ask::RecordOrigin {
            branch: "mason/login".into(),
            base: "main".into(),
        }
    );
    let e = ended(job.tell(done(), &config));
    assert!(e.refresh);
    assert_eq!(e.notice, None);
}

#[test]
fn names_that_are_left_empty_are_refused() {
    assert_eq!(
        error(
            Task::CreateBranch {
                base_branch: "main".into(),
                suffix: "//".into(),
            }
            .begin()
        ),
        "Branch suffix cannot be empty"
    );
    assert_eq!(
        error(Task::SwitchBranch { branch: " ".into() }.begin()),
        "Branch name cannot be empty"
    );
}

fn at(purpose: Purpose, point: Point) -> Job {
    Job {
        purpose,
        point,
        branch: "feature/x".into(),
        base: "main".into(),
        name: "dev".into(),
        path: "/repo/.lbh/worktrees/main".into(),
    }
}

#[test]
fn changes_are_stashed_before_a_switch() {
    let config = GitHelperConfig::default();
    let job = going(
        Task::SwitchBranch {
            branch: " dev ".into(),
        }
        .begin(),
    );
    assert_eq!(git(job.ask(&config)), vec!["status", "--short"]);
    let job = going(job.tell(Told::Flag(true), &config));
    let job = going(job.tell(answer("main"), &config));
    assert_eq!(
        git(job.ask(&config)),
        vec!["stash", "push", "-u", "-m", "lbh: main -> dev"]
    );
    let job = going(job.tell(done(), &config));
    assert_eq!(git(job.ask(&config)), vec!["switch", "dev"]);
    assert!(ended(job.tell(done(), &config)).refresh);

    let clean = going(Task::SwitchBranch { branch: "dev".into() }.begin());
    let clean = going(clean.tell(Told::Flag(false), &config));
    assert_eq!(clean.point, Point::SwitchBranch);

    let detached = at(Purpose::SwitchBranch, Point::FindCurrent);
    let detached = going(detached.tell(Told::Answer(None), &config));
    assert_eq!(detached.branch, "detached");
}

#[test]
fn the_first_push_sets_the_upstream() {
    let mut config = GitHelperConfig::default();
    let job = going(Task::PushCurrentBranch.begin());
    assert_eq!(git(job.ask(&config)), vec!["branch", "--show-current"]);
    let job = going(job.tell(answer("dev"), &config));
    assert_eq!(
        git(job.ask(&config)),
        vec![
            "rev-parse",
            "--abbrev-ref",
            "--symbolic-full-name",
            "@{upstream}"
        ]
    );
    let first = going(job.tell(Told::Answer(None), &config));
    assert_eq!(
        git(first.ask(&config)),
        vec!["push", "--set-upstream", "origin", "dev"]
    );
    let known = at(Purpose::PushCurrentBranch, Point::FindUpstream);
    let known = going(known.tell(answer("origin/x"), &config));
    assert_eq!(
        git(known.ask(&config)),
        vec!["push", "origin", "feature/x"]
    );
    config.auto_set_upstream_on_first_push = false;
    let plain = at(Purpose::PushCurrentBranch, Point::FindUpstream);
    let plain = going(plain.tell(Told::Answer(None), &config));
    assert_eq!(plain.point, Point::Push);
    let detached = at(Purpose::PushCurrentBranch, Point::FindCurrent);
    assert_eq!(
        error(detached.tell(Told::Answer(None), &config)),
        "Not on a branch"
    );
}

#[test]
fn a_base_is_merged_into_a_clean_tree_only() {
    let config = GitHelperConfig::default();
    let job = going(Task::MergeBase.begin());
    assert_eq!(
        error(job.tell(Told::Flag(true), &config)),
        "Worktree is dirty; stash or commit before merging base"
    );
    let job = going(Task::MergeBase.begin());
    let job = going(job.tell(Told::Flag(false), &config));
    let job = going(job.tell(answer("feature/x"), &config));
    assert_eq!(
        job.ask(&config),
        Ask::Origin {
            branch: "feature/x".into()
        }
    );
    let job = going(job.tell(Told::Lookup(Ok(Some("main".into()))), &config));
    assert_eq!(job.point, Point::FindRoot);
    let last = at(Purpose::MergeBase, Point::ForwardBase);
    let last = going(last.tell(done(), &config));
    assert_eq!(git(last.ask(&config)), vec!["merge", "--no-edit", "main"]);
    assert!(ended(last.tell(done(), &config)).refresh);

    let unknown = at(Purpose::MergeBase, Point::FindOrigin);
    assert_eq!(
        error(unknown.tell(Told::Lookup(Ok(None)), &config)),
        "No base branch recorded for 'feature/x'"
    );
    let broken = at(Purpose::MergeBase, Point::FindOrigin);
    assert_eq!(
        error(broken.tell(Told::Lookup(Err("bad state".into())), &config)),
        "bad state"
    );
}

#[test]
fn worktrees_are_checked() {
    let config = GitHelperConfig::default();
    let job = at(Purpose::CreateBranch, Point::FindWorktreeBranch);
    assert_eq!(
        error(job.tell(answer("dev"), &config)),
        "Hidden worktree '/repo/.lbh/worktrees/main' is not checked out to 'main'"
    );
    let job = at(Purpose::CreateBranch, Point::FindWorktreeState);
    assert_eq!(
        error(job.tell(Told::Flag(true), &config)),
        "Hidden worktree '/repo/.lbh/worktrees/main' is dirty"
    );
    let job = at(Purpose::CreateBranch, Point::FindRoot);
    assert_eq!(
        error(job.tell(Told::Answer(None), &config)),
        "Failed to resolve repository root"
    );
    let job = at(Purpose::CreateBranch, Point::FetchBase);
    assert_eq!(
        error(job.tell(Told::Done(Err("no network".into())), &config)),
        "no network"
    );
}

fn success(p: Progress) -> (String, bool) {
    let e = ended(p);
    match e.notice {
        Some(StatusLine::NotificationSuccess(m)) => (m, e.refresh),
        other => panic!("{other:?}"),
    }
}

#[test]
fn what_is_set_is_reported() {
    let config = GitHelperConfig::default();
    let job = going(
        Task::SetBase {
            base_branch: " dev ".into(),
        }
        .begin(),
    );
    assert_eq!(
        git(job.ask(&config)),
        vec!["for-each-ref", "--format=%(refname:short)", "refs/heads"]
    );
    let job = going(job.tell(Told::Lines(vec!["main".into(), "dev".into()]), &config));
    let job = going(job.tell(answer("x"), &config));
    assert_eq!(
        success(job.tell(done(), &config)),
        ("Base branch for 'x' set to 'dev'".to_string(), true)
    );
    let job = going(
        Task::SetBase {
            base_branch: "gone".into(),
        }
        .begin(),
    );
    assert_eq!(
        error(job.tell(Told::Lines(vec![]), &config)),
        "Unknown local branch 'gone'"
    );

    let job = going(
        Task::SetBranchPrefix {
            prefix: "/mason/".into(),
        }
        .begin(),
    );
    assert_eq!(
        job.ask(&config),
        Ask::RecordPrefix {
            prefix: Some("mason".into())
        }
    );
    assert_eq!(
        success(job.tell(done(), &config)),
        ("Branch prefix set to 'mason'".to_string(), true)
    );
    let job = going(Task::SetBranchPrefix { prefix: "".into() }.begin());
    assert_eq!(job.ask(&config), Ask::RecordPrefix { prefix: None });
    assert_eq!(
        success(job.tell(done(), &config)),
        (
            "Branch prefix reset to default 'feature'".to_string(),
            false
        )
    );

    let job = going(Task::InstallHook.begin());
    assert_eq!(
        git(job.ask(&config)),
        vec!["rev-parse", "--absolute-git-dir"]
    );
    let job = going(job.tell(answer("/repo/.git"), &config));
    assert_eq!(
        job.ask(&config),
        Ask::WriteHook {
            git_dir: "/repo/.git".into()
        }
    );
    assert_eq!(
        success(job.tell(done(), &config)),
        ("Installed lil-big-helper pre-commit hook".to_string(), false)
    );
    let job = going(Task::InstallHook.begin());
    assert_eq!(
        error(job.tell(Told::Answer(None), &config)),
        "Failed to resolve git dir"
    );
    assert_eq!(
        resolve_git_dir(None),
        Err("Failed to resolve git dir".to_string())
    );
}

#[test]
fn the_prefix_is_what_is_remembered_or_set() {
    let config = GitHelperConfig::default();
    assert_eq!(
        current_branch_prefix(Ok(Some("mason".into())), &config),
        "mason"
    );
    assert_eq!(current_branch_prefix(Ok(None), &config), "feature");
    assert_eq!(current_branch_prefix(Err("e".into()), &config), "feature");
}
