use lil_big_helper::app::user_command::{
    build_external_command_parameters, extract_user_command_by_number,
    extract_user_command_refresh_by_number, open_user_command,
};
use lil_big_helper::config::{ClipboardConfig, UserCommand, UserCommandConfig, UserCommandType};
use lil_big_helper::external::{
    build_user_command, check_login, clipboard_failure, codex_output_name, commit_message_outcome,
    copy_to_clipboard, describe_codex_failure, ensure_codex_authenticated, exec_user_command,
    exec_user_command_suspend, generate_commit_message_with_codex, read_commit_message,
    replace_command_arg, ClipboardPlan, ClipboardStage, ExternalCommandParameters,
    NOT_AUTHENTICATED,
};
use lil_big_helper::git::commands::Output;
use lil_big_helper::git::{Commit, CommitHash, Ref};
use lil_big_helper::names::NameMap;

fn words(v: &[&str]) -> Vec<String> {
    v.iter().map(|s| s.to_string()).collect()
}

fn parameters(command: &[String]) -> ExternalCommandParameters<'_> {
    ExternalCommandParameters {
        command,
        target_hash: "abc",
        parent_hashes: vec!["p1", "p2"],
        all_refs: vec!["main", "v1"],
        branches: vec!["main"],
        remote_branches: vec![],
        tags: vec!["v1"],
        area_width: 80,
        area_height: 20,
    }
}

#[test]
fn markers_are_filled_in() {
    let command = words(&[
        "git",
        "show",
        "{{target_hash}}..{{first_parent_hash}}",
        "{{area_width}}x{{area_height}}",
        "{{parent_hashes}}",
        "{{remote_branches}}",
        "{{refs}}",
    ]);
    let p = parameters(&command);
    assert_eq!(
        build_user_command(&p),
        vec!["git", "show", "abc..p1", "80x20", "p1", "p2", "main", "v1"]
    );
    assert_eq!(replace_command_arg("{{tags}}!", &p), "v1!");
    assert_eq!(replace_command_arg("plain", &p), "plain");
}

fn output(code: i32, stdout: &str, stderr: &str) -> Output {
    Output {
        code: Some(code),
        stdout: stdout.into(),
        stderr: stderr.into(),
    }
}

#[test]
fn outcomes_of_commands_are_read() {
    assert_eq!(
        exec_user_command(&output(0, "a\tb\n", ""), "exit status: 0"),
        Ok("a\tb\n".into())
    );
    assert_eq!(
        exec_user_command(&output(1, "", "bad"), "exit status: 1"),
        Err("Command exited with non-zero status: exit status: 1, stderr: bad".into())
    );
    assert_eq!(exec_user_command_suspend(Some(0), "exit status: 0"), Ok(()));
    assert_eq!(
        exec_user_command_suspend(Some(2), "exit status: 2"),
        Err("Command exited with non-zero status: exit status: 2".into())
    );
}

fn config() -> UserCommandConfig {
    let mut commands = NameMap::new();
    commands.insert(
        "1",
        UserCommand {
            name: "show".into(),
            kind: UserCommandType::Inline,
            commands: words(&["git", "show"]),
            refresh: true,
        },
    );
    UserCommandConfig { commands }
}

#[test]
fn commands_go_by_their_number() {
    let config = config();
    assert_eq!(
        extract_user_command_by_number(1, &config).unwrap().name,
        "show"
    );
    assert_eq!(
        extract_user_command_by_number(2, &config).unwrap_err(),
        "No user command configured for number 2"
    );
    assert!(extract_user_command_refresh_by_number(1, &config));
    assert!(!extract_user_command_refresh_by_number(2, &config));

    let target = CommitHash::from("abc");
    let commit = Commit {
        commit_hash: target.clone(),
        ..Commit::default()
    };
    let refs = vec![
        Ref::Branch {
            name: "main".into(),
            target: target.clone(),
        },
        Ref::Stash {
            name: "stash@{0}".into(),
            message: "m".into(),
            target: target.clone(),
        },
        Ref::Tag {
            name: "v1".into(),
            target,
        },
    ];
    let p = build_external_command_parameters(&commit, &refs, 1, 84, 30, 20, &config).unwrap();
    assert_eq!(p.all_refs, vec!["main", "v1"]);
    assert_eq!(p.branches, vec!["main"]);
    assert_eq!((p.area_width, p.area_height), (80, 19));
    assert!(build_external_command_parameters(&commit, &refs, 3, 84, 30, 20, &config).is_err());
}

#[test]
fn outcomes_go_by_the_kind_of_command() {
    let inline = open_user_command(UserCommandType::Inline, true, Ok("out".into()));
    assert_eq!(inline.show, Some("out".into()));
    assert!(!inline.refresh && !inline.clear);
    let silent = open_user_command(UserCommandType::Silent, true, Err("bad".into()));
    assert_eq!(silent.error, Some("bad".into()));
    assert!(!silent.refresh && silent.clear);
    assert!(open_user_command(UserCommandType::Silent, true, Ok(String::new())).refresh);
    let suspend = open_user_command(UserCommandType::Suspend, true, Err("bad".into()));
    assert!(suspend.refresh);
}

#[test]
fn the_clipboard_is_filled_as_set() {
    assert_eq!(
        copy_to_clipboard(&ClipboardConfig::Auto),
        Ok(ClipboardPlan::System)
    );
    assert_eq!(
        copy_to_clipboard(&ClipboardConfig::Custom { commands: vec![] }),
        Err("No clipboard command specified".into())
    );
    assert_eq!(
        copy_to_clipboard(&ClipboardConfig::Custom {
            commands: words(&["wl-copy"])
        }),
        Ok(ClipboardPlan::Program {
            commands: words(&["wl-copy"])
        })
    );
    assert_eq!(
        clipboard_failure(ClipboardStage::Run, "x", "e"),
        "Failed to run x: e"
    );
    assert_eq!(
        clipboard_failure(ClipboardStage::Write, "x", "e"),
        "Failed to write to x: e"
    );
    assert_eq!(
        clipboard_failure(ClipboardStage::Wait, "x", "e"),
        "x failed: e"
    );
}

#[test]
fn the_assistant_has_to_know_the_user() {
    assert_eq!(check_login(true, "Logged in using x", ""), Ok(()));
    assert_eq!(check_login(true, "", ""), Err(NOT_AUTHENTICATED.into()));
    assert_eq!(
        check_login(false, "", "Login Required"),
        Err(NOT_AUTHENTICATED.into())
    );
    assert_eq!(
        check_login(false, "", "no such file"),
        Err("Failed to check Codex login status: no such file".into())
    );
    assert_eq!(
        ensure_codex_authenticated(&output(0, "", "Logged in")),
        Ok(())
    );
}

#[test]
fn the_assistant_writes_a_message() {
    assert_eq!(
        codex_output_name(7, 42),
        "lil-big-helper-codex-commit-7-42.txt"
    );
    let asked = generate_commit_message_with_codex(Ok(()), "/r", "diff", "/o").unwrap();
    assert_eq!(asked[..7], ["exec", "--color", "never", "-C", "/r", "-o", "/o"]);
    assert_eq!(
        generate_commit_message_with_codex(Ok(()), "/r", " \n", "/o"),
        Err("No staged diff available to generate a commit message".into())
    );
    assert_eq!(
        generate_commit_message_with_codex(Err("e".into()), "/r", "d", "/o"),
        Err("e".into())
    );
    assert_eq!(read_commit_message(Ok(" m\n".into())), Ok("m".into()));
    assert_eq!(
        read_commit_message(Ok(" ".into())),
        Err("Codex returned an empty commit message".into())
    );
    assert_eq!(
        read_commit_message(Err("e".into())),
        Err("Failed to read codex commit message output: e".into())
    );
    assert_eq!(
        describe_codex_failure("", "exit status: 1"),
        "codex exited with non-zero status: exit status: 1"
    );
    assert_eq!(describe_codex_failure("bad", "s"), "codex failed: bad");
    assert_eq!(
        commit_message_outcome(&output(1, "", "Unauthorized"), "s", Ok("m".into())),
        Err(NOT_AUTHENTICATED.into())
    );
    assert_eq!(
        commit_message_outcome(&output(0, "", ""), "s", Ok("m".into())),
        Ok("m".into())
    );
}
