use lil_big_helper::decode::{lines, split_records, trimmed_output};
use lil_big_helper::git::changes::{
    get_diff_summary, get_initial_commit_additions, is_change_line, FileChange,
};
use lil_big_helper::git::commands::{
    check_git_repository, get_current_branch, get_local_branches, git_diff_output, git_lines,
    git_stdout, is_dirty, push, refresh_hidden_base_worktree, run_git, Output,
};
use lil_big_helper::git::history::merge_stashes_to_commits;
use lil_big_helper::git::log::{
    load_all_commits, load_all_stashes, load_commits_format, log_arguments, parse_commit,
    stash_arguments, RecordError,
};
use lil_big_helper::git::refs::{load_refs, load_stashes_as_refs};
use lil_big_helper::git::{Commit, CommitHash, CommitType, Head, Ref, Repository, SortCommit};
use lil_big_helper::names::NameMap;
use lil_big_helper::numerals::{parse_number, to_decimal};
use lil_big_helper::paths::join_path;
use lil_big_helper::sets::TextSet;

fn record(hash: &str, subject: &str, parents: &str) -> String {
    [
        hash,
        "Ada",
        "ada@example.org",
        "2026-04-23T10:00:00+02:00",
        "Bob",
        "bob@example.org",
        "2026-04-23T00:00:00.5+00:00",
        subject,
        "body\n",
        parents,
    ]
    .join("\x1f")
}

#[test]
fn a_record_is_read_field_by_field() {
    let c = parse_commit(&record("abcdef0123", "fix", "p1 p2"), CommitType::Stash).unwrap();
    assert_eq!(c.commit_hash.as_str(), "abcdef0123");
    assert_eq!(c.commit_hash.as_short_hash(), "abcdef0");
    assert_eq!(c.author_name, "Ada");
    assert_eq!(c.author_date.seconds, 1776931200);
    assert_eq!(c.author_date.offset, 7200);
    assert_eq!(c.committer_email, "bob@example.org");
    assert_eq!(c.committer_date.seconds, 1776902400);
    assert_eq!(c.committer_date.nanos, 500_000_000);
    assert_eq!(c.subject, "fix");
    assert_eq!(c.body, "body\n");
    assert_eq!(c.parent_commit_hashes.len(), 2);
    assert_eq!(c.commit_type, CommitType::Stash);
}

#[test]
fn records_that_are_none_are_refused() {
    let e = parse_commit("a\x1fb", CommitType::Commit).unwrap_err();
    assert!(matches!(e, RecordError::Parts { count: 2, .. }));
    assert_eq!(e.message(), "unexpected number of parts: 2 [a\x1fb]");
    let bad = record("h", "s", "").replace("2026-04-23T10", "yesterday");
    let e = parse_commit(&bad, CommitType::Commit).unwrap_err();
    assert!(matches!(e, RecordError::Date { .. }));
    assert!(e.message().starts_with("unexpected date: yesterday"));
}

#[test]
fn logs_are_read_record_by_record() {
    let log = [record("h1", "one", "h2"), record("h2", "two", "")].join("\0");
    let commits = load_all_commits(log.as_bytes()).unwrap();
    assert_eq!(commits.len(), 2);
    assert_eq!(commits[1].subject, "two");
    assert!(commits[1].parent_commit_hashes.is_empty());
    assert!(load_all_commits(b"").unwrap().is_empty());
    let stashes = load_all_stashes(log.as_bytes()).unwrap();
    assert_eq!(stashes[0].commit_type, CommitType::Stash);
    let mut broken = record("h", "ok", "").into_bytes();
    broken[0] = 0xff;
    let commits = load_all_commits(&broken).unwrap();
    assert_eq!(commits[0].commit_hash.as_str(), "\u{fffd}");
}

#[test]
fn git_is_asked_for_the_log() {
    assert_eq!(
        load_commits_format(),
        "%H%x1f%an%x1f%ae%x1f%ad%x1f%cn%x1f%ce%x1f%cd%x1f%s%x1f%b%x1f%P"
    );
    let asked = log_arguments(SortCommit::Topological, &Head::Unborn, &[], Some(5));
    assert_eq!(asked[0], "log");
    assert_eq!(asked[1], "--topo-order");
    assert!(asked.contains(&"--max-count".to_string()) || asked.contains(&"--max-count=5".into()));
    assert_eq!(stash_arguments()[..2], ["stash", "list"]);
}

fn commit(hash: &str, parents: &[&str]) -> Commit {
    Commit {
        commit_hash: CommitHash::from(hash),
        parent_commit_hashes: parents.iter().map(|p| CommitHash::from(*p)).collect(),
        ..Commit::default()
    }
}

#[test]
fn stashes_stand_before_what_they_were_made_from() {
    let merged = merge_stashes_to_commits(
        vec![commit("a", &["b"]), commit("b", &[])],
        vec![commit("s1", &["b", "i1"]), commit("s2", &["b"])],
    );
    let hashes: Vec<&str> = merged.iter().map(|c| c.commit_hash.as_str()).collect();
    assert_eq!(hashes, vec!["a", "s1", "s2", "b"]);
}

#[test]
fn a_repository_knows_parents_and_children() {
    let repo = Repository::load(
        "/repo".into(),
        vec![
            commit("m", &["a", "b"]),
            commit("a", &["r"]),
            commit("b", &["r"]),
            commit("r", &[]),
        ],
        vec![],
        NameMap::new(),
        &NameMap::new(),
        Head::Unborn,
    )
    .unwrap();
    let texts = |v: Vec<&CommitHash>| -> Vec<String> {
        v.into_iter().map(|h| h.as_str().to_string()).collect()
    };
    assert_eq!(
        texts(repo.parents_hash(&CommitHash::from("m"))),
        vec!["a", "b"]
    );
    assert_eq!(
        texts(repo.children_hash(&CommitHash::from("r"))),
        vec!["a", "b"]
    );
    assert_eq!(repo.all_commits().len(), 4);
    assert!(repo.commit(&CommitHash::from("x")).is_none());
    assert_eq!(repo.path(), "/repo");
    assert_eq!(
        repo.commit_detail_arguments(&CommitHash::from("r")),
        vec!["ls-tree", "--name-status", "-r", "r"]
    );
    assert_eq!(
        repo.commit_detail_arguments(&CommitHash::from("m")),
        vec!["diff", "--name-status", "m^", "m"]
    );
    let (found, changes) = repo.commit_detail(&CommitHash::from("a"), "A\tx\n");
    assert_eq!(found.commit_hash.as_str(), "a");
    assert_eq!(changes.len(), 1);

    let refused = Repository::load(
        "/repo".into(),
        vec![],
        vec![],
        NameMap::new(),
        &NameMap::new(),
        Head::Unborn,
    );
    assert_eq!(refused.err(), Some("no commits in the repository".into()));
}

#[test]
fn references_are_read_and_ordered() {
    let output = "aaa HEAD\naaa refs/heads/main\nbbb refs/remotes/origin/main\nccc refs/tags/v1\nbbb refs/tags/v1^{}\nddd refs/stash\n";
    let (refs, head) = load_refs(output, &Some("main".into()));
    assert!(matches!(head, Head::Branch { ref name } if name == "main"));
    assert_eq!(refs.get("aaa").unwrap().len(), 1);
    let on_b: Vec<&str> = refs.get("bbb").unwrap().iter().map(|r| r.name()).collect();
    assert_eq!(on_b, vec!["v1", "origin/main"]);
    let (_, head) = load_refs("aaa HEAD\n", &None);
    assert!(matches!(head, Head::Detached { ref target } if target.as_str() == "aaa"));
}

#[test]
fn stashes_are_references_too() {
    let refs = load_stashes_as_refs("stash@{0}\x1faaa\x1fWIP on main\n");
    match &refs.get("aaa").unwrap()[0] {
        Ref::Stash { name, message, .. } => {
            assert_eq!(name, "stash@{0}");
            assert_eq!(message, "WIP on main");
        }
        other => panic!("{other:?}"),
    }
}

#[test]
fn changes_are_read_line_by_line() {
    let changes = get_diff_summary("A\ta\nM\tb\nD\tc\nR100\told\tnew\nC75\tfrom\tto\n");
    assert_eq!(changes.len(), 4);
    assert!(matches!(&changes[0], FileChange::Add { path } if path == "a"));
    assert!(matches!(&changes[1], FileChange::Modify { path } if path == "b"));
    assert!(matches!(&changes[2], FileChange::Delete { path } if path == "c"));
    assert!(matches!(&changes[3], FileChange::Move { from, to } if from == "old" && to == "new"));
    assert!(is_change_line("A\ta"));
    assert!(!is_change_line("R100\told"));
    let added = get_initial_commit_additions("a\nb\n");
    assert_eq!(added.len(), 2);
}

fn output(code: i32, stdout: &str, stderr: &str) -> Output {
    Output {
        code: Some(code),
        stdout: stdout.into(),
        stderr: stderr.into(),
    }
}

#[test]
fn outcomes_of_git_are_read() {
    assert_eq!(git_stdout(&output(0, " main\n", "")), Some("main".into()));
    assert_eq!(git_stdout(&output(0, " \n", "")), None);
    assert_eq!(git_stdout(&output(1, "main", "")), None);
    assert_eq!(get_current_branch(&output(0, "dev\n", "")), Some("dev".into()));
    assert_eq!(git_lines(&output(0, " M a\n M b\n", "")), vec!["M a", " M b"]);
    assert_eq!(get_local_branches(&output(0, "a\nb\n", "")), vec!["a", "b"]);
    assert!(is_dirty(&output(0, "M a", "")));
    assert!(!is_dirty(&output(0, "", "")));
    assert_eq!(run_git(&output(0, "", "")), Ok(()));
    assert_eq!(run_git(&output(1, "out", " err ")), Err("err".into()));
    assert_eq!(run_git(&output(1, "out", "")), Err("out".into()));
    assert_eq!(run_git(&output(1, "", "")), Err("git command failed".into()));
    assert_eq!(git_diff_output(&output(1, "d\n", ""), true), Ok("d\n".into()));
    assert_eq!(git_diff_output(&output(1, "d\n", ""), false), Err("d".into()));
    assert_eq!(git_diff_output(&output(2, "", "e"), true), Err("e".into()));
    assert!(check_git_repository(true, false).is_ok());
    assert!(check_git_repository(false, true).is_ok());
    assert!(check_git_repository(false, false).is_err());
}

#[test]
fn commands_are_put_together() {
    assert_eq!(push("origin", "dev", false), vec!["push", "origin", "dev"]);
    assert_eq!(
        push("origin", "dev", true),
        vec!["push", "--set-upstream", "origin", "dev"]
    );
    assert_eq!(
        refresh_hidden_base_worktree("main"),
        vec![
            vec!["fetch", "origin"],
            vec!["merge", "--ff-only", "origin/main"]
        ]
    );
}

#[test]
fn bytes_become_text() {
    assert_eq!(trimmed_output(b" a\xff \n"), "a\u{fffd}");
    assert_eq!(split_records(b"a\0b\0", 0), vec![b"a".to_vec(), b"b".to_vec()]);
    assert_eq!(lines("a\r\nb\n\nc"), vec!["a", "b", "", "c"]);
    assert_eq!(lines("a\n"), vec!["a"]);
}

#[test]
fn numbers_are_written_and_read() {
    assert_eq!(to_decimal(0), "0");
    assert_eq!(to_decimal(1234), "1234");
    assert_eq!(parse_number("1234"), Some(1234));
    assert_eq!(parse_number("+5"), Some(5));
    assert_eq!(parse_number(""), None);
    assert_eq!(parse_number("1x"), None);
    assert_eq!(parse_number("99999999999999999999999"), None);
}

#[test]
fn paths_are_joined() {
    assert_eq!(join_path("/a", "b"), "/a/b");
    assert_eq!(join_path("/a/", "b"), "/a/b");
    assert_eq!(join_path("/a", "/b"), "/b");
}

#[test]
fn names_and_sets_keep_each_text_once() {
    let mut map = NameMap::new();
    assert_eq!(map.insert("b", 1), None);
    assert_eq!(map.insert("a", 2), None);
    assert_eq!(map.insert("b", 3), Some(1));
    assert_eq!(map.len(), 2);
    assert_eq!(map.get("b"), Some(&3));
    assert_eq!(map.get("c"), None);
    assert_eq!((map.name_at(0), map.value_at(0)), ("b", &3));

    let mut set = TextSet::new();
    assert!(set.insert("b".into()));
    assert!(set.insert("a".into()));
    assert!(!set.insert("b".into()));
    assert_eq!(set.to_vec(), vec!["a", "b"]);
    assert!(set.remove("a"));
    assert!(!set.remove("a"));
    assert!(set.copy().contains("b"));
    assert!(!set.is_empty());
}
