use std::rc::Rc;

use lil_big_helper::color::{Color, ColorTheme};
use lil_big_helper::config::UserListColumnType;
use lil_big_helper::event::{Key, KeyCode, KeyKind, Modifiers, UserEvent, UserEventWithCount};
use lil_big_helper::external::{build_user_command, ExternalCommandParameters};
use lil_big_helper::git::changes::StatusEntry;
use lil_big_helper::git::history::{build_commits_maps, merge_stashes_to_commits};
use lil_big_helper::git::refs::merge_ref_maps;
use lil_big_helper::git::{Commit, CommitHash, Head, Ref};
use lil_big_helper::layout::{calc_cell_widths, Constraint};
use lil_big_helper::names::NameMap;
use lil_big_helper::order::less;
use lil_big_helper::text::{join, split};
use lil_big_helper::view::status::StatusView;
use lil_big_helper::widget::branch_visual::BranchVisuals;
use lil_big_helper::widget::commit_list::CommitListState;
use lil_big_helper::widget::commit_row::CommitInfo;
use lil_big_helper::widget::cursor::Cursor;
use lil_big_helper::widget::highlight::highlight;
use lil_big_helper::widget::search::SearchMatchPosition;
use lil_big_helper::workflow::{build_workflow_prompt, WorkflowAction, WorkflowPromptContext};

fn commit(hash: &str, parents: &[&str]) -> Commit {
    Commit {
        commit_hash: CommitHash::from(hash),
        parent_commit_hashes: parents.iter().map(|p| CommitHash::from(*p)).collect(),
        ..Commit::default()
    }
}

#[test]
fn children_are_the_other_way_round() {
    let commits = vec![commit("m", &["a", "b"]), commit("a", &["b"])];
    let (parents, children) = build_commits_maps(&commits);
    assert_eq!(parents.get("m").unwrap().len(), 2);
    let of_b: Vec<&str> = children.get("b").unwrap().iter().map(|h| h.as_str()).collect();
    assert_eq!(of_b, vec!["m", "a"]);
    assert!(parents.get("b").is_none());

    let commits = vec![commit("m", &["a", "a", "b"]), commit("m", &["a"])];
    let (parents, children) = build_commits_maps(&commits);
    let of_m: Vec<&str> = parents.get("m").unwrap().iter().map(|h| h.as_str()).collect();
    assert_eq!(of_m, vec!["a", "a", "b", "a"]);
    assert_eq!(children.get("a").unwrap().len(), 3);
    assert_eq!(children.get("b").unwrap().len(), 1);
}

#[test]
fn stashes_of_unknown_commits_are_left_out() {
    let merged = merge_stashes_to_commits(
        vec![commit("a", &[])],
        vec![commit("s", &["gone"]), commit("t", &["a"])],
    );
    let hashes: Vec<&str> = merged.iter().map(|c| c.commit_hash.as_str()).collect();
    assert_eq!(hashes, vec!["t", "a"]);
}

#[test]
fn merged_references_keep_both_parts() {
    let tag = |name: &str| Ref::Tag {
        name: name.into(),
        target: CommitHash::from("a"),
    };
    let mut first = NameMap::new();
    first.insert("a", vec![tag("x")]);
    let mut second = NameMap::new();
    second.insert("a", vec![tag("y")]);
    second.insert("b", vec![tag("z")]);
    merge_ref_maps(&mut first, &second);
    let names: Vec<&str> = first.get("a").unwrap().iter().map(|r| r.name()).collect();
    assert_eq!(names, vec!["x", "y"]);
    assert_eq!(first.get("b").unwrap().len(), 1);
}

#[test]
fn columns_fit_into_their_area() {
    let columns = [
        UserListColumnType::Graph,
        UserListColumnType::Marker,
        UserListColumnType::Status,
        UserListColumnType::Subject,
        UserListColumnType::Name,
    ];
    for area in 27..120 {
        let sum: u16 = calc_cell_widths(area, 20, 6, 10, 15, &columns)
            .into_iter()
            .map(|c| match c {
                Constraint::Length(n) => n,
                Constraint::Min(_) => 20,
            })
            .sum();
        assert!(sum <= area);
    }
}

#[test]
fn fitting_keeps_the_selected_item() {
    let mut cursor = Cursor::new(20);
    cursor.reset_height(10);
    cursor.select_last();
    assert_eq!(cursor.current(), 19);
    cursor.fit(4);
    assert_eq!(cursor.current(), 19);
    assert_eq!(cursor.selected, 3);
    let before = cursor;
    cursor.fit(4);
    assert_eq!(cursor, before);
    cursor.fit(15);
    assert_eq!((cursor.current(), cursor.offset), (19, 5));
}

#[test]
fn single_steps_are_undone() {
    let mut cursor = Cursor::new(20);
    cursor.reset_height(5);
    for i in 0..19 {
        assert_eq!(cursor.current(), i);
        cursor.select_next();
    }
    cursor.select_next();
    assert_eq!(cursor.current(), 19);
    cursor.select_prev();
    cursor.select_next();
    assert_eq!(cursor.current(), 19);
    cursor.jump(7);
    assert_eq!(cursor.current(), 7);
    cursor.scroll_down();
    assert_eq!(cursor.offset, 8);
}

#[test]
fn pieces_join_to_the_text() {
    for text in ["a/b/c", "", "/", "a//b/"] {
        assert_eq!(join(&split(text, '/'), "/"), text);
    }
    assert!(less("a", "ab"));
    assert!(less("Z", "a"));
    assert!(!less("b", "b"));
}

#[test]
fn highlighting_changes_no_text() {
    let theme = ColorTheme::default();
    let pos = SearchMatchPosition::new(vec![0, 2, 3]);
    let spans = highlight("héllo", pos, Color::Green, false, &theme, false);
    assert!(spans.is_none());
    let pos = SearchMatchPosition::new(vec![0, 1, 3]);
    let spans = highlight("hello", pos, Color::Green, true, &theme, false).unwrap();
    let texts: Vec<&str> = spans.iter().map(|s| s.content.as_str()).collect();
    assert_eq!(texts, vec!["he", "l", "l", "o"]);
    assert_eq!(spans[0].style.bg, Some(theme.list_match_bg));
    assert_eq!(spans[1].style.fg, Some(Color::Green));
    assert!(spans.iter().all(|s| s.style.bold));
}

#[test]
fn commands_without_markers_are_run_as_they_are() {
    let command: Vec<String> = vec!["git".into(), "log".into(), "{x}".into()];
    let built = build_user_command(&ExternalCommandParameters {
        command: &command,
        target_hash: "abc",
        parent_hashes: vec![],
        all_refs: vec![],
        branches: vec![],
        remote_branches: vec![],
        tags: vec![],
        area_width: 1,
        area_height: 1,
    });
    assert_eq!(built, command);
}

#[test]
fn every_selected_path_is_named() {
    let paths: Vec<String> = vec!["a b".into(), "c/d".into()];
    let context = WorkflowPromptContext {
        repo_path: "/r".into(),
        current_branch: None,
        upstream_branch: None,
        base_branch: None,
        branch_prefix: "feature".into(),
        protected_branches: vec![],
        selected_paths: paths.clone(),
        selected_commit_hash: None,
        git_dummy_index_path: "/r/i".into(),
        git_dummy_index_exists: true,
        git_dummy_index_contents: None,
        require_git_dummy_index: false,
        auto_set_upstream_on_first_push: false,
        pr_create_default: String::new(),
    };
    let prompt = build_workflow_prompt(&WorkflowAction::StatusDiscard { paths }, &context);
    assert!(prompt.contains("- a b"));
    assert!(prompt.contains("- c/d"));
}

fn changed(path: &str) -> StatusEntry {
    StatusEntry {
        path: path.into(),
        staged: false,
        unstaged: true,
        untracked: false,
        deleted: false,
    }
}

fn other() -> Key {
    Key {
        code: KeyCode::Other,
        modifiers: Modifiers::default(),
        kind: KeyKind::Press,
    }
}

fn view<'a>(commit: &'a Commit, head: &'a Head, entries: Vec<StatusEntry>) -> StatusView<'a> {
    let visuals = BranchVisuals {
        ref_colors: NameMap::new(),
        fallback_colors: vec![Color::Green],
    };
    let list = CommitListState::new(
        vec![CommitInfo::new(commit, vec![], Color::Green)],
        2,
        head,
        Rc::new(visuals),
        NameMap::new(),
        false,
        false,
    );
    StatusView::new(list, entries)
}

#[test]
fn the_selected_row_stays_in_sight() {
    let commit = commit("abc", &[]);
    let head = Head::Unborn;
    let entries = (0..30).map(|i| changed(&format!("f{i:02}"))).collect();
    let mut view = view(&commit, &head, entries);
    let theme = ColorTheme::default();
    for count in [25, 3, 9] {
        view.handle_event(
            UserEventWithCount::new(UserEvent::NavigateDown, count),
            other(),
        );
        let rows = view.render_file_tree(8, &theme);
        assert_eq!(rows.len(), 6);
        let cursors = rows.iter().filter(|r| r.content.starts_with('›')).count();
        assert_eq!(cursors, 1);
    }
    view.handle_event(UserEventWithCount::new(UserEvent::NavigateUp, 29), other());
    assert!(view.render_file_tree(8, &theme)[0].content.starts_with('›'));
}

#[test]
fn selecting_a_folder_twice_selects_nothing() {
    let commit = commit("abc", &[]);
    let head = Head::Unborn;
    let mut view = view(&commit, &head, vec![changed("d/a"), changed("d/b")]);
    let toggle = UserEventWithCount::from_event(UserEvent::StatusToggle);
    view.handle_event(toggle, other());
    let theme = ColorTheme::default();
    let rows = view.render_file_tree(10, &theme);
    assert!(rows.iter().all(|r| r.content.contains("[x]")));
    view.handle_event(toggle, other());
    assert!(!view.has_selected_entries());
    let down = UserEventWithCount::from_event(UserEvent::NavigateDown);
    view.handle_event(down, other());
    view.handle_event(toggle, other());
    let rows = view.render_file_tree(10, &theme);
    assert!(rows[0].content.contains("[/]"));
    let up = UserEventWithCount::from_event(UserEvent::NavigateUp);
    view.handle_event(up, other());
    view.handle_event(toggle, other());
    let rows = view.render_file_tree(10, &theme);
    assert!(rows.iter().all(|r| r.content.contains("[x]")));
}

#[test]
fn folding_stays_on_the_folder() {
    let commit = commit("abc", &[]);
    let head = Head::Unborn;
    let entries = vec![changed("a/x"), changed("b/y"), changed("c")];
    let mut view = view(&commit, &head, entries);
    let event = UserEventWithCount::from_event;
    view.handle_event(UserEventWithCount::new(UserEvent::NavigateDown, 2), other());
    assert_eq!(view.diff_title(), "Diff b (1)");
    let theme = ColorTheme::default();
    let rows = view.render_file_tree(20, &theme).len();
    view.handle_event(event(UserEvent::NavigateLeft), other());
    assert_eq!(view.diff_title(), "Diff b (1)");
    assert_eq!(view.render_file_tree(20, &theme).len(), rows - 1);
    view.handle_event(event(UserEvent::NavigateRight), other());
    assert_eq!(view.diff_title(), "Diff b (1)");
    assert_eq!(view.render_file_tree(20, &theme).len(), rows);
}
