use std::rc::Rc;

use lil_big_helper::color::{Color, ColorTheme};
use lil_big_helper::event::{
    AppEvent, Key, KeyCode, KeyKind, Modifiers, UserEvent, UserEventWithCount,
};
use lil_big_helper::git::changes::{
    get_status_diff, get_status_diff_requests, get_status_entries, is_cut_line, parse_status_entry,
    StatusEntry,
};
use lil_big_helper::git::{Commit, CommitHash, Head};
use lil_big_helper::names::NameMap;
use lil_big_helper::sets::TextSet;
use lil_big_helper::view::context::StatusRefreshViewContext;
use lil_big_helper::view::status::{
    next_focus, row_entry_paths, selected_paths, selection_marker, selection_state_for_row,
    style_diff_line, FocusArea, SelectionState, StatusView,
};
use lil_big_helper::view::status_tree::TreeRow;
use lil_big_helper::widget::branch_visual::BranchVisuals;
use lil_big_helper::widget::commit_list::CommitListState;
use lil_big_helper::widget::commit_row::CommitInfo;
use lil_big_helper::workflow::WorkflowAction;

#[test]
fn focus_cycles_between_files_and_buttons() {
    assert_eq!(
        next_focus(FocusArea::Files, false),
        FocusArea::DiscardButton
    );
    assert_eq!(
        next_focus(FocusArea::DiscardButton, false),
        FocusArea::CommitButton
    );
    assert_eq!(next_focus(FocusArea::CommitButton, false), FocusArea::Files);
    assert_eq!(next_focus(FocusArea::Files, true), FocusArea::CommitButton);
}

fn changed(path: &str) -> StatusEntry {
    StatusEntry {
        path: path.into(),
        staged: false,
        unstaged: true,
        untracked: false,
        deleted: false,
    }
}

#[test]
fn folder_selection_becomes_partial_when_child_is_deselected() {
    let entries = vec![
        StatusEntry {
            path: "src/app.rs".into(),
            staged: false,
            unstaged: true,
            untracked: false,
            deleted: false,
        },
        StatusEntry {
            path: "src/view/status.rs".into(),
            staged: false,
            unstaged: true,
            untracked: false,
            deleted: false,
        },
        StatusEntry {
            path: "README.md".into(),
            staged: false,
            unstaged: true,
            untracked: false,
            deleted: false,
        },
    ];
    let src_row = TreeRow {
        path: "src".into(),
        is_dir: true,
        is_expanded: true,
        has_children: true,
        label: "src/".into(),
        entry_indexes: vec![0, 1],
    };
    let mut selected = TextSet::new();
    for path in row_entry_paths(&src_row, &entries) {
        selected.insert(path);
    }
    assert_eq!(
        selection_state_for_row(&src_row, &entries, &selected),
        SelectionState::Full
    );
    selected.remove("src/app.rs");
    assert_eq!(
        selection_state_for_row(&src_row, &entries, &selected),
        SelectionState::Partial
    );
    assert_eq!(
        selected_paths(&selected),
        vec!["src/view/status.rs".to_string()]
    );
}

fn key(code: KeyCode, shift: bool) -> Key {
    Key {
        code,
        modifiers: Modifiers {
            shift,
            ..Modifiers::default()
        },
        kind: KeyKind::Press,
    }
}

fn other() -> Key {
    key(KeyCode::Other, false)
}

fn once(event: UserEvent) -> UserEventWithCount {
    UserEventWithCount::from_event(event)
}

fn list<'a>(commit: &'a Commit, head: &'a Head) -> CommitListState<'a> {
    let visuals = BranchVisuals {
        ref_colors: NameMap::new(),
        fallback_colors: vec![Color::Green],
    };
    CommitListState::new(
        vec![CommitInfo::new(commit, vec![], Color::Green)],
        2,
        head,
        Rc::new(visuals),
        NameMap::new(),
        false,
        false,
    )
}

fn commit() -> Commit {
    Commit {
        commit_hash: CommitHash::from("abc1234"),
        ..Commit::default()
    }
}

fn lines(view: &mut StatusView) -> Vec<String> {
    view.render_file_tree(20, &ColorTheme::default())
        .into_iter()
        .map(|s| s.content)
        .collect()
}

#[test]
fn the_tree_is_drawn_with_its_directories_opened() {
    let commit = commit();
    let head = Head::Unborn;
    let mut deleted = changed("src/b.rs");
    deleted.deleted = true;
    let mut untracked = changed("new");
    untracked.untracked = true;
    let entries = vec![
        changed("src/a.rs"),
        deleted,
        untracked,
        changed("src/view/c.rs"),
    ];
    let mut view = StatusView::new(list(&commit, &head), entries);
    assert_eq!(
        lines(&mut view),
        vec![
            "› [ ] ✚ new",
            "  [ ] ✖ ▾ src/",
            "  [ ] ├─ ● a.rs",
            "  [ ] ├─ ✖ b.rs",
            "  [ ] └─ ● ▾ view/",
            "  [ ]    └─ ● c.rs",
        ]
    );
    assert_eq!(view.file_tree_title(), "Changes [4]");
    assert_eq!(view.diff_title(), "Diff new (1)");

    let theme = ColorTheme::default();
    let rows = view.render_file_tree(20, &theme);
    assert_eq!(rows[0].style.fg, Some(theme.ref_selected_fg));
    assert_eq!(rows[0].style.bg, Some(theme.ref_selected_bg));
    assert_eq!(rows[1].style.fg, Some(theme.status_error_fg));
    assert!(rows[1].style.bold);
    assert!(!rows[2].style.bold);
    assert_eq!(rows[2].style.fg, Some(theme.list_ref_stash_fg));
}

#[test]
fn directories_are_closed_and_opened_again() {
    let commit = commit();
    let head = Head::Unborn;
    let mut view = StatusView::new(
        list(&commit, &head),
        vec![changed("src/a.rs"), changed("src/view/c.rs")],
    );
    assert_eq!(lines(&mut view).len(), 4);
    view.handle_event(once(UserEvent::NavigateLeft), other());
    assert_eq!(lines(&mut view), vec!["› [ ] ● ▸ src/"]);
    let reply = view.handle_event(once(UserEvent::NavigateRight), other());
    assert!(reply.load_diff);
    assert_eq!(lines(&mut view).len(), 4);

    view.handle_event(UserEventWithCount::new(UserEvent::NavigateDown, 9), other());
    assert_eq!(lines(&mut view)[3], "› [ ]    └─ ● c.rs");
    view.handle_event(once(UserEvent::NavigateLeft), other());
    assert_eq!(view.diff_title(), "Diff src/view (1)");
}

#[test]
fn selected_files_are_committed_or_discarded_in_order() {
    let commit = commit();
    let head = Head::Unborn;
    let mut view = StatusView::new(list(&commit, &head), vec![changed("b"), changed("a")]);

    let reply = view.handle_event(once(UserEvent::StatusCommit), other());
    match reply.event {
        Some(AppEvent::NotifyError(m)) => assert_eq!(m, "No selected paths to commit"),
        _ => panic!("nothing is selected"),
    }
    let reply = view.handle_event(once(UserEvent::StatusDiscard), other());
    match reply.event {
        Some(AppEvent::NotifyError(m)) => assert_eq!(m, "No selected paths to discard"),
        _ => panic!("nothing is selected"),
    }
    assert!(!view.has_selected_entries());

    view.handle_event(once(UserEvent::Confirm), other());
    view.handle_event(once(UserEvent::NavigateDown), other());
    view.handle_event(once(UserEvent::StatusToggle), other());
    assert!(view.has_selected_entries());
    let reply = view.handle_event(once(UserEvent::StatusDiscard), other());
    match reply.event {
        Some(AppEvent::RunWorkflowAction(WorkflowAction::StatusDiscard { paths })) => {
            assert_eq!(paths, vec!["a".to_string(), "b".to_string()])
        }
        _ => panic!("files are selected"),
    }

    view.handle_event(once(UserEvent::Unknown), key(KeyCode::Tab, true));
    let reply = view.handle_event(once(UserEvent::Confirm), other());
    match reply.event {
        Some(AppEvent::RunWorkflowAction(WorkflowAction::StatusCommit { paths })) => {
            assert_eq!(paths.len(), 2)
        }
        _ => panic!("the button commits"),
    }
    let theme = ColorTheme::default();
    let (discard, commit_button) = view.render_action_bar(&theme);
    assert_eq!(discard.label, theme.status_error_fg);
    assert_eq!(discard.frame, theme.divider_fg);
    assert_eq!(commit_button.label, theme.status_success_fg);
    assert_eq!(commit_button.frame, theme.ref_selected_fg);
}

#[test]
fn an_empty_tree_says_so() {
    let commit = commit();
    let head = Head::Unborn;
    let mut view = StatusView::new(list(&commit, &head), vec![]);
    assert_eq!(lines(&mut view), vec!["›     No changes"]);
    assert_eq!(view.diff_entries().len(), 0);
    view.set_diffs(vec![]);
    let shown = view.render_diff(10, &ColorTheme::default());
    assert_eq!(shown[0].content, "No diff available");
    view.reset_status_with(StatusRefreshViewContext { selected: 7 });
    assert_eq!(view.diff_title(), "Diff  (0)");
}

#[test]
fn diffs_are_shown_one_under_the_other() {
    let commit = commit();
    let head = Head::Unborn;
    let mut view = StatusView::new(
        list(&commit, &head),
        vec![changed("d/a"), changed("d/b"), changed("d/c")],
    );
    assert_eq!(view.diff_entries().len(), 3);
    view.set_diffs(vec![
        Ok("+x\n-y\n".to_string()),
        Ok(" \n".to_string()),
        Err("gone".to_string()),
    ]);
    let shown: Vec<String> = view
        .render_diff(20, &ColorTheme::default())
        .into_iter()
        .map(|s| s.content)
        .collect();
    assert_eq!(
        shown,
        vec![
            "=== d/a ===",
            "+x",
            "-y",
            "",
            "=== d/b ===",
            "No diff available",
            "",
            "=== d/c ===",
            "Failed to load diff: gone",
        ]
    );
    let window = view.render_diff(4, &ColorTheme::default());
    assert_eq!(window.len(), 2);

    view.handle_event(once(UserEvent::GoToBottom), other());
    view.set_diffs(vec![Ok(String::new())]);
    let shown = view.render_diff(20, &ColorTheme::default());
    assert_eq!(shown.len(), 1);
    assert_eq!(shown[0].content, "No diff available");
}

#[test]
fn the_selected_row_is_kept_over_a_refresh() {
    let commit = commit();
    let head = Head::Unborn;
    let mut view = StatusView::new(
        list(&commit, &head),
        vec![changed("a"), changed("b"), changed("c")],
    );
    view.reset_status_with(StatusRefreshViewContext { selected: 1 });
    assert_eq!(view.diff_title(), "Diff b (1)");
    view.reset_status_with(StatusRefreshViewContext { selected: 9 });
    assert_eq!(view.diff_title(), "Diff c (1)");
    let reply = view.handle_event(once(UserEvent::Close), other());
    assert!(matches!(reply.event, Some(AppEvent::CloseStatus)));
    let reply = view.handle_event(once(UserEvent::Refresh), other());
    assert!(matches!(reply.event, Some(AppEvent::Refresh(_))));
    let back = view.take_list_state();
    assert_eq!(back.selected_commit_hash().as_str(), "abc1234");
}

#[test]
fn markers_and_diff_lines_have_their_looks() {
    assert_eq!(selection_marker(SelectionState::Unselected), "[ ]");
    assert_eq!(selection_marker(SelectionState::Partial), "[/]");
    assert_eq!(selection_marker(SelectionState::Full), "[x]");
    let theme = ColorTheme::default();
    assert_eq!(
        style_diff_line("+a", &theme).style.fg,
        Some(theme.status_success_fg)
    );
    assert_eq!(style_diff_line("+++ a", &theme).style.fg, None);
    assert_eq!(
        style_diff_line("-a", &theme).style.fg,
        Some(theme.status_error_fg)
    );
    assert_eq!(style_diff_line("--- a", &theme).style.fg, None);
    assert_eq!(
        style_diff_line("@@ -1 +1 @@", &theme).style.fg,
        Some(theme.detail_label_fg)
    );
    assert_eq!(style_diff_line(" a", &theme).style.fg, None);
}

#[test]
fn lines_of_the_status_are_read() {
    let entry = parse_status_entry("?? new file").unwrap();
    assert_eq!(entry.path, "new file");
    assert!(entry.untracked && !entry.staged && !entry.unstaged && !entry.deleted);
    let entry = parse_status_entry("R  old -> src/new").unwrap();
    assert_eq!(entry.path, "src/new");
    assert!(entry.staged && !entry.unstaged);
    let entry = parse_status_entry(" D gone").unwrap();
    assert!(entry.deleted && entry.unstaged && !entry.staged);
    assert!(parse_status_entry("M a").is_none());
    assert!(is_cut_line("MM src/app.rs"));
    assert!(!is_cut_line("MMé x"));
    let all = get_status_entries(&["M  a.rs".to_string(), "".to_string(), " M b".to_string()]);
    assert_eq!(all.len(), 2);
}

#[test]
fn diffs_of_an_entry_are_asked_for_and_joined() {
    let mut entry = changed("f");
    assert_eq!(
        get_status_diff_requests(&entry)[0].arguments,
        vec!["diff", "--color=never", "--", "f"]
    );
    entry.staged = true;
    let requests = get_status_diff_requests(&entry);
    assert_eq!(requests.len(), 2);
    assert_eq!(
        requests[0].arguments,
        vec!["diff", "--cached", "--color=never", "--", "f"]
    );
    entry.untracked = true;
    let requests = get_status_diff_requests(&entry);
    assert_eq!(requests.len(), 1);
    assert!(requests[0].allow_exit_code_one);

    assert_eq!(get_status_diff(&[]), Ok(String::new()));
    assert_eq!(get_status_diff(&[Ok("x".into())]), Ok("x".into()));
    assert_eq!(get_status_diff(&[Err("e".into())]), Err("e".into()));
    assert_eq!(
        get_status_diff(&[Ok("a".into()), Err("e".into())]),
        Err("e".into())
    );
    assert_eq!(
        get_status_diff(&[Ok("a\n".into()), Ok("b\n".into())]).unwrap(),
        "--- staged ---\na\n--- unstaged ---\nb\n"
    );
}
