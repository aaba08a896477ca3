use std::rc::Rc;

use lil_big_helper::color::Color;
use lil_big_helper::event::{
    AppEvent, Key, KeyCode, KeyKind, Modifiers, UserEvent, UserEventWithCount,
};
use lil_big_helper::git::{Commit, CommitHash, Head, Ref, Repository};
use lil_big_helper::names::NameMap;
use lil_big_helper::view::context::{
    ListRefreshViewContext, RefreshViewContext, RefsRefreshViewContext,
};
use lil_big_helper::view::detail::DetailView;
use lil_big_helper::view::list::{FocusPane, ListView};
use lil_big_helper::widget::branch_visual::BranchVisuals;
use lil_big_helper::widget::commit_list::CommitListState;
use lil_big_helper::widget::commit_moves::Move;
use lil_big_helper::widget::commit_row::CommitInfo;

fn commits(n: usize) -> Vec<Commit> {
    (0..n)
        .map(|i| Commit {
            commit_hash: CommitHash::from(format!("{i:07}aa").as_str()),
            subject: format!("Subject {i}"),
            parent_commit_hashes: vec![CommitHash::from(format!("{:07}aa", i + 1).as_str())],
            ..Commit::default()
        })
        .collect()
}

fn list<'a>(commits: &'a [Commit], head: &'a Head) -> CommitListState<'a> {
    let visuals = BranchVisuals {
        ref_colors: NameMap::new(),
        fallback_colors: vec![Color::Green],
    };
    let mut names = NameMap::new();
    names.insert("main", 3);
    let infos = commits
        .iter()
        .map(|c| CommitInfo::new(c, vec![], Color::Green))
        .collect();
    let mut state = CommitListState::new(infos, 2, head, Rc::new(visuals), names, false, false);
    state.reset_height(4);
    state
}

fn key() -> Key {
    Key {
        code: KeyCode::Other,
        modifiers: Modifiers::default(),
        kind: KeyKind::Press,
    }
}

fn typed(c: char) -> Key {
    Key {
        code: KeyCode::Char(c),
        modifiers: Modifiers::default(),
        kind: KeyKind::Press,
    }
}

fn once(event: UserEvent) -> UserEventWithCount {
    UserEventWithCount::from_event(event)
}

fn branch(name: &str) -> Ref {
    Ref::Branch {
        name: name.into(),
        target: CommitHash::from("0000003aa"),
    }
}

#[test]
fn the_query_is_shown_while_it_is_typed() {
    let commits = commits(10);
    let head = Head::Unborn;
    let mut view = ListView::new(list(&commits, &head), vec![]);
    assert!(view.accepts(once(UserEvent::Search)));
    view.handle_event(once(UserEvent::Search), key());
    let sent = view.handle_event(once(UserEvent::Unknown), typed('7'));
    match sent {
        Some(AppEvent::UpdateStatusInput(text, column, beside)) => {
            assert_eq!(text, "/7");
            assert_eq!(column, Some(2));
            assert_eq!(beside, None);
        }
        other => panic!("{other:?}"),
    }
    let sent = view.handle_event(once(UserEvent::FuzzyToggle), key());
    assert!(matches!(
        sent,
        Some(AppEvent::UpdateStatusInput(_, _, Some(m))) if m == "Fuzzy match: ON "
    ));
    match view.handle_event(once(UserEvent::Confirm), key()) {
        Some(AppEvent::NotifyInfo(m)) => assert_eq!(m, "Match 1 of 1 (query: \"7\")"),
        other => panic!("{other:?}"),
    }
    assert_eq!(
        view.as_list_state().selected_commit_hash().as_str(),
        "0000007aa"
    );
    assert!(matches!(
        view.handle_event(once(UserEvent::Cancel), key()),
        Some(AppEvent::ClearStatusLine)
    ));
}

#[test]
fn nothing_found_is_a_warning() {
    let commits = commits(3);
    let head = Head::Unborn;
    let mut view = ListView::new(list(&commits, &head), vec![]);
    view.handle_event(once(UserEvent::Search), key());
    view.handle_event(once(UserEvent::Unknown), typed('x'));
    match view.handle_event(once(UserEvent::Confirm), key()) {
        Some(AppEvent::NotifyWarn(m)) => assert_eq!(m, "No matches found (query: \"x\")"),
        other => panic!("{other:?}"),
    }
}

#[test]
fn the_sidebar_is_entered_and_left() {
    let commits = commits(10);
    let head = Head::Branch {
        name: "main".into(),
    };
    let mut view = ListView::new(list(&commits, &head), vec![branch("main")]);
    assert_eq!(view.focus_pane(), FocusPane::CommitList);
    view.handle_event(once(UserEvent::RefList), key());
    assert_eq!(view.focus_pane(), FocusPane::Sidebar);
    match view.handle_event(once(UserEvent::FullCopy), key()) {
        Some(AppEvent::CopyToClipboard { name, value }) => {
            assert_eq!(name, "Branch Name");
            assert_eq!(value, "main");
        }
        other => panic!("{other:?}"),
    }
    view.handle_event(once(UserEvent::NavigateRight), key());
    assert_eq!(
        view.as_list_state().selected_commit_hash().as_str(),
        "0000003aa"
    );
    view.handle_event(once(UserEvent::Cancel), key());
    assert_eq!(view.focus_pane(), FocusPane::CommitList);
    match view.handle_event(once(UserEvent::ShortCopy), key()) {
        Some(AppEvent::CopyToClipboard { name, value }) => {
            assert_eq!(name, "Commit SHA (short)");
            assert_eq!(value, "0000003");
        }
        other => panic!("{other:?}"),
    }
}

#[test]
fn a_list_stands_where_it_stood_after_a_reset() {
    let commits = commits(10);
    let head = Head::Unborn;
    let mut view = ListView::new(list(&commits, &head), vec![branch("a"), branch("b")]);
    let context = ListRefreshViewContext {
        commit_hash: "0000006aa".into(),
        selected: 2,
        height: 4,
        scroll_to_top: false,
    };
    let place = view.place_after_reset(&context).unwrap();
    assert_eq!((place.selected, place.offset), (2, 4));
    view.reset_commit_list_with(&context);
    assert_eq!(view.as_list_state().current_list_status(), (2, 4, 4));
    view.reset_refs_with(RefsRefreshViewContext {
        selected: vec!["__branches__".into(), "b".into()],
        opened: vec![vec!["__branches__".into()]],
        focus_sidebar: true,
    });
    match view.refresh() {
        AppEvent::Refresh(RefreshViewContext::Refs {
            list_context,
            refs_context,
        }) => {
            assert_eq!(list_context, context);
            assert_eq!(refs_context.selected, vec!["__branches__", "b"]);
            assert!(refs_context.focus_sidebar);
        }
        other => panic!("{other:?}"),
    }
    let top = ListRefreshViewContext {
        scroll_to_top: true,
        ..context
    };
    view.reset_commit_list_with(&top);
    assert_eq!(view.as_list_state().current_list_status(), (0, 0, 4));
    assert_eq!(view.refs().len(), 2);
}

fn detail<'a>(commits: &'a [Commit], head: &'a Head) -> DetailView<'a> {
    DetailView::new(
        list(commits, head),
        commits[0].clone(),
        vec![],
        vec![],
        vec![branch("main")],
        None,
    )
}

#[test]
fn details_answer_events() {
    let commits = commits(10);
    let head = Head::Unborn;
    let mut view = detail(&commits, &head);
    view.as_mut_detail_state().update_state(50, 10);
    view.handle_event(UserEventWithCount::new(UserEvent::NavigateDown, 3));
    assert_eq!(view.as_mut_detail_state().offset, 3);
    view.handle_event(once(UserEvent::PageDown));
    assert_eq!(view.as_mut_detail_state().offset, 13);
    view.handle_event(once(UserEvent::HalfPageUp));
    assert_eq!(view.as_mut_detail_state().offset, 8);
    view.handle_event(once(UserEvent::GoToTop));
    assert_eq!(view.as_mut_detail_state().offset, 0);
    assert!(matches!(
        view.handle_event(once(UserEvent::SelectDown)),
        Some(AppEvent::SelectOlderCommit)
    ));
    assert!(matches!(
        view.handle_event(once(UserEvent::Confirm)),
        Some(AppEvent::CloseDetail)
    ));
    assert!(view.accepts(UserEvent::ShortCopy));
    match view.handle_event(once(UserEvent::ShortCopy)) {
        Some(AppEvent::CopyToClipboard { value, .. }) => assert_eq!(value, "0000000"),
        other => panic!("{other:?}"),
    }
}

#[test]
fn another_commit_is_shown() {
    let commits = commits(3);
    let head = Head::Unborn;
    let repository = Repository::load(
        "/r".into(),
        commits.clone(),
        vec![],
        NameMap::new(),
        &NameMap::new(),
        Head::Unborn,
    )
    .unwrap();
    let mut view = detail(&commits, &head);
    assert!(view.can_select(Move::Next));
    let hash = view.select_older_commit();
    assert_eq!(hash.as_str(), "0000001aa");
    view.update_selected_commit(&repository, &hash, "D\tgone\n");
    assert_eq!(view.commit().subject, "Subject 1");
    assert_eq!(view.changes().len(), 1);
    assert!(view.commit_refs().is_empty());
    assert_eq!(view.select_newer_commit().as_str(), "0000000aa");
    assert_eq!(view.select_parent_commit().as_str(), "0000001aa");
    let context = RefsRefreshViewContext {
        selected: vec!["__branches__".into(), "main".into()],
        opened: vec![],
        focus_sidebar: false,
    };
    view.set_refs_context(Some(context));
    assert_eq!(
        view.as_mut_ref_list_state().selected_branch(),
        Some("main".to_string())
    );
    assert!(matches!(
        view.refresh(),
        AppEvent::Refresh(RefreshViewContext::Detail {
            refs_context: Some(_),
            ..
        })
    ));
}
