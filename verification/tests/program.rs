use lil_big_helper::app::jobs::{Ending, Task};
use lil_big_helper::app::program::{
    clearing, copy_to_clipboard, infer_base_branch, App, Clearing, Pictures, Reply, Ret,
};
use lil_big_helper::app::start::{
    build_commit_list, commit_infos, graph_cell_width, CellWidthType, InitialSelection,
};
use lil_big_helper::app::status_line::StatusLine;
use lil_big_helper::color::{Color, GraphColor, GraphColorSet};
use lil_big_helper::config::GitHelperConfig;
use lil_big_helper::event::{AppEvent, Key, KeyCode, KeyKind, Modifiers, UserEvent};
use lil_big_helper::git::changes::StatusEntry;
use lil_big_helper::git::{Commit, CommitHash, Head, Ref, Repository};
use lil_big_helper::graph::Graph;
use lil_big_helper::names::NameMap;
use lil_big_helper::view::context::RefreshViewContext;
use lil_big_helper::view::screen::Screen;

fn commit(hash: &str, parents: &[&str]) -> Commit {
    Commit {
        commit_hash: CommitHash::from(hash),
        subject: format!("subject of {hash}"),
        parent_commit_hashes: parents.iter().map(|p| CommitHash::from(*p)).collect(),
        ..Commit::default()
    }
}

fn repository() -> Repository {
    let mut refs = NameMap::new();
    refs.insert(
        "c1",
        vec![
            Ref::Branch {
                name: "feature/x".into(),
                target: CommitHash::from("c1"),
            },
            Ref::Tag {
                name: "v1".into(),
                target: CommitHash::from("c1"),
            },
        ],
    );
    refs.insert(
        "c2",
        vec![Ref::Branch {
            name: "main".into(),
            target: CommitHash::from("c2"),
        }],
    );
    Repository::load(
        "/repo".into(),
        vec![
            commit("c1", &["c2"]),
            commit("c2", &["c3"]),
            commit("c3", &[]),
        ],
        vec![],
        refs,
        &NameMap::new(),
        Head::Branch {
            name: "main".into(),
        },
    )
    .unwrap()
}

fn colors() -> GraphColorSet {
    GraphColorSet {
        colors: vec![
            GraphColor::from_rgb(1, 2, 3),
            GraphColor::from_rgb(4, 5, 6),
        ],
        edge_color: GraphColor::from_rgb(0, 0, 0),
        background_color: GraphColor::from_rgb(0, 0, 0),
    }
}

fn graph(repository: &Repository) -> Graph<'_> {
    let mut places = NameMap::new();
    for (i, hash) in ["c1", "c2", "c3"].iter().enumerate() {
        places.insert(hash, (i % 2, i));
    }
    Graph {
        commits: repository.all_commits(),
        commit_pos_map: places,
        max_pos_x: 1,
    }
}

fn app(repository: &Repository) -> App<'_> {
    let mut list = build_commit_list(
        repository,
        &graph(repository),
        &colors(),
        4,
        InitialSelection::Latest,
        false,
        false,
    );
    list.reset_height(5);
    App::new(repository, list)
}

fn key(code: KeyCode) -> Key {
    Key {
        code,
        modifiers: Modifiers::default(),
        kind: KeyKind::Press,
    }
}

fn selected(app: &App) -> String {
    app.view
        .selected_commit_hash()
        .map(|h| h.as_str().to_string())
        .unwrap_or_default()
}

#[test]
fn the_list_starts_where_it_is_asked_to() {
    let repository = repository();
    let list = build_commit_list(
        &repository,
        &graph(&repository),
        &colors(),
        4,
        InitialSelection::Head,
        false,
        false,
    );
    assert_eq!(list.selected_commit_hash().as_str(), "c2");
    assert_eq!(list.selected_commit_graph_color(), Color::Rgb(4, 5, 6));
    let (infos, names) = commit_infos(&repository, &graph(&repository), &colors());
    assert_eq!(infos.len(), 3);
    assert_eq!(names.get("main"), Some(&1));
    assert_eq!(names.get("v1"), Some(&0));
    assert_eq!(names.get("gone"), None);
}

#[test]
fn the_graph_is_as_wide_as_its_lanes() {
    assert_eq!(graph_cell_width(2, CellWidthType::Double), Some(6));
    assert_eq!(graph_cell_width(2, CellWidthType::Single), Some(3));
    assert_eq!(graph_cell_width(40_000, CellWidthType::Double), None);
}

#[test]
fn the_detail_is_loaded_shown_and_closed() {
    let repository = repository();
    let mut app = app(&repository);
    let event = AppEvent::OpenDetail;
    assert!(app.accepts(&event));
    match app.handle_event(event) {
        Reply::LoadDetail {
            commit_hash,
            arguments,
        } => {
            assert_eq!(commit_hash.as_str(), "c1");
            assert_eq!(arguments, vec!["diff", "--name-status", "c1^", "c1"]);
        }
        _ => panic!("the detail is to be loaded"),
    }
    app.show_detail("M\ta\n");
    match &app.view {
        Screen::Detail(v) => {
            assert_eq!(v.as_list_state().selected_commit_hash().as_str(), "c1")
        }
        _ => panic!("the detail is to be shown"),
    }
    assert!(app.accepts(&AppEvent::SelectOlderCommit));
    match app.handle_event(AppEvent::SelectOlderCommit) {
        Reply::LoadDetail { commit_hash, .. } => assert_eq!(commit_hash.as_str(), "c2"),
        _ => panic!("the next detail is to be loaded"),
    }
    assert!(matches!(
        app.handle_event(AppEvent::CloseDetail),
        Reply::Nothing
    ));
    assert!(matches!(app.view, Screen::List(_)));
    assert_eq!(selected(&app), "c2");
}

#[test]
fn help_goes_back_to_where_it_was_opened() {
    let repository = repository();
    let mut app = app(&repository);
    app.handle_event(AppEvent::OpenHelp);
    assert!(matches!(app.view, Screen::Help(_)));
    app.handle_event(AppEvent::CloseHelp);
    assert!(matches!(app.view, Screen::List(_)));
    assert_eq!(selected(&app), "c1");
}

#[test]
fn changes_are_loaded_and_shown() {
    let repository = repository();
    let mut app = app(&repository);
    assert!(matches!(
        app.handle_event(AppEvent::OpenStatus),
        Reply::LoadChanges
    ));
    app.show_status(vec![StatusEntry {
        path: "a".into(),
        staged: false,
        unstaged: true,
        untracked: false,
        deleted: false,
    }]);
    assert!(matches!(app.view, Screen::Status(_)));
    app.handle_event(AppEvent::CloseStatus);
    assert_eq!(selected(&app), "c1");
}

#[test]
fn keys_move_in_the_list() {
    let repository = repository();
    let config = GitHelperConfig::default();
    let mut app = app(&repository);
    let two = key(KeyCode::Char('2'));
    assert!(app.accepts_key(None, two));
    app.handle_key(None, two, &config);
    let down = key(KeyCode::Char('j'));
    assert!(app.accepts_key(Some(UserEvent::NavigateDown), down));
    app.handle_key(Some(UserEvent::NavigateDown), down, &config);
    assert_eq!(selected(&app), "c3");
    match app.handle_key(Some(UserEvent::Quit), key(KeyCode::Char('q')), &config) {
        Reply::Send(AppEvent::Quit) => {}
        _ => panic!("the program is to end"),
    }
    assert!(matches!(
        app.handle_event(AppEvent::Quit),
        Reply::Return(Ret::Quit)
    ));
}

#[test]
fn a_refresh_brings_the_place_back() {
    let repository = repository();
    let config = GitHelperConfig::default();
    let mut app = app(&repository);
    let down = key(KeyCode::Down);
    app.handle_key(Some(UserEvent::NavigateDown), down, &config);
    app.handle_key(Some(UserEvent::NavigateDown), down, &config);
    let event = match app.handle_key(Some(UserEvent::Refresh), key(KeyCode::Other), &config) {
        Reply::Send(e) => e,
        _ => panic!("a refresh is asked for"),
    };
    let request = match app.handle_event(event) {
        Reply::Return(Ret::Refresh(r)) => r,
        _ => panic!("the program starts anew"),
    };
    let mut again = App::new(
        &repository,
        build_commit_list(
            &repository,
            &graph(&repository),
            &colors(),
            4,
            InitialSelection::Latest,
            false,
            false,
        ),
    );
    again.init_with_context(request.context);
    assert_eq!(selected(&again), "c3");
}

#[test]
fn the_menu_starts_what_is_chosen() {
    let repository = repository();
    let config = GitHelperConfig::default();
    let mut app = app(&repository);
    app.handle_event(AppEvent::OpenActionMenu);
    let p = key(KeyCode::Char('p'));
    app.handle_key(Some(UserEvent::Quit), p, &config);
    let reply = app.handle_key(None, key(KeyCode::Enter), &config);
    assert!(matches!(reply, Reply::Start(Task::PushCurrentBranch)));
    assert!(app.app_status.prompt.is_none());

    app.handle_event(AppEvent::OpenActionMenu);
    app.handle_key(None, key(KeyCode::Enter), &config);
    assert_eq!(
        app.app_status.status_line,
        StatusLine::NotificationError("No action selected".into())
    );
}

#[test]
fn branches_are_asked_for() {
    let repository = repository();
    let config = GitHelperConfig::default();
    let mut app = app(&repository);
    assert!(matches!(
        app.handle_event(AppEvent::OpenCreateBranchPrompt),
        Reply::AskCreateBranch
    ));
    app.open_create_branch_prompt(Some("main".into()), Ok(Some("mason".into())), &config);
    assert_eq!(
        app.app_status.prompt.as_ref().unwrap().label,
        "New branch suffix [mason / <name>]"
    );
    let x = key(KeyCode::Char('x'));
    app.handle_key(None, x, &config);
    match app.handle_key(None, key(KeyCode::Enter), &config) {
        Reply::Start(Task::CreateBranch {
            base_branch,
            suffix,
        }) => {
            assert_eq!(base_branch, "main");
            assert_eq!(suffix, "x");
        }
        _ => panic!("the branch is to be made"),
    }
    app.open_set_base_prompt(None, vec!["main".into()], None);
    assert_eq!(
        app.app_status.status_line,
        StatusLine::NotificationError("Not on a branch".into())
    );
}

#[test]
fn the_base_is_guessed_from_what_is_selected() {
    let config = GitHelperConfig::default();
    let target = CommitHash::from("c");
    let local = Ref::Branch {
        name: "main".into(),
        target: target.clone(),
    };
    let other = Ref::Branch {
        name: "x".into(),
        target,
    };
    assert_eq!(
        infer_base_branch(&vec![&other, &local], None, &config),
        Some("main".into())
    );
    assert_eq!(
        infer_base_branch(&vec![&other], Some("main".into()), &config),
        Some("main".into())
    );
    assert_eq!(
        infer_base_branch(&vec![&other], Some("x".into()), &config),
        Some("main".into())
    );
    let two = GitHelperConfig {
        protected_base_branches: vec!["main".into(), "dev".into()],
        ..GitHelperConfig::default()
    };
    assert_eq!(
        infer_base_branch(&vec![&other], Some("x".into()), &two),
        None
    );
    assert_eq!(
        infer_base_branch(&vec![&other], Some("dev".into()), &two),
        Some("dev".into())
    );
}

#[test]
fn ended_jobs_are_reported() {
    let repository = repository();
    let mut app = app(&repository);
    let next = app.finish_job(Ending {
        notice: Some(StatusLine::NotificationSuccess("done".into())),
        refresh: true,
    });
    assert!(matches!(
        next,
        Some(AppEvent::Refresh(RefreshViewContext::Refs { .. }))
    ));
    assert_eq!(
        app.app_status.status_line,
        StatusLine::NotificationSuccess("done".into())
    );
}

#[test]
fn what_is_drawn_is_cleared_before_another_view() {
    assert_eq!(
        clearing(&AppEvent::OpenRefs),
        Clearing {
            pictures: Pictures::Cleared,
            text: true
        }
    );
    assert_eq!(
        clearing(&AppEvent::Quit),
        Clearing {
            pictures: Pictures::Kept,
            text: false
        }
    );
    assert!(matches!(
        copy_to_clipboard("Commit SHA", Ok(())),
        AppEvent::NotifySuccess(_)
    ));
    match copy_to_clipboard("Commit SHA", Err("no display".into())) {
        AppEvent::NotifyError(m) => assert_eq!(m, "no display"),
        _ => panic!("the failure is to be told"),
    }
}

#[test]
fn other_views_get_their_events() {
    let repository = repository();
    let config = GitHelperConfig::default();
    let mut app = app(&repository);
    app.handle_event(AppEvent::OpenHelp);
    for event in [UserEvent::HelpToggle, UserEvent::Close, UserEvent::Quit] {
        let pressed = key(KeyCode::Other);
        assert!(app.accepts_key(Some(event), pressed));
        match app.handle_key(Some(event), pressed, &config) {
            Reply::ToOtherView(e) => assert_eq!((e.event, e.count), (event, 1)),
            _ => panic!("the help is to get the event"),
        }
        assert!(matches!(app.view, Screen::Help(_)));
    }
    app.handle_event(AppEvent::CloseHelp);
    app.handle_event(AppEvent::OpenRefs);
    app.handle_key(None, key(KeyCode::Char('4')), &config);
    let down = key(KeyCode::Down);
    match app.handle_key(Some(UserEvent::NavigateDown), down, &config) {
        Reply::ToOtherView(e) => assert_eq!(e.count, 4),
        _ => panic!("the references are to get the event"),
    }
    app.handle_event(AppEvent::CloseRefs);
    assert!(matches!(app.view, Screen::List(_)));
}
