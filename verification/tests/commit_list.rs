use std::rc::Rc;

use lil_big_helper::color::Color;
use lil_big_helper::git::{Commit, CommitHash, Head, Ref};
use lil_big_helper::event::{Key, KeyCode, KeyKind, Modifiers};
use lil_big_helper::names::NameMap;
use lil_big_helper::widget::branch_visual::BranchVisuals;
use lil_big_helper::widget::commit_detail::CommitDetailState;
use lil_big_helper::widget::commit_list::CommitListState;
use lil_big_helper::widget::commit_moves::Move;
use lil_big_helper::widget::commit_row::CommitInfo;
use lil_big_helper::widget::search::{SearchMatcher, SearchState, TransientMessage};

fn commits(n: usize) -> Vec<Commit> {
    (0..n)
        .map(|i| Commit {
            commit_hash: CommitHash::from(format!("hash{i:03}").as_str()),
            subject: format!("Subject {i}"),
            author_name: if i % 2 == 0 { "Ada" } else { "Bob" }.into(),
            parent_commit_hashes: vec![CommitHash::from(format!("hash{:03}", i + 3).as_str())],
            ..Commit::default()
        })
        .collect()
}

fn list<'a>(commits: &'a [Commit], head: &'a Head, height: usize) -> CommitListState<'a> {
    let visuals = BranchVisuals {
        ref_colors: NameMap::new(),
        fallback_colors: vec![Color::Green],
    };
    let mut names = NameMap::new();
    names.insert("main", 4);
    let infos = commits
        .iter()
        .map(|c| CommitInfo::new(c, vec![], Color::Green))
        .collect();
    let mut state = CommitListState::new(infos, 2, head, Rc::new(visuals), names, false, false);
    state.reset_height(height);
    state
}

fn at(state: &CommitListState) -> (usize, usize) {
    let (selected, offset, _) = state.current_list_status();
    (selected, offset)
}

#[test]
fn the_window_follows_the_selection() {
    let commits = commits(20);
    let head = Head::Unborn;
    let mut state = list(&commits, &head, 5);
    for _ in 0..6 {
        state.select_next();
    }
    assert_eq!(at(&state), (4, 2));
    assert_eq!(state.selected_commit_hash().as_str(), "hash006");
    state.select_prev();
    assert_eq!(at(&state), (3, 2));
    state.select_last();
    assert_eq!(at(&state), (4, 15));
    state.select_first();
    assert_eq!(at(&state), (0, 0));
    state.scroll_down_page();
    assert_eq!(at(&state), (0, 5));
    state.scroll_up_half();
    assert_eq!(at(&state), (0, 3));
    state.scroll_down();
    assert_eq!(at(&state), (0, 4));
    state.select_low();
    assert_eq!(at(&state), (4, 4));
    state.select_middle();
    assert_eq!(at(&state), (2, 4));
    state.select_high();
    assert_eq!(at(&state), (0, 4));
    state.scroll_up();
    assert_eq!(at(&state), (1, 3));
}

#[test]
fn next_and_previous_undo_each_other() {
    let commits = commits(20);
    let head = Head::Unborn;
    let mut state = list(&commits, &head, 5);
    state.select_next();
    let here = state.selected_commit_hash().as_str().to_string();
    state.select_next();
    state.select_prev();
    assert_eq!(state.selected_commit_hash().as_str(), here);
}

#[test]
fn parents_and_references_are_found() {
    let commits = commits(20);
    let head = Head::Unborn;
    let mut state = list(&commits, &head, 5);
    assert_eq!(
        state.selected_commit_parent_hash().unwrap().as_str(),
        "hash003"
    );
    state.select_parent();
    assert_eq!(state.selected_commit_hash().as_str(), "hash003");
    state.select_ref("main");
    assert_eq!(state.selected_commit_hash().as_str(), "hash004");
    state.select_ref("gone");
    assert_eq!(state.selected_commit_hash().as_str(), "hash004");
    state.select_commit_hash(&CommitHash::from("hash019"));
    assert_eq!(state.selected_commit_hash().as_str(), "hash019");
    assert_eq!(state.parent_place(0), Some(3));
    assert_eq!(state.parent_place(19), None);
}

#[test]
fn moves_are_repeated() {
    let commits = commits(20);
    let head = Head::Unborn;
    let mut state = list(&commits, &head, 5);
    assert!(state.can_repeat(Move::Next, 3));
    state.repeat(Move::Next, 3);
    assert_eq!(state.selected_commit_hash().as_str(), "hash003");
    assert_eq!(
        state.hash_after(Move::Parent).unwrap().as_str(),
        "hash006"
    );
    assert!(state.leads_to_item(Move::Prev));
    state.repeat(Move::Prev, 9);
    assert_eq!(at(&state), (0, 0));
}

fn key(c: char, control: bool) -> Key {
    Key {
        code: KeyCode::Char(c),
        modifiers: Modifiers {
            control,
            ..Modifiers::default()
        },
        kind: KeyKind::Press,
    }
}

fn type_in(state: &mut CommitListState, text: &str) {
    for c in text.chars() {
        state.handle_search_input(key(c, false));
    }
}

#[test]
fn commits_are_searched_for() {
    let commits = commits(12);
    let head = Head::Unborn;
    let mut state = list(&commits, &head, 5);
    assert!(state.is_searchable());
    state.start_search();
    type_in(&mut state, "Bob");
    assert_eq!(state.selected_commit_hash().as_str(), "hash001");
    assert_eq!(state.search_query_string(), Some("/Bob".into()));
    assert_eq!(state.search_query_cursor_position(), Some(4));
    state.apply_search();
    assert!(matches!(
        state.search_state(),
        SearchState::Applied { total_match: 6, .. }
    ));
    state.select_next_match();
    assert_eq!(state.selected_commit_hash().as_str(), "hash003");
    state.select_prev_match();
    state.select_prev_match();
    assert_eq!(state.selected_commit_hash().as_str(), "hash011");
    assert!(state.matched_query_string().unwrap().1);
    state.cancel_search();
    assert_eq!(state.search_state(), SearchState::Inactive);
    assert_eq!(state.search_query_string(), None);
}

#[test]
fn the_case_and_the_gaps_can_be_ignored() {
    let commits = commits(12);
    let head = Head::Unborn;
    let mut state = list(&commits, &head, 5);
    state.start_search();
    type_in(&mut state, "bob");
    assert_eq!(state.selected_commit_hash().as_str(), "hash000");
    state.toggle_ignore_case();
    assert_eq!(state.selected_commit_hash().as_str(), "hash001");
    assert_eq!(
        state.transient_message_string(),
        Some("Ignore case: ON ".into())
    );
    state.handle_search_input(key('u', true));
    type_in(&mut state, "sj 7");
    assert!(matches!(
        state.search_state(),
        SearchState::Searching {
            transient_message: TransientMessage::Nothing,
            ..
        }
    ));
    state.toggle_fuzzy();
    assert_eq!(state.selected_commit_hash().as_str(), "hash007");
    state.cancel_search();
    assert_eq!(state.selected_commit_hash().as_str(), "hash007");
}

#[test]
fn matchers_tell_where_they_match() {
    let plain = SearchMatcher::new("ab", false, false);
    assert_eq!(
        plain.matched_position("xabab").unwrap().matched_indices,
        vec![1, 2]
    );
    assert!(plain.matched_position("xAB").is_none());
    let any_case = SearchMatcher::new("AB", true, false);
    assert_eq!(
        any_case.matched_position("xaB").unwrap().matched_indices,
        vec![1, 2]
    );
    let fuzzy = SearchMatcher::new("ac", false, true);
    assert_eq!(
        fuzzy.matched_position("abc").unwrap().matched_indices,
        vec![0, 2]
    );
    assert!(fuzzy.matched_position("ABC").is_none());
}

#[test]
fn references_are_searched_too() {
    let commits = commits(6);
    let head = Head::Unborn;
    let tag = Ref::Tag {
        name: "release-1".into(),
        target: CommitHash::from("hash002"),
    };
    let visuals = BranchVisuals {
        ref_colors: NameMap::new(),
        fallback_colors: vec![Color::Green],
    };
    let infos = commits
        .iter()
        .enumerate()
        .map(|(i, c)| {
            let refs = if i == 2 { vec![&tag] } else { vec![] };
            CommitInfo::new(c, refs, Color::Green)
        })
        .collect();
    let mut state = CommitListState::new(
        infos,
        2,
        &head,
        Rc::new(visuals),
        NameMap::new(),
        false,
        false,
    );
    state.reset_height(4);
    state.start_search();
    type_in(&mut state, "release");
    assert_eq!(state.selected_commit_hash().as_str(), "hash002");
}

#[test]
fn details_scroll_to_their_end() {
    let mut state = CommitDetailState::default();
    state.update_state(30, 10);
    state.scroll_page_down(1);
    assert_eq!(state.offset, 10);
    state.scroll_half_page_up(1);
    assert_eq!(state.offset, 5);
    state.scroll_down(2);
    state.scroll_up(1);
    assert_eq!(state.offset, 6);
    state.select_last();
    state.update_state(30, 10);
    assert_eq!(state.offset, 20);
    state.select_first();
    assert_eq!(state.offset, 0);
}
