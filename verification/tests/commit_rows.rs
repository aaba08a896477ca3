use std::rc::Rc;

use lil_big_helper::color::{Color, ColorTheme};
use lil_big_helper::config::UserListColumnType;
use lil_big_helper::git::{Commit, CommitHash, CommitType, Head, Ref};
use lil_big_helper::layout::{
    calc_cell_widths, detail_pane_height, refs_pane_width, visible_columns, Constraint,
};
use lil_big_helper::names::NameMap;
use lil_big_helper::widget::branch_visual::BranchVisuals;
use lil_big_helper::widget::commit_list::CommitListState;
use lil_big_helper::widget::commit_row::{
    author_color, display_branch_ref_spans, display_match_position, fit_text, name_spans,
    status_spans, subject_spans, CommitInfo,
};
use lil_big_helper::widget::commit_table::CommitList;
use lil_big_helper::widget::search::SearchMatchPosition;

#[test]
fn display_match_position_handles_shortened_remote_labels() {
    let pos = SearchMatchPosition::new(vec![19, 20, 21]);
    let display = display_match_position("origin/mason/audio-feedback", "feedback", &pos)
        .expect("suffix match should be preserved");

    assert_eq!(display.matched_indices, vec![0, 1, 2]);
}

#[test]
fn remote_branch_spans_render_single_cloud_icon() {
    let reference = Ref::RemoteBranch {
        name: "origin/mason/audio-feedback".into(),
        target: CommitHash::from("abc1234"),
    };
    let theme = ColorTheme::default();
    let branch_visuals = BranchVisuals {
        ref_colors: NameMap::new(),
        fallback_colors: vec![Color::Blue],
    };

    let spans = display_branch_ref_spans(
        &branch_visuals,
        &reference,
        "origin/mason/audio-feedback",
        None,
        Color::Blue,
        &theme,
    )
    .unwrap();

    assert_eq!(spans.len(), 2);
    assert_eq!(spans[0].content, "☁ ");
    assert_eq!(spans[1].content, "audio-feedback");
}

#[test]
fn status_spans_dedupes_matching_local_and_remote_refs() {
    let commit = Commit {
        commit_hash: CommitHash::from("abc1234"),
        ..Commit::default()
    };
    let branch = Ref::Branch {
        name: "mason/audio-feedback".into(),
        target: commit.commit_hash.clone(),
    };
    let remote = Ref::RemoteBranch {
        name: "origin/mason/audio-feedback".into(),
        target: commit.commit_hash.clone(),
    };
    let commit_info = CommitInfo::new(&commit, vec![&branch, &remote], Color::Green);
    let mut ref_colors = NameMap::new();
    ref_colors.insert("mason/audio-feedback", Color::Green);
    ref_colors.insert("origin/mason/audio-feedback", Color::Green);
    let branch_visuals = BranchVisuals {
        ref_colors,
        fallback_colors: vec![Color::Green],
    };
    let head = Head::Branch {
        name: "mason/audio-feedback".into(),
    };
    let refs_matches = NameMap::new();
    let color_theme = ColorTheme::default();

    let spans = status_spans(
        &commit_info,
        &head,
        &branch_visuals,
        &refs_matches,
        &color_theme,
    )
    .unwrap();

    let contents = spans
        .iter()
        .map(|span| span.content.as_str())
        .collect::<Vec<_>>();
    assert_eq!(contents, vec!["◎", " ", "audio-feedback"]);
}

#[test]
fn visible_columns_filters_hash_and_date() {
    let columns = vec![
        UserListColumnType::Graph,
        UserListColumnType::Hash,
        UserListColumnType::Subject,
        UserListColumnType::Date,
        UserListColumnType::Name,
    ];

    assert_eq!(
        visible_columns(&columns),
        vec![
            UserListColumnType::Graph,
            UserListColumnType::Subject,
            UserListColumnType::Name,
        ]
    );
}

#[test]
fn test_calc_cell_widths_all_columns() {
    let area_width = 80;
    let subject_min_width = 20;
    let graph_width = 6;
    let name_width = 10;
    let date_width = 15;
    let columns = vec![
        UserListColumnType::Graph,
        UserListColumnType::Marker,
        UserListColumnType::Status,
        UserListColumnType::Subject,
        UserListColumnType::Name,
        UserListColumnType::Hash,
        UserListColumnType::Date,
    ];

    let actual = calc_cell_widths(
        area_width,
        subject_min_width,
        graph_width,
        name_width,
        date_width,
        &columns,
    );

    let expected = vec![
        Constraint::Length(6),
        Constraint::Length(1),
        Constraint::Length(15),
        Constraint::Min(0),
        Constraint::Length(12),
        Constraint::Length(0),
        Constraint::Length(0),
    ];
    assert_eq!(actual, expected);
}

#[test]
fn test_calc_cell_width_all_columns_small_area_remove_name_date_hash() {
    let area_width = 30;
    let subject_min_width = 20;
    let graph_width = 6;
    let name_width = 10;
    let date_width = 15;
    let columns = vec![
        UserListColumnType::Graph,
        UserListColumnType::Marker,
        UserListColumnType::Status,
        UserListColumnType::Subject,
        UserListColumnType::Name,
        UserListColumnType::Hash,
        UserListColumnType::Date,
    ];

    let actual = calc_cell_widths(
        area_width,
        subject_min_width,
        graph_width,
        name_width,
        date_width,
        &columns,
    );

    let expected = vec![
        Constraint::Length(6),
        Constraint::Length(1),
        Constraint::Length(0),
        Constraint::Min(0),
        Constraint::Length(0),
        Constraint::Length(0),
        Constraint::Length(0),
    ];
    assert_eq!(actual, expected);
}

#[test]
fn test_calc_cell_width_all_columns_small_area_remove_name_date() {
    let area_width = 40;
    let subject_min_width = 20;
    let graph_width = 6;
    let name_width = 10;
    let date_width = 15;
    let columns = vec![
        UserListColumnType::Graph,
        UserListColumnType::Marker,
        UserListColumnType::Status,
        UserListColumnType::Subject,
        UserListColumnType::Name,
        UserListColumnType::Hash,
        UserListColumnType::Date,
    ];

    let actual = calc_cell_widths(
        area_width,
        subject_min_width,
        graph_width,
        name_width,
        date_width,
        &columns,
    );

    let expected = vec![
        Constraint::Length(6),
        Constraint::Length(1),
        Constraint::Length(0),
        Constraint::Min(0),
        Constraint::Length(0),
        Constraint::Length(0),
        Constraint::Length(0),
    ];
    assert_eq!(actual, expected);
}

#[test]
fn test_calc_cell_width_all_columns_small_area_remove_name() {
    let area_width = 60;
    let subject_min_width = 20;
    let graph_width = 6;
    let name_width = 10;
    let date_width = 15;
    let columns = vec![
        UserListColumnType::Graph,
        UserListColumnType::Marker,
        UserListColumnType::Status,
        UserListColumnType::Subject,
        UserListColumnType::Name,
        UserListColumnType::Hash,
        UserListColumnType::Date,
    ];

    let actual = calc_cell_widths(
        area_width,
        subject_min_width,
        graph_width,
        name_width,
        date_width,
        &columns,
    );

    let expected = vec![
        Constraint::Length(6),
        Constraint::Length(1),
        Constraint::Length(15),
        Constraint::Min(0),
        Constraint::Length(12),
        Constraint::Length(0),
        Constraint::Length(0),
    ];
    assert_eq!(actual, expected);
}

#[test]
fn test_calc_cell_width_keeps_status_when_space_allows() {
    let area_width = 70;
    let subject_min_width = 20;
    let graph_width = 6;
    let name_width = 10;
    let date_width = 15;
    let columns = vec![
        UserListColumnType::Graph,
        UserListColumnType::Marker,
        UserListColumnType::Status,
        UserListColumnType::Subject,
        UserListColumnType::Hash,
    ];

    let actual = calc_cell_widths(
        area_width,
        subject_min_width,
        graph_width,
        name_width,
        date_width,
        &columns,
    );

    let expected = vec![
        Constraint::Length(6),
        Constraint::Length(1),
        Constraint::Length(15),
        Constraint::Min(0),
        Constraint::Length(0),
    ];
    assert_eq!(actual, expected);
}

#[test]
fn test_calc_cell_width_columns_order() {
    let area_width = 80;
    let subject_min_width = 20;
    let graph_width = 6;
    let name_width = 10;
    let date_width = 15;
    let columns = vec![
        UserListColumnType::Date,
        UserListColumnType::Status,
        UserListColumnType::Subject,
        UserListColumnType::Hash,
        UserListColumnType::Graph,
    ];

    let actual = calc_cell_widths(
        area_width,
        subject_min_width,
        graph_width,
        name_width,
        date_width,
        &columns,
    );

    let expected = vec![
        Constraint::Length(0),
        Constraint::Length(15),
        Constraint::Min(0),
        Constraint::Length(0),
        Constraint::Length(6),
    ];
    assert_eq!(actual, expected);
}

#[test]
fn panes_are_as_wide_and_as_high_as_the_window_allows() {
    assert_eq!(refs_pane_width(100, 10, 26), 26);
    assert_eq!(detail_pane_height(20, 20), 19);
    assert_eq!(detail_pane_height(50, 20), 20);
}

#[test]
fn matches_outside_a_shortened_label_are_left_out() {
    let pos = SearchMatchPosition::new(vec![0, 1]);
    assert!(display_match_position("origin/dev", "dev", &pos).is_none());
    let pos = SearchMatchPosition::new(vec![0, 7]);
    let shown = display_match_position("origin/dev", "dev", &pos).unwrap();
    assert_eq!(shown.matched_indices, vec![0]);
    let same = display_match_position("dev", "dev", &pos).unwrap();
    assert_eq!(same.matched_indices, vec![0, 7]);
}

#[test]
fn texts_are_cut_to_their_column() {
    assert_eq!(fit_text("short", 10), ("short".to_string(), false));
    assert_eq!(
        fit_text("a subject that is long", 10),
        ("a subje...".to_string(), true)
    );
    let (wide, cut) = fit_text("日本語日本語", 8);
    assert_eq!(wide, "日本...");
    assert!(cut);
}

fn contents(spans: &[lil_big_helper::span::Span]) -> Vec<String> {
    spans.iter().map(|s| s.content.clone()).collect()
}

#[test]
fn matches_are_drawn_in_a_subject() {
    let theme = ColorTheme::default();
    let plain = subject_spans("fix bug", None, 20, Color::Green, &theme).unwrap();
    assert_eq!(contents(&plain), vec!["fix bug"]);
    let pos = SearchMatchPosition::new(vec![4, 5, 6]);
    let spans = subject_spans("fix bug", Some(&pos), 20, Color::Green, &theme).unwrap();
    assert_eq!(contents(&spans), vec!["fix ", "bug"]);
    assert_eq!(spans[1].style.fg, Some(theme.list_match_fg));
    assert_eq!(spans[1].style.bg, Some(theme.list_match_bg));

    let pos = SearchMatchPosition::new(vec![12]);
    let spans = subject_spans("a subject that is long", Some(&pos), 10, Color::Green, &theme);
    let spans = spans.unwrap();
    assert_eq!(contents(&spans).concat(), "a subje...");
    assert_eq!(spans.last().unwrap().style.bg, Some(theme.list_match_bg));
}

#[test]
fn names_stand_to_the_right_in_their_own_color() {
    let theme = ColorTheme::default();
    let commit = Commit {
        author_name: "Ada".into(),
        author_email: "ada@example.org".into(),
        ..Commit::default()
    };
    let spans = name_spans(&commit, None, 10, &theme).unwrap();
    assert_eq!(contents(&spans).concat(), "       Ada");
    assert_eq!(spans.last().unwrap().style.fg, Some(author_color(&commit)));
    assert_eq!(author_color(&commit), author_color(&commit));
    let mut seen = Vec::new();
    for email in ["a", "b", "c", "d", "e", "f", "g", "h"] {
        let other = Commit {
            author_email: email.into(),
            ..Commit::default()
        };
        let color = author_color(&other);
        if !seen.contains(&color) {
            seen.push(color);
        }
    }
    assert!(seen.len() > 1);
}

#[test]
fn rows_show_what_stands_in_the_window() {
    let commits: Vec<Commit> = (0..5)
        .map(|i| Commit {
            commit_hash: CommitHash::from(format!("hash{i}").as_str()),
            subject: format!("subject {i}"),
            author_name: "Ada".into(),
            author_email: "ada@example.org".into(),
            commit_type: CommitType::Commit,
            ..Commit::default()
        })
        .collect();
    let head = Head::Unborn;
    let visuals = BranchVisuals {
        ref_colors: NameMap::new(),
        fallback_colors: vec![Color::Green],
    };
    let infos = commits
        .iter()
        .map(|c| CommitInfo::new(c, vec![], Color::Green))
        .collect();
    let mut state = CommitListState::new(
        infos,
        2,
        &head,
        Rc::new(visuals),
        NameMap::new(),
        false,
        false,
    );
    let list = CommitList::new(ColorTheme::default(), true);
    list.update_state(3, &mut state);
    for _ in 0..3 {
        state.select_next();
    }
    assert_eq!(state.visible_count(), 3);
    assert!(list.is_selected(&state, 2));
    assert!(!list.is_selected(&state, 0));
    let row = list.render_subject(&state, 2, 30).unwrap();
    assert_eq!(contents(&row).concat().trim(), "subject 3");
    let row = list.render_name(&state, 0, 12).unwrap();
    assert_eq!(contents(&row).concat().trim(), "Ada");
    for width in 0..3 {
        assert!(list.render_subject(&state, 0, width).unwrap().is_empty());
        assert!(list.render_name(&state, 0, width).unwrap().is_empty());
    }
    assert_eq!(contents(&list.render_subject(&state, 0, 3).unwrap()), vec![" ", " "]);
    assert!(!list.render_name(&state, 0, 3).unwrap().is_empty());
    assert_eq!(contents(&list.render_status(&state, 0).unwrap()).concat().trim(), "");
}
