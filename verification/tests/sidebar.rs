use lil_big_helper::color::{Color, ColorTheme, GraphColor, GraphColorSet};
use lil_big_helper::git::{Commit, CommitHash, Head, Ref, Repository, Timestamp};
use lil_big_helper::graph::Graph;
use lil_big_helper::names::NameMap;
use lil_big_helper::widget::branch_visual::BranchVisuals;
use lil_big_helper::widget::ref_list::{
    collect_valid_tree_paths, sanitize_selected_path, RefListState,
};
use lil_big_helper::widget::ref_tree::{
    build_ref_tree_items, parse_semantic_version_tag, refs_to_ref_tree_nodes,
    sort_branch_tree_nodes, tag_comes_first, tree_item_color, TreeNodeKind,
};

fn commit(hash: &str) -> Commit {
    Commit {
        commit_hash: CommitHash::from(hash),
        author_date: Timestamp {
            seconds: 1776902400,
            nanos: 0,
            offset: 0,
        },
        committer_date: Timestamp {
            seconds: 1776902400,
            nanos: 0,
            offset: 0,
        },
        ..Commit::default()
    }
}

fn branch_visuals() -> BranchVisuals {
    let commit = commit("0123456789abcdef0123456789abcdef01234567");
    let commit_hash = commit.commit_hash.clone();
    let mut commit_map = NameMap::new();
    commit_map.insert(commit_hash.as_str(), commit);
    let mut ref_map = NameMap::new();
    ref_map.insert(
        commit_hash.as_str(),
        vec![
            Ref::Branch {
                name: "dev".into(),
                target: commit_hash.clone(),
            },
            Ref::RemoteBranch {
                name: "origin/dev".into(),
                target: commit_hash.clone(),
            },
        ],
    );
    let repository = Repository::new(
        String::new(),
        commit_map,
        NameMap::new(),
        NameMap::new(),
        ref_map,
        Head::Unborn,
        vec![commit_hash.clone()],
    );
    let commit = repository.commit(&commit_hash).unwrap();
    let mut commit_pos_map = NameMap::new();
    commit_pos_map.insert(commit.commit_hash.as_str(), (0, 0));
    let graph = Graph {
        commits: vec![commit],
        commit_pos_map,
        max_pos_x: 0,
    };
    let graph_color_set = GraphColorSet {
        colors: vec![GraphColor::from_rgb(0x11, 0x22, 0x33)],
        edge_color: GraphColor::from_rgb(0, 0, 0),
        background_color: GraphColor::from_rgb(0, 0, 0),
    };

    BranchVisuals::new(&repository, &graph, &graph_color_set)
}

#[test]
fn branch_sidebar_items_use_graph_colors() {
    let visuals = branch_visuals();
    let theme = ColorTheme {
        fg: Color::White,
        ..ColorTheme::default()
    };

    assert_eq!(
        tree_item_color("dev", &visuals, &theme, TreeNodeKind::Branch),
        Color::Rgb(0x11, 0x22, 0x33)
    );
    assert_eq!(
        tree_item_color("origin/dev", &visuals, &theme, TreeNodeKind::RemoteBranch),
        Color::Rgb(0x11, 0x22, 0x33)
    );
}

#[test]
fn non_branch_sidebar_items_keep_theme_color() {
    let visuals = branch_visuals();
    let theme = ColorTheme {
        fg: Color::White,
        ..ColorTheme::default()
    };

    assert_eq!(
        tree_item_color("v1.0.0", &visuals, &theme, TreeNodeKind::Other),
        Color::White
    );
}

fn branch(name: &str) -> Ref {
    Ref::Branch {
        name: name.into(),
        target: CommitHash::from("abc1234"),
    }
}

fn tag(name: &str) -> Ref {
    Ref::Tag {
        name: name.into(),
        target: CommitHash::from("abc1234"),
    }
}

fn stash(name: &str, message: &str) -> Ref {
    Ref::Stash {
        name: name.into(),
        message: message.into(),
        target: CommitHash::from("abc1234"),
    }
}

fn path(parts: &[&str]) -> Vec<String> {
    parts.iter().map(|p| p.to_string()).collect()
}

#[test]
fn the_tree_of_references_has_four_roots() {
    let refs = vec![
        branch("main"),
        branch("feature/b"),
        branch("feature/a"),
        tag("v1.2.0"),
        tag("v1.10.0"),
        tag("nightly"),
        stash("stash@{0}", "work"),
    ];
    let theme = ColorTheme::default();
    let items = build_ref_tree_items(&refs, &branch_visuals(), &theme);
    let roots: Vec<&str> = items.iter().map(|i| i.text.as_str()).collect();
    assert_eq!(roots, vec!["Branches", "Remotes", "Tags", "Stashes"]);
    let branches: Vec<&str> = items[0].children.iter().map(|i| i.text.as_str()).collect();
    assert_eq!(branches, vec!["feature", "main"]);
    let under: Vec<&str> = items[0].children[0]
        .children
        .iter()
        .map(|i| i.identifier.as_str())
        .collect();
    assert_eq!(under, vec!["feature/a", "feature/b"]);
    let tags: Vec<&str> = items[2].children.iter().map(|i| i.text.as_str()).collect();
    assert_eq!(tags, vec!["v1.10.0", "v1.2.0", "nightly"]);
    assert_eq!(items[3].children[0].identifier, "stash@{0}");
    assert_eq!(items[3].children[0].text, "work");
    assert!(items[1].children.is_empty());
}

#[test]
fn versions_are_ordered_as_versions() {
    assert_eq!(
        parse_semantic_version_tag("v1.2.3"),
        Some("1.2.3".to_string())
    );
    assert_eq!(
        parse_semantic_version_tag("1.2.3-rc.1"),
        Some("1.2.3-rc.1".to_string())
    );
    assert_eq!(parse_semantic_version_tag("v1.2"), None);
    assert_eq!(parse_semantic_version_tag("nightly"), None);
    assert!(tag_comes_first("v1.10.0", "v1.9.0"));
    assert!(!tag_comes_first("v1.9.0", "v1.10.0"));
    assert!(tag_comes_first("1.0.0", "1.0.0-rc.1"));
    assert!(tag_comes_first("v0.0.1", "nightly"));
    assert!(!tag_comes_first("nightly", "v0.0.1"));
}

#[test]
fn branches_are_grouped_by_their_slashes() {
    let names = path(&["b", "a/y", "a/x", "c/d/e"]);
    let mut nodes = refs_to_ref_tree_nodes(&names);
    assert_eq!(nodes.len(), 3);
    sort_branch_tree_nodes(&mut nodes);
    let order: Vec<&str> = nodes.iter().map(|n| n.name.as_str()).collect();
    assert_eq!(order, vec!["a", "c", "b"]);
    assert_eq!(nodes[0].children[0].identifier, "a/x");
    assert_eq!(nodes[1].children[0].children[0].identifier, "c/d/e");
}

#[test]
fn a_selected_branch_is_opened_on_the_way() {
    let mut state = RefListState::new();
    assert_eq!(state.selected_ref_name(), Some("__branches__".to_string()));
    assert_eq!(state.selected_branch(), None);
    state.select_branch_name("feature/a");
    assert_eq!(state.selected_branch(), Some("feature/a".to_string()));
    assert_eq!(state.selected_tag(), None);
    let (selected, mut opened) = state.current_tree_status();
    assert_eq!(selected, path(&["__branches__", "feature", "feature/a"]));
    opened.sort();
    assert_eq!(
        opened,
        vec![path(&["__branches__"]), path(&["__branches__", "feature"])]
    );
    state.close_node();
    assert_eq!(state.selected_ref_name(), Some("feature".to_string()));
    state.close_node();
    let (_, opened) = state.current_tree_status();
    assert_eq!(opened, vec![path(&["__branches__"])]);
    state.open_node();
    let (_, opened) = state.current_tree_status();
    assert_eq!(opened.len(), 2);
}

#[test]
fn an_unseen_tree_has_nothing_to_step_to() {
    let mut state = RefListState::new();
    let before = state.current_tree_status();
    state.select_next();
    state.select_prev();
    state.select_first();
    state.select_last();
    assert_eq!(state.current_tree_status().1, before.1);
}

#[test]
fn a_reset_keeps_what_leads_somewhere() {
    let refs = vec![branch("feature/a"), tag("v1")];
    let mut state = RefListState::new();
    state.reset_tree_status(
        &refs,
        path(&["__branches__", "feature", "feature/gone"]),
        vec![
            path(&["__tags__"]),
            path(&["__branches__", "feature"]),
            path(&["__branches__", "gone"]),
        ],
    );
    let (selected, mut opened) = state.current_tree_status();
    assert_eq!(selected, path(&["__branches__", "feature"]));
    opened.sort();
    assert_eq!(
        opened,
        vec![path(&["__branches__", "feature"]), path(&["__tags__"])]
    );

    let valid = collect_valid_tree_paths(&refs);
    assert!(valid.contains(&path(&["__branches__", "feature", "feature/a"])));
    assert!(valid.contains(&path(&["__tags__", "v1"])));
    assert_eq!(
        sanitize_selected_path(path(&["nowhere"]), &valid),
        path(&["__branches__"])
    );
    state.reset_tree_status(&refs, path(&["__tags__", "v1"]), vec![]);
    assert_eq!(state.selected_tag(), Some("v1".to_string()));
}
