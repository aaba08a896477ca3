use lil_big_helper::color::{Color, GraphColor, GraphColorSet};
use lil_big_helper::git::{Commit, CommitHash, Head, Ref, Repository};
use lil_big_helper::graph::Graph;
use lil_big_helper::names::NameMap;
use lil_big_helper::widget::branch_visual::{
    final_branch_segment, pick, strip_remote_prefix, BranchVisuals,
};

fn graph_color_set() -> GraphColorSet {
    GraphColorSet {
        colors: vec![
            GraphColor::from_rgb(0x10, 0x20, 0x30),
            GraphColor::from_rgb(0x40, 0x50, 0x60),
        ],
        edge_color: GraphColor::from_rgb(0, 0, 0),
        background_color: GraphColor::from_rgb(0, 0, 0),
    }
}

#[test]
fn final_segment_is_used_for_short_labels() {
    let visuals = BranchVisuals {
        ref_colors: NameMap::new(),
        fallback_colors: vec![Color::Green],
    };
    let branch = Ref::Branch {
        name: "mason/audio-feedback".into(),
        target: CommitHash::from("abc1234"),
    };
    let remote = Ref::RemoteBranch {
        name: "origin/mason/audio-feedback".into(),
        target: CommitHash::from("abc1234"),
    };

    assert_eq!(visuals.display_label(&branch, true), "audio-feedback");
    assert_eq!(visuals.display_text(&branch, true), "audio-feedback");
    assert_eq!(visuals.display_label(&remote, true), "☁ audio-feedback");
    assert_eq!(visuals.display_text(&remote, true), "audio-feedback");
}

#[test]
fn remote_and_local_fallbacks_share_canonical_name() {
    let visuals = BranchVisuals {
        ref_colors: NameMap::new(),
        fallback_colors: graph_color_set()
            .colors
            .iter()
            .map(|color| color.to_color())
            .collect(),
    };

    assert_eq!(
        visuals.color_for_name("dev"),
        visuals.color_for_name("origin/dev")
    );
}

#[test]
fn head_marker_uses_icon() {
    let visuals = BranchVisuals {
        ref_colors: NameMap::new(),
        fallback_colors: vec![Color::Green],
    };
    let spans = visuals.head_marker(Some("mason/audio-feedback"), true, Color::Green);

    assert_eq!(spans[0].content, "◎");
    assert_eq!(spans[1].content, " ");
    assert_eq!(spans[2].content, "audio-feedback");
}

#[test]
fn remote_icon_and_spacing_render_separately() {
    let visuals = BranchVisuals {
        ref_colors: NameMap::new(),
        fallback_colors: vec![Color::Blue],
    };

    assert_eq!(visuals.remote_icon_marker(Color::Blue).content, "☁");
    assert_eq!(visuals.remote_spacing(Color::Blue).content, " ");
}

#[test]
fn visible_branches_use_graph_lane_colors() {
    let local_target = CommitHash::from("abc1234");
    let remote_target = CommitHash::from("def5678");
    let local_commit = Commit {
        commit_hash: local_target.clone(),
        ..Commit::default()
    };
    let remote_commit = Commit {
        commit_hash: remote_target.clone(),
        ..Commit::default()
    };
    let mut commit_map = NameMap::new();
    commit_map.insert("abc1234", local_commit);
    commit_map.insert("def5678", remote_commit);
    let mut ref_map = NameMap::new();
    ref_map.insert(
        "abc1234",
        vec![Ref::Branch {
            name: "dev".into(),
            target: local_target.clone(),
        }],
    );
    ref_map.insert(
        "def5678",
        vec![Ref::RemoteBranch {
            name: "origin/dev".into(),
            target: remote_target.clone(),
        }],
    );
    let repository = Repository::new(
        ".".into(),
        commit_map,
        NameMap::new(),
        NameMap::new(),
        ref_map,
        Head::Unborn,
        vec![local_target.clone(), remote_target.clone()],
    );
    let local_commit = repository.commit(&local_target).unwrap();
    let remote_commit = repository.commit(&remote_target).unwrap();
    let mut commit_pos_map = NameMap::new();
    commit_pos_map.insert("abc1234", (0, 0));
    commit_pos_map.insert("def5678", (1, 1));
    let graph = Graph {
        commits: vec![local_commit, remote_commit],
        commit_pos_map,
        max_pos_x: 1,
    };

    let visuals = BranchVisuals::new(&repository, &graph, &graph_color_set());

    assert_eq!(visuals.color_for_name("dev"), Color::Rgb(0x10, 0x20, 0x30));
    assert_eq!(
        visuals.color_for_name("origin/dev"),
        Color::Rgb(0x40, 0x50, 0x60)
    );
}

#[test]
fn lanes_take_their_colors_over_again() {
    let set = graph_color_set();
    assert_eq!(set.get(0), set.get(2));
    assert_eq!(set.get(1), GraphColor::from_rgb(0x40, 0x50, 0x60));
}

#[test]
fn names_are_cut_at_their_slashes() {
    assert_eq!(strip_remote_prefix("origin/a/b"), "a/b");
    assert_eq!(strip_remote_prefix("main"), "main");
    assert_eq!(final_branch_segment("a/b/c"), "c");
    assert_eq!(final_branch_segment("main"), "main");
    assert_eq!(pick(7, 3), 1);
}

#[test]
fn unknown_branches_take_a_color_by_their_name() {
    let colors = vec![Color::Red, Color::Green, Color::Blue, Color::Cyan];
    let visuals = BranchVisuals {
        ref_colors: NameMap::new(),
        fallback_colors: colors.clone(),
    };
    let mut seen = Vec::new();
    for name in ["a", "b", "c", "d", "e", "f", "g", "h", "i", "j", "k", "l"] {
        let color = visuals.color_for_name(name);
        assert!(colors.contains(&color));
        assert_eq!(color, visuals.color_for_name(name));
        if !seen.contains(&color) {
            seen.push(color);
        }
    }
    assert!(seen.len() > 1);
    assert_eq!(visuals.fallback_for(6), Color::Blue);
}

#[test]
fn the_head_is_attached_to_its_own_branch_only() {
    let visuals = BranchVisuals {
        ref_colors: NameMap::new(),
        fallback_colors: vec![Color::Blue],
    };
    let target = CommitHash::from("abc1234");
    let branch = Ref::Branch {
        name: "dev".into(),
        target: target.clone(),
    };
    let remote = Ref::RemoteBranch {
        name: "dev".into(),
        target: target.clone(),
    };
    let head = Head::Branch { name: "dev".into() };
    assert!(visuals.head_attached_to(&head, &branch));
    assert!(!visuals.head_attached_to(&head, &remote));
    assert!(!visuals.head_attached_to(&Head::Unborn, &branch));
    let tag = Ref::Tag {
        name: "v1".into(),
        target,
    };
    assert_eq!(visuals.canonical_branch_name(&branch), Some("dev".into()));
    assert_eq!(visuals.canonical_branch_name(&tag), None);
    assert_eq!(visuals.head_marker(None, true, Color::Blue).len(), 1);
}
