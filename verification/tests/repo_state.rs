use lil_big_helper::repo_state::{state_file_path, RepoState};
use serde_json::Value;

/// The state as text of the form that its file has. The file itself is the terminal's.
fn written(state: &RepoState) -> String {
    let origins = &state.branch_origins;
    let mut branch_origins = serde_json::Map::new();
    for i in 0..origins.len() {
        branch_origins.insert(
            origins.name_at(i).to_string(),
            Value::from(origins.value_at(i).as_str()),
        );
    }
    let mut saved = serde_json::Map::new();
    saved.insert("branch_origins".to_string(), Value::from(branch_origins));
    saved.insert(
        "branch_prefix".to_string(),
        state.get_branch_prefix().map_or(Value::Null, Value::from),
    );
    serde_json::to_string_pretty(&Value::from(saved)).unwrap()
}

/// The state that such a text holds.
fn read(content: &str) -> RepoState {
    let saved: Value = serde_json::from_str(content).unwrap();
    let mut state = RepoState::default();
    if let Some(origins) = saved.get("branch_origins").and_then(Value::as_object) {
        for (branch, base) in origins {
            state.set_branch_origin(branch, base.as_str().unwrap());
        }
    }
    state.set_branch_prefix(saved.get("branch_prefix").and_then(Value::as_str));
    state
}

#[test]
fn repo_state_roundtrip() {
    let mut state = RepoState::default();
    state.set_branch_origin("feature/test", "dev");
    state.set_branch_prefix(Some("feature/"));

    let loaded = read(&written(&state));
    assert_eq!(loaded.get_branch_origin("feature/test"), Some("dev"));
    assert_eq!(loaded.get_branch_prefix(), Some("feature/"));
}

#[test]
fn repo_state_defaults_branch_prefix_when_missing() {
    let loaded = read("{\n  \"branch_origins\": {\n    \"feature/test\": \"dev\"\n  }\n}");
    assert_eq!(loaded.get_branch_origin("feature/test"), Some("dev"));
    assert_eq!(loaded.get_branch_prefix(), None);
}

#[test]
fn the_last_base_is_remembered() {
    let mut state = RepoState::default();
    state.set_branch_origin("a", "main");
    state.set_branch_origin("b", "dev");
    state.set_branch_origin("a", "dev");
    assert_eq!(state.get_branch_origin("a"), Some("dev"));
    assert_eq!(state.get_branch_origin("b"), Some("dev"));
    assert_eq!(state.get_branch_origin("c"), None);
    state.set_branch_prefix(Some("x"));
    state.set_branch_prefix(None);
    assert_eq!(state.get_branch_prefix(), None);
}

#[test]
fn the_state_file_stands_in_the_git_dir() {
    assert_eq!(state_file_path("/repo/.git"), "/repo/.git/lbh/state.json");
    assert_eq!(state_file_path("/repo/.git/"), "/repo/.git/lbh/state.json");
}
