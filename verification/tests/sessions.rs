use std::path::{Path, MAIN_SEPARATOR};

use maki_acp::modes::{
    agent_mode_to_stored, make_mode_state, mode_for_id, stored_mode_to_agent, AgentMode,
    Directory, StoredMode, PLAN_FILENAME,
};
use maki_acp::protocol::RequestError;
use maki_acp::sessions::{SessionTable, StoredSession};

fn record(messages: Vec<u32>, mode: Option<StoredMode>) -> StoredSession<Vec<u32>, u64> {
    StoredSession {
        id: "stored".to_string(),
        title: "Title".to_string(),
        cwd: "/w".to_string(),
        model: "old-model".to_string(),
        messages,
        mode,
        rest: 0,
    }
}

fn dir(path: &str) -> Directory {
    Directory { path: path.to_string(), separator: '/' }
}

fn plan_path(mode: &AgentMode) -> Option<&str> {
    match mode {
        AgentMode::Plan(path) => Some(path.as_str()),
        AgentMode::Build => None,
    }
}

#[test]
fn created_sessions_build_under_random_ids() {
    let mut table: SessionTable<Vec<u32>> = SessionTable::new();
    let first = table.create(&dir("/work"), vec![]);
    let second = table.create(&dir("/work"), vec![]);
    assert_ne!(first.session_id, second.session_id);
    assert!(first.fired.is_none());
    for opened in [&first, &second] {
        let id = &opened.session_id;
        assert_eq!(id.len(), 36);
        assert!(id.chars().enumerate().all(|(i, c)| match i {
            8 | 13 | 18 | 23 => c == '-',
            14 => c == '4',
            19 => "89ab".contains(c),
            _ => "0123456789abcdef".contains(c),
        }));
        assert_eq!(opened.modes.current_mode_id, "build");
        let state = table.get(id).unwrap();
        assert_eq!(state.cwd.path, "/work");
        assert_eq!(state.cwd.separator, '/');
        assert!(state.cancel.is_none());
        assert!(matches!(state.mode, AgentMode::Build));
    }
}

#[test]
fn modes_on_offer() {
    let state = make_mode_state(&AgentMode::Plan("/w/PLAN.md".to_string()));
    assert_eq!(state.current_mode_id, "plan");
    let shown: Vec<(&str, &str)> =
        state.available_modes.iter().map(|m| (m.id.as_str(), m.name.as_str())).collect();
    assert_eq!(shown, vec![("build", "Build"), ("plan", "Plan")]);
}

#[test]
fn plan_files_are_where_the_path_library_puts_them() {
    for cwd in ["", "/", "/work", "/work/", "rel", "a/b//", "..", "/é✓", " ", "/a\\"] {
        let here = Directory { path: cwd.to_string(), separator: MAIN_SEPARATOR };
        let mode = stored_mode_to_agent(&Some(StoredMode::Plan), &here);
        let joined = Path::new(cwd).join(PLAN_FILENAME);
        assert_eq!(plan_path(&mode), joined.to_str(), "{cwd:?}");
    }
}

#[test]
fn plan_files_go_by_the_separator_of_the_platform() {
    for (cwd, expected) in [
        ("C:\\work", "C:\\work\\PLAN.md"),
        ("C:\\work\\", "C:\\work\\PLAN.md"),
        ("C:/work/", "C:/work/PLAN.md"),
        ("C:/work", "C:/work\\PLAN.md"),
        ("", "PLAN.md"),
    ] {
        let there = Directory { path: cwd.to_string(), separator: '\\' };
        let mode = mode_for_id("plan", &there).unwrap();
        assert_eq!(plan_path(&mode), Some(expected));
    }
}

#[test]
fn stored_modes_resume() {
    assert!(matches!(stored_mode_to_agent(&None, &dir("/w")), AgentMode::Build));
    assert!(matches!(stored_mode_to_agent(&Some(StoredMode::Build), &dir("/w")), AgentMode::Build));
    let plan = stored_mode_to_agent(&Some(StoredMode::Plan), &dir("/w"));
    assert_eq!(plan_path(&plan), Some("/w/PLAN.md"));
    assert_eq!(agent_mode_to_stored(&plan), StoredMode::Plan);
    assert_eq!(agent_mode_to_stored(&AgentMode::Build), StoredMode::Build);
    assert_eq!(plan_path(&plan.clone()), Some("/w/PLAN.md"));
}

#[test]
fn mode_ids_are_exact() {
    assert!(matches!(mode_for_id("build", &dir("/w")), Some(AgentMode::Build)));
    assert!(matches!(mode_for_id("plan", &dir("/w")), Some(AgentMode::Plan(p)) if p == "/w/PLAN.md"));
    assert!(mode_for_id("Plan", &dir("/w")).is_none());
    assert!(mode_for_id("", &dir("/w")).is_none());
}

#[test]
fn loading_opens_a_stored_session() {
    let mut table: SessionTable<Vec<u32>> = SessionTable::new();
    let opened = table.load("a", &dir("/w"), Some(record(vec![1, 2], Some(StoredMode::Plan)))).unwrap();
    assert_eq!(opened.session_id, "a");
    assert_eq!(opened.modes.current_mode_id, "plan");
    assert!(opened.fired.is_none());
    let state = table.get("a").unwrap();
    assert_eq!(state.history, vec![1, 2]);
    assert_eq!(plan_path(&state.mode), Some("/w/PLAN.md"));
}

#[test]
fn loading_what_is_not_stored_is_refused() {
    let mut table: SessionTable<Vec<u32>> = SessionTable::new();
    table.open("a", &dir("/w"), vec![7]);
    let refused = table.load::<u64>("a", &dir("/w"), None);
    assert!(matches!(refused, Err(RequestError::SessionNotFound)));
    assert_eq!(table.get("a").unwrap().history, vec![7]);
}

#[test]
fn loading_an_open_session_lets_go_of_its_turn() {
    let mut table: SessionTable<Vec<u32>> = SessionTable::new();
    table.open("a", &dir("/w"), vec![]);
    assert!(matches!(table.begin_turn("a", 5), Ok(None)));
    let opened = table.load("a", &dir("/w"), Some(record(vec![3], None))).unwrap();
    assert_eq!(opened.fired, Some(5));
    assert_eq!(table.get("a").unwrap().history, vec![3]);
    assert!(table.get("a").unwrap().cancel.is_none());
}

#[test]
fn prompts_to_unknown_sessions_are_refused() {
    let mut table: SessionTable<Vec<u32>> = SessionTable::new();
    table.open("a", &dir("/w"), vec![]);
    assert!(matches!(table.begin_turn("b", 1), Err(RequestError::UnknownSession)));
    assert!(table.get("b").is_none());
}

#[test]
fn a_new_turn_lets_go_of_the_one_before() {
    let mut table: SessionTable<Vec<u32>> = SessionTable::new();
    table.open("a", &dir("/w"), vec![]);
    assert!(matches!(table.begin_turn("a", 1), Ok(None)));
    assert!(matches!(table.begin_turn("a", 2), Ok(Some(1))));
    assert_eq!(table.get("a").unwrap().cancel, Some(2));
}

#[test]
fn cancelling_fires_a_turn_once() {
    let mut table: SessionTable<Vec<u32>> = SessionTable::new();
    table.open("a", &dir("/w"), vec![9]);
    table.open("b", &dir("/w"), vec![]);
    let _ = table.begin_turn("a", 1);
    let _ = table.begin_turn("b", 2);
    assert_eq!(table.cancel("a"), Some(1));
    assert_eq!(table.cancel("a"), None);
    assert_eq!(table.cancel("nobody"), None);
    assert_eq!(table.get("a").unwrap().history, vec![9]);
    assert_eq!(table.get("b").unwrap().cancel, Some(2));
}

#[test]
fn the_end_of_a_turn_leaves_its_history() {
    let mut table: SessionTable<Vec<u32>> = SessionTable::new();
    table.open("a", &dir("/w"), vec![1]);
    let _ = table.begin_turn("a", 1);
    assert_eq!(table.end_turn("a", Some(vec![1, 2])), Some(1));
    assert_eq!(table.get("a").unwrap().history, vec![1, 2]);
    let _ = table.begin_turn("a", 2);
    assert_eq!(table.end_turn("a", None), Some(2));
    assert_eq!(table.get("a").unwrap().history, vec![1, 2]);
    assert!(table.get("a").unwrap().cancel.is_none());
    assert_eq!(table.end_turn("nobody", Some(vec![5])), None);
    assert!(table.get("nobody").is_none());
}

#[test]
fn modes_are_set_and_set_back() {
    let mut table: SessionTable<Vec<u32>> = SessionTable::new();
    table.open("a", &dir("/w"), vec![4]);
    table.open("b", &dir("/v"), vec![]);
    assert!(table.set_mode("a", "plan").is_ok());
    assert_eq!(plan_path(&table.get("a").unwrap().mode), Some("/w/PLAN.md"));
    assert!(matches!(table.get("b").unwrap().mode, AgentMode::Build));
    assert!(table.set_mode("a", "build").is_ok());
    assert!(matches!(table.get("a").unwrap().mode, AgentMode::Build));
    assert_eq!(table.get("a").unwrap().history, vec![4]);
}

#[test]
fn modes_are_refused_for_unknown_sessions_and_ids() {
    let mut table: SessionTable<Vec<u32>> = SessionTable::new();
    table.open("a", &dir("/w"), vec![]);
    assert!(matches!(table.set_mode("b", "plan"), Err(RequestError::UnknownSession)));
    assert!(matches!(table.set_mode("b", "nope"), Err(RequestError::UnknownSession)));
    assert!(matches!(table.set_mode("a", "nope"), Err(RequestError::UnknownModeId)));
    assert!(matches!(table.get("a").unwrap().mode, AgentMode::Build));
}

#[test]
fn a_turn_is_recorded_and_loaded_back() {
    let mode = AgentMode::Plan("/w/PLAN.md".to_string());
    let saved = StoredSession::after_turn(
        Some(StoredSession { rest: 77, ..record(vec![1], None) }),
        record(vec![], None),
        "a",
        "model",
        vec![1, 2, 3],
        &mode,
    );
    assert_eq!(saved.id, "stored");
    assert_eq!(saved.title, "Title");
    assert_eq!(saved.model, "model");
    assert_eq!(saved.mode, Some(StoredMode::Plan));
    assert_eq!(saved.rest, 77);
    let mut table: SessionTable<Vec<u32>> = SessionTable::new();
    assert!(table.load("a", &dir("/w"), Some(saved)).is_ok());
    assert_eq!(table.get("a").unwrap().history, vec![1, 2, 3]);
    assert_eq!(plan_path(&table.get("a").unwrap().mode), Some("/w/PLAN.md"));
}

#[test]
fn a_turn_of_a_session_that_is_not_stored_is_recorded_under_its_id() {
    let saved = StoredSession::after_turn(
        None,
        StoredSession { rest: 5, ..record(vec![], None) },
        "a",
        "model",
        vec![6],
        &AgentMode::Build,
    );
    assert_eq!(saved.id, "a");
    assert_eq!(saved.cwd, "/w");
    assert_eq!(saved.messages, vec![6]);
    assert_eq!(saved.rest, 5);
    assert_eq!(saved.mode, Some(StoredMode::Build));
}
