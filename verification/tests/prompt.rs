use maki_acp::clock::now_text;
use maki_acp::prompt::{
    is_permission_grant, map_stop_reason, on_event, on_permission_reply, permission_options,
    title_update, title_update_at, Action, AgentEvent, ModelStopReason, PermissionReply, Turn,
};
use maki_acp::protocol::{
    agent_info, extract_text, session_update, ContentBlock, PermissionOptionKind, RequestError,
    SessionUpdate, StopReason, ToolCallStatus, ToolKind,
};

#[test]
fn map_stop_reason_never_produces_cancelled() {
    for reason in [
        Some(ModelStopReason::MaxTokens),
        Some(ModelStopReason::EndTurn),
        Some(ModelStopReason::ToolUse),
        None,
    ] {
        assert!(!matches!(map_stop_reason(reason), StopReason::Cancelled));
    }
}

#[test]
fn map_stop_reason_max_tokens_maps_to_max_tokens() {
    assert!(matches!(
        map_stop_reason(Some(ModelStopReason::MaxTokens)),
        StopReason::MaxTokens
    ));
}

#[test]
fn map_stop_reason_other_maps_to_end_turn() {
    assert!(matches!(map_stop_reason(None), StopReason::EndTurn));
}

#[test]
fn permission_grant_detection() {
    assert_eq!(is_permission_grant("allow"), true);
    assert_eq!(is_permission_grant("allow_session"), true);
    assert_eq!(is_permission_grant("deny"), false);
    assert_eq!(is_permission_grant("deny_always_local"), false);
    assert_eq!(is_permission_grant(""), false);
}

#[test]
fn grants_are_told_by_the_beginning_of_the_id() {
    assert!(is_permission_grant("allowed"));
    assert!(!is_permission_grant("allo"));
    assert!(!is_permission_grant("Allow"));
    assert!(!is_permission_grant("disallow"));
}

fn text(s: &str) -> AgentEvent {
    AgentEvent::TextDelta { text: s.to_string() }
}

fn done(stop_reason: Option<ModelStopReason>) -> AgentEvent {
    AgentEvent::Done { stop_reason }
}

fn error(message: &str) -> AgentEvent {
    AgentEvent::Error { message: message.to_string() }
}

#[test]
fn deltas_are_passed_on() {
    assert!(matches!(on_event(&text("hi")),
        Action::Notify(SessionUpdate::AgentMessageChunk(ContentBlock::Text(t))) if t == "hi"));
    assert!(matches!(on_event(&AgentEvent::ThinkingDelta { text: "hm".to_string() }),
        Action::Notify(SessionUpdate::AgentThoughtChunk(ContentBlock::Text(t))) if t == "hm"));
    assert!(matches!(on_event(&AgentEvent::Other), Action::Ignore));
}

#[test]
fn tool_calls_start_in_progress_under_their_summary() {
    let event = AgentEvent::ToolStart {
        id: "t1".to_string(),
        tool: "bash".to_string(),
        summary: "ls -l".to_string(),
    };
    let Action::Notify(SessionUpdate::ToolCall(call)) = on_event(&event) else {
        panic!("expected a tool call");
    };
    assert_eq!(call.tool_call_id, "t1");
    assert_eq!(call.title, "ls -l");
    assert_eq!(call.kind, ToolKind::Execute);
    assert_eq!(call.status, ToolCallStatus::InProgress);
}

#[test]
fn tool_calls_without_a_summary_are_named_after_the_tool() {
    let event = AgentEvent::ToolStart {
        id: "t1".to_string(),
        tool: "grep".to_string(),
        summary: String::new(),
    };
    let Action::Notify(SessionUpdate::ToolCall(call)) = on_event(&event) else {
        panic!("expected a tool call");
    };
    assert_eq!(call.title, "grep");
    assert_eq!(call.kind, ToolKind::Read);
}

#[test]
fn tool_calls_end_completed_or_failed() {
    for (is_error, status) in [(false, ToolCallStatus::Completed), (true, ToolCallStatus::Failed)] {
        let event = AgentEvent::ToolDone { id: "t1".to_string(), is_error };
        let Action::Notify(SessionUpdate::ToolCallUpdate(update)) = on_event(&event) else {
            panic!("expected an update");
        };
        assert_eq!(update.tool_call_id, "t1");
        assert_eq!(update.status, Some(status));
        assert!(update.kind.is_none());
        assert!(update.title.is_none());
    }
}

#[test]
fn permission_requests_offer_four_answers() {
    let event = AgentEvent::PermissionRequest {
        id: "t1".to_string(),
        tool: "bash".to_string(),
        scopes: vec!["git *".to_string(), "ls".to_string()],
    };
    let Action::AskPermission { tool_call, options } = on_event(&event) else {
        panic!("expected a question");
    };
    assert_eq!(tool_call.tool_call_id, "t1");
    assert_eq!(tool_call.status, Some(ToolCallStatus::Pending));
    assert_eq!(tool_call.kind, Some(ToolKind::Execute));
    let shown: Vec<(&str, &str, PermissionOptionKind)> =
        options.iter().map(|o| (o.option_id.as_str(), o.name.as_str(), o.kind)).collect();
    assert_eq!(
        shown,
        vec![
            ("allow", "Allow bash (git *, ls) once", PermissionOptionKind::AllowOnce),
            ("allow_session", "Allow bash for session", PermissionOptionKind::AllowAlways),
            ("deny", "Deny", PermissionOptionKind::RejectOnce),
            ("deny_always_local", "Deny always", PermissionOptionKind::RejectAlways),
        ]
    );
}

#[test]
fn ids_on_offer_say_what_they_grant() {
    let options = permission_options("edit", &vec![]);
    assert_eq!(options[0].name, "Allow edit () once");
    for option in &options {
        let allows = matches!(
            option.kind,
            PermissionOptionKind::AllowOnce | PermissionOptionKind::AllowAlways
        );
        assert_eq!(is_permission_grant(&option.option_id), allows);
    }
}

fn outcome(events: Vec<AgentEvent>) -> StopReason {
    let mut turn = Turn::new();
    for event in &events {
        turn.step(event);
    }
    turn.stop_reason
}

#[test]
fn a_turn_without_an_end_counts_as_cancelled() {
    assert_eq!(outcome(vec![]), StopReason::Cancelled);
    assert_eq!(outcome(vec![text("a"), AgentEvent::Other]), StopReason::Cancelled);
}

#[test]
fn a_turn_ends_with_the_first_event_that_ends_it() {
    assert_eq!(outcome(vec![text("a"), done(None), error("late")]), StopReason::EndTurn);
    assert_eq!(
        outcome(vec![done(Some(ModelStopReason::MaxTokens)), done(None)]),
        StopReason::MaxTokens
    );
    assert_eq!(outcome(vec![error("broken"), done(None)]), StopReason::Cancelled);
}

#[test]
fn nothing_is_done_about_events_after_the_end() {
    let mut turn = Turn::new();
    assert!(!turn.finished);
    assert!(matches!(turn.step(&text("a")), Action::Notify(_)));
    assert!(matches!(turn.step(&done(None)), Action::Finish(StopReason::EndTurn)));
    assert!(turn.finished);
    assert!(matches!(turn.step(&text("b")), Action::Ignore));
}

#[test]
fn a_granted_call_is_in_progress() {
    let reply = PermissionReply::Selected("allow_session".to_string());
    let answer = on_permission_reply(&"t1".to_string(), &reply);
    assert_eq!(answer.answer, "allow_session");
    let Some(SessionUpdate::ToolCallUpdate(update)) = answer.notify else {
        panic!("expected an update");
    };
    assert_eq!(update.tool_call_id, "t1");
    assert_eq!(update.status, Some(ToolCallStatus::InProgress));
}

#[test]
fn a_call_that_is_not_granted_is_not_in_progress() {
    let id = "t1".to_string();
    for (reply, expected) in [
        (PermissionReply::Selected("deny_always_local".to_string()), "deny_always_local"),
        (PermissionReply::Dismissed, "deny"),
        (PermissionReply::Failed, "deny"),
    ] {
        let answer = on_permission_reply(&id, &reply);
        assert_eq!(answer.answer, expected);
        assert!(answer.notify.is_none());
    }
}

#[test]
fn a_new_title_is_told() {
    let update = title_update_at("New session", "Fix the parser", "2024-01-01T00:00:00Z".to_string());
    let Some(SessionUpdate::SessionInfoUpdate(info)) = update else {
        panic!("expected an update");
    };
    assert_eq!(info.title.as_deref(), Some("Fix the parser"));
    assert_eq!(info.updated_at.as_deref(), Some("2024-01-01T00:00:00Z"));
    assert!(title_update_at("Same", "Same", "x".to_string()).is_none());
}

#[test]
fn a_new_title_is_told_with_the_current_time() {
    assert!(title_update("Same", "Same").is_none());
    let Some(SessionUpdate::SessionInfoUpdate(info)) = title_update("Old", "New") else {
        panic!("expected an update");
    };
    let told = info.updated_at.unwrap();
    for text in [told, now_text()] {
        let chars: Vec<char> = text.chars().collect();
        assert!(text.starts_with("20"));
        for (i, c) in "0000-00-00T00:00:00".chars().enumerate() {
            assert!(if c == '0' { chars[i].is_ascii_digit() } else { chars[i] == c });
        }
        if chars.len() == 20 {
            assert_eq!(chars[19], 'Z');
        } else {
            assert_eq!(chars[19], '.');
            assert!(chars.len() >= 22 && chars.len() <= 30);
            assert!(chars[20..chars.len() - 1].iter().all(char::is_ascii_digit));
            assert_eq!(chars[chars.len() - 1], 'Z');
        }
    }
}

#[test]
fn prompt_text_is_the_text_blocks_line_by_line() {
    assert_eq!(extract_text(&vec![]), "");
    let blocks = vec![
        ContentBlock::Text("one".to_string()),
        ContentBlock::Other,
        ContentBlock::Text("two".to_string()),
        ContentBlock::Text(String::new()),
    ];
    assert_eq!(extract_text(&blocks), "one\ntwo\n");
}

#[test]
fn notifications_name_their_session() {
    let sent = session_update("s-9", SessionUpdate::Other);
    assert_eq!(sent.session_id, "s-9");
    assert!(matches!(sent.update, SessionUpdate::Other));
}

#[test]
fn refusals_have_their_words() {
    assert_eq!(RequestError::UnknownSession.message(), "unknown session");
    assert_eq!(RequestError::UnknownModeId.message(), "unknown mode id");
    assert_eq!(RequestError::SessionNotFound.message(), "session not found");
    assert_eq!(RequestError::MethodNotSupported.message(), "method not supported");
}

#[test]
fn the_agent_introduces_itself() {
    let info = agent_info("1.2.3");
    assert_eq!(info.name, "maki");
    assert_eq!(info.version, "1.2.3");
    assert!(info.load_session && info.list_sessions);
}
