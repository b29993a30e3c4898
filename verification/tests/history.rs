use maki_acp::history::{
    history_to_updates, replay_history, tool_kind, Message, ProviderBlock, Role, BASH_TOOL_NAME,
    BATCH_TOOL_NAME, CODE_EXECUTION_TOOL_NAME, EDIT_TOOL_NAME, GLOB_TOOL_NAME, GREP_TOOL_NAME,
    MULTIEDIT_TOOL_NAME, READ_TOOL_NAME, WRITE_TOOL_NAME,
};
use maki_acp::protocol::{ContentBlock, SessionUpdate, ToolCallStatus, ToolKind};

fn user(text: &str) -> Message {
    Message {
        role: Role::User,
        content: vec![ProviderBlock::Text { text: text.to_string() }],
        user_text: Some(text.to_string()),
    }
}

fn synthetic(text: &str) -> Message {
    Message {
        role: Role::User,
        content: vec![ProviderBlock::Text { text: text.to_string() }],
        user_text: None,
    }
}

fn assistant(content: Vec<ProviderBlock>) -> Message {
    Message { role: Role::Assistant, content, user_text: None }
}

fn tool_use(id: &str, name: &str) -> ProviderBlock {
    ProviderBlock::ToolUse { id: id.to_string(), name: name.to_string() }
}

fn result_block(tool_use_id: &str, content: &str, is_error: bool) -> ProviderBlock {
    ProviderBlock::ToolResult {
        tool_use_id: tool_use_id.to_string(),
        content: content.to_string(),
        is_error,
    }
}

fn tool_result(tool_use_id: &str, content: &str, is_error: bool) -> Message {
    Message {
        role: Role::User,
        content: vec![result_block(tool_use_id, content, is_error)],
        user_text: None,
    }
}

#[test]
fn replay_user_text_produces_user_chunk() {
    let updates = history_to_updates(&vec![user("hello")]);
    assert_eq!(updates.len(), 1);
    assert!(matches!(updates[0], SessionUpdate::UserMessageChunk(_)));
}

#[test]
fn replay_synthetic_message_skipped() {
    let updates = history_to_updates(&vec![synthetic("internal")]);
    assert!(updates.is_empty());
}

#[test]
fn replay_assistant_text_produces_agent_chunk() {
    let updates = history_to_updates(&vec![assistant(vec![ProviderBlock::Text {
        text: "response".into(),
    }])]);
    assert_eq!(updates.len(), 1);
    assert!(matches!(updates[0], SessionUpdate::AgentMessageChunk(_)));
}

#[test]
fn replay_thinking_produces_thought_chunk() {
    let updates = history_to_updates(&vec![assistant(vec![ProviderBlock::Thinking {
        thinking: "thoughts".into(),
    }])]);
    assert_eq!(updates.len(), 1);
    assert!(matches!(updates[0], SessionUpdate::AgentThoughtChunk(_)));
}

#[test]
fn replay_tool_use_with_completed_result() {
    let msgs = vec![
        assistant(vec![tool_use("t1", READ_TOOL_NAME)]),
        tool_result("t1", "file content", false),
    ];
    let updates = history_to_updates(&msgs);
    assert_eq!(updates.len(), 1);
    let SessionUpdate::ToolCall(tc) = &updates[0] else {
        panic!("expected ToolCall");
    };
    assert_eq!(tc.tool_call_id.as_str(), "t1");
    assert_eq!(tc.status, ToolCallStatus::Completed);
    assert_eq!(tc.kind, ToolKind::Read);
    assert!(tc.raw_output.is_some());
}

#[test]
fn replay_tool_use_with_error_result() {
    let msgs = vec![
        assistant(vec![tool_use("t2", BASH_TOOL_NAME)]),
        tool_result("t2", "oops", true),
    ];
    let updates = history_to_updates(&msgs);
    assert_eq!(updates.len(), 1);
    let SessionUpdate::ToolCall(tc) = &updates[0] else {
        panic!("expected ToolCall");
    };
    assert_eq!(tc.status, ToolCallStatus::Failed);
    assert_eq!(tc.kind, ToolKind::Execute);
}

#[test]
fn replay_tool_use_without_result_defaults_completed() {
    let msgs = vec![assistant(vec![tool_use("t3", READ_TOOL_NAME)])];
    let updates = history_to_updates(&msgs);
    assert_eq!(updates.len(), 1);
    let SessionUpdate::ToolCall(tc) = &updates[0] else {
        panic!("expected ToolCall");
    };
    assert_eq!(tc.status, ToolCallStatus::Completed);
    assert!(tc.raw_output.is_none());
}

#[test]
fn replay_conversation_ordering() {
    let msgs = vec![
        user("question"),
        assistant(vec![
            ProviderBlock::Text { text: "thinking out loud".into() },
            tool_use("t4", READ_TOOL_NAME),
        ]),
        tool_result("t4", "result", false),
    ];
    let updates = history_to_updates(&msgs);
    assert_eq!(updates.len(), 3);
    assert!(matches!(updates[0], SessionUpdate::UserMessageChunk(_)));
    assert!(matches!(updates[1], SessionUpdate::AgentMessageChunk(_)));
    assert!(matches!(updates[2], SessionUpdate::ToolCall(_)));
}

#[test]
fn replayed_texts_are_the_texts_of_the_history() {
    let msgs = vec![
        user("question"),
        assistant(vec![
            ProviderBlock::Thinking { thinking: "hm".into() },
            ProviderBlock::Text { text: "answer".into() },
        ]),
    ];
    let updates = history_to_updates(&msgs);
    assert!(matches!(&updates[0], SessionUpdate::UserMessageChunk(ContentBlock::Text(t)) if t == "question"));
    assert!(matches!(&updates[1], SessionUpdate::AgentThoughtChunk(ContentBlock::Text(t)) if t == "hm"));
    assert!(matches!(&updates[2], SessionUpdate::AgentMessageChunk(ContentBlock::Text(t)) if t == "answer"));
}

#[test]
fn empty_words_are_not_replayed_but_empty_thoughts_are() {
    let msgs = vec![
        user(""),
        assistant(vec![
            ProviderBlock::Text { text: "".into() },
            ProviderBlock::Other,
            ProviderBlock::Thinking { thinking: "".into() },
        ]),
    ];
    let updates = history_to_updates(&msgs);
    assert_eq!(updates.len(), 1);
    assert!(matches!(&updates[0], SessionUpdate::AgentThoughtChunk(ContentBlock::Text(t)) if t.is_empty()));
}

#[test]
fn last_result_of_a_tool_call_counts() {
    let msgs = vec![
        tool_result("t1", "early", false),
        assistant(vec![tool_use("t1", EDIT_TOOL_NAME)]),
        Message {
            role: Role::User,
            content: vec![result_block("t1", "first", false), result_block("t1", "second", true)],
            user_text: None,
        },
        tool_result("t2", "other", false),
    ];
    let updates = history_to_updates(&msgs);
    assert_eq!(updates.len(), 1);
    let SessionUpdate::ToolCall(tc) = &updates[0] else {
        panic!("expected ToolCall");
    };
    assert_eq!(tc.status, ToolCallStatus::Failed);
    assert_eq!(tc.raw_output.as_deref(), Some("second"));
    assert_eq!(tc.title.as_str(), EDIT_TOOL_NAME);
}

#[test]
fn results_in_messages_of_the_assistant_do_not_count() {
    let msgs = vec![assistant(vec![
        tool_use("t1", "fetch"),
        result_block("t1", "not a report", true),
    ])];
    let updates = history_to_updates(&msgs);
    assert_eq!(updates.len(), 1);
    let SessionUpdate::ToolCall(tc) = &updates[0] else {
        panic!("expected ToolCall");
    };
    assert_eq!(tc.status, ToolCallStatus::Completed);
    assert_eq!(tc.kind, ToolKind::Other);
    assert!(tc.raw_output.is_none());
}

#[test]
fn tools_have_their_kinds() {
    for name in [READ_TOOL_NAME, GLOB_TOOL_NAME, GREP_TOOL_NAME] {
        assert_eq!(tool_kind(name), ToolKind::Read);
    }
    for name in [EDIT_TOOL_NAME, WRITE_TOOL_NAME, MULTIEDIT_TOOL_NAME] {
        assert_eq!(tool_kind(name), ToolKind::Edit);
    }
    for name in [BASH_TOOL_NAME, BATCH_TOOL_NAME, CODE_EXECUTION_TOOL_NAME] {
        assert_eq!(tool_kind(name), ToolKind::Execute);
    }
    assert_eq!(tool_kind("Read"), ToolKind::Other);
    assert_eq!(tool_kind(""), ToolKind::Other);
}

#[test]
fn replay_notifies_the_session() {
    let sent = replay_history(&vec![user("one"), user("two")], "s-1");
    assert_eq!(sent.len(), 2);
    assert!(sent.iter().all(|n| n.session_id == "s-1"));
    assert!(matches!(&sent[1].update, SessionUpdate::UserMessageChunk(ContentBlock::Text(t)) if t == "two"));
}
