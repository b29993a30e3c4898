use maki_acp::harness::{
    begin_load, check_stop_reason, handle_permission_request, handle_session_update, is_grant_option,
    pick_option, print_summary, tag, write_title_line, HarnessState, PermissionRequest,
    PermissionStrategy, BOLD, CYAN, DIM, GREEN, RED, RESET, YELLOW,
};
use maki_acp::history::{history_to_updates, Message, ProviderBlock, Role};
use maki_acp::prompt::permission_options;
use maki_acp::protocol::{
    ContentBlock, PermissionOption, PermissionOptionKind, SessionInfoUpdate, SessionUpdate,
    StopReason, ToolCall, ToolCallStatus, ToolCallUpdate, ToolKind,
};
use maki_acp::scenario::{
    advance, cancel_report, list_report, replay_report, Reply, ScenarioOptions, Step,
};

fn option(id: &str, kind: PermissionOptionKind) -> PermissionOption {
    PermissionOption { option_id: id.to_string(), name: format!("<{id}>"), kind }
}

fn text(s: &str) -> ContentBlock {
    ContentBlock::Text(s.to_string())
}

fn call(id: &str, title: &str, status: ToolCallStatus) -> SessionUpdate {
    SessionUpdate::ToolCall(ToolCall {
        tool_call_id: id.to_string(),
        title: title.to_string(),
        kind: ToolKind::SwitchMode,
        status,
        raw_output: None,
    })
}

fn change(id: &str, status: Option<ToolCallStatus>) -> SessionUpdate {
    SessionUpdate::ToolCallUpdate(ToolCallUpdate {
        tool_call_id: id.to_string(),
        title: None,
        kind: None,
        status,
    })
}

#[test]
fn tags_are_bold_and_coloured() {
    assert_eq!(tag(CYAN, "INIT"), "\x1b[1m\x1b[36m[INIT]\x1b[0m");
    assert_eq!(tag("", ""), "\x1b[1m[]\x1b[0m");
}

#[test]
fn strategies_on_what_the_agent_offers() {
    let offer = permission_options("bash", &vec!["ls".to_string()]);
    assert_eq!(pick_option(&offer, PermissionStrategy::Allow), "allow");
    assert_eq!(pick_option(&offer, PermissionStrategy::AllowSession), "allow_session");
    assert_eq!(pick_option(&offer, PermissionStrategy::Deny), "deny");
    assert!(is_grant_option("allow", &offer));
    assert!(is_grant_option("allow_session", &offer));
    assert!(!is_grant_option("deny", &offer));
    assert!(!is_grant_option("deny_always_local", &offer));
    assert_eq!(PermissionStrategy::default(), PermissionStrategy::Allow);
}

#[test]
fn strategies_fall_back() {
    let others = vec![
        option("yes", PermissionOptionKind::AllowOnce),
        option("allow_all", PermissionOptionKind::AllowAlways),
        option("no", PermissionOptionKind::RejectOnce),
    ];
    assert_eq!(pick_option(&others, PermissionStrategy::Allow), "yes");
    assert_eq!(pick_option(&others, PermissionStrategy::AllowSession), "allow_all");
    assert_eq!(pick_option(&others, PermissionStrategy::Deny), "no");
    let strange = vec![
        option("yes", PermissionOptionKind::AllowOnce),
        option("no", PermissionOptionKind::RejectOnce),
    ];
    assert_eq!(pick_option(&strange, PermissionStrategy::Allow), "yes");
    assert_eq!(pick_option(&strange, PermissionStrategy::AllowSession), "yes");
    assert_eq!(pick_option(&strange, PermissionStrategy::Deny), "no");
    let none = vec![];
    assert_eq!(pick_option(&none, PermissionStrategy::Allow), "allow");
    assert_eq!(pick_option(&none, PermissionStrategy::AllowSession), "allow");
    assert_eq!(pick_option(&none, PermissionStrategy::Deny), "deny");
}

#[test]
fn denials_are_found_by_the_beginning_of_the_id() {
    let options = vec![
        option("allow", PermissionOptionKind::AllowOnce),
        option("deny_later", PermissionOptionKind::RejectOnce),
        option("deny", PermissionOptionKind::RejectOnce),
    ];
    assert_eq!(pick_option(&options, PermissionStrategy::Deny), "deny_later");
    assert!(!is_grant_option("deny_later", &options));
}

#[test]
fn allowing_goes_by_the_kind_of_the_options() {
    let options = vec![
        option("allow_session", PermissionOptionKind::AllowAlways),
        option("once", PermissionOptionKind::AllowOnce),
        option("allow", PermissionOptionKind::AllowOnce),
    ];
    assert_eq!(pick_option(&options, PermissionStrategy::Allow), "once");
    assert_eq!(pick_option(&options, PermissionStrategy::AllowSession), "allow_session");
    let wider = vec![
        option("allow", PermissionOptionKind::AllowOnce),
        option("allow_always", PermissionOptionKind::AllowAlways),
        option("allow_session", PermissionOptionKind::AllowAlways),
    ];
    assert_eq!(pick_option(&wider, PermissionStrategy::AllowSession), "allow_session");
    let once = vec![
        option("allow_session", PermissionOptionKind::RejectOnce),
        option("once", PermissionOptionKind::AllowOnce),
    ];
    assert_eq!(pick_option(&once, PermissionStrategy::AllowSession), "once");
}

#[test]
fn denying_denies_wherever_an_option_does() {
    let options = vec![
        option("reject", PermissionOptionKind::RejectOnce),
        option("allow", PermissionOptionKind::AllowOnce),
    ];
    assert_eq!(pick_option(&options, PermissionStrategy::Deny), "reject");
    assert!(!is_grant_option("reject", &options));
    let both = vec![
        option("allow", PermissionOptionKind::AllowOnce),
        option("reject", PermissionOptionKind::RejectOnce),
        option("reject_always", PermissionOptionKind::RejectAlways),
    ];
    assert_eq!(pick_option(&both, PermissionStrategy::Deny), "reject_always");
    let misnamed = vec![
        option("deny_not", PermissionOptionKind::AllowOnce),
        option("no", PermissionOptionKind::RejectAlways),
        option("deny", PermissionOptionKind::RejectOnce),
    ];
    assert_eq!(pick_option(&misnamed, PermissionStrategy::Deny), "deny");
}

#[test]
fn the_ids_decide_where_no_kind_fits() {
    let always = vec![
        option("yes", PermissionOptionKind::AllowAlways),
        option("allow_it", PermissionOptionKind::AllowAlways),
    ];
    assert_eq!(pick_option(&always, PermissionStrategy::Allow), "allow_it");
    assert_eq!(pick_option(&always, PermissionStrategy::Deny), "allow_it");
    let never = vec![
        option("no", PermissionOptionKind::RejectOnce),
        option("allow_it", PermissionOptionKind::Unknown),
        option("allow_session", PermissionOptionKind::Unknown),
        option("allow", PermissionOptionKind::Unknown),
    ];
    assert_eq!(pick_option(&never, PermissionStrategy::Allow), "allow");
    assert_eq!(pick_option(&never, PermissionStrategy::AllowSession), "allow_session");
    let strange = vec![
        option("maybe", PermissionOptionKind::Unknown),
        option("no", PermissionOptionKind::RejectOnce),
    ];
    assert_eq!(pick_option(&strange, PermissionStrategy::Allow), "maybe");
}

#[test]
fn a_replayed_history_is_counted_by_its_tool_calls() {
    let messages = vec![Message {
        role: Role::Assistant,
        content: vec![
            ProviderBlock::Text { text: "so".to_string() },
            ProviderBlock::ToolUse { id: "a".to_string(), name: "read".to_string() },
            ProviderBlock::Thinking { thinking: "hm".to_string() },
            ProviderBlock::ToolUse { id: "b".to_string(), name: "bash".to_string() },
        ],
        user_text: None,
    }];
    let mut state = HarnessState::default();
    for update in history_to_updates(&messages) {
        handle_session_update(&update, &mut state);
    }
    assert_eq!(state.replay_updates, 2);
    assert_eq!(state.text_buf, "so");
    assert_eq!(state.thinking_buf, "hm");
}

#[test]
fn grants_go_by_the_kind_of_the_option_and_else_by_the_id() {
    let options = vec![
        option("allow", PermissionOptionKind::RejectOnce),
        option("no", PermissionOptionKind::AllowAlways),
        option("odd", PermissionOptionKind::Unknown),
    ];
    assert!(!is_grant_option("allow", &options));
    assert!(is_grant_option("no", &options));
    assert!(!is_grant_option("odd", &options));
    assert!(is_grant_option("allow_other", &options));
    assert!(!is_grant_option("other", &options));
}

#[test]
fn permission_requests_are_answered_and_counted() {
    let mut state = HarnessState::default();
    let request = PermissionRequest {
        tool_title: Some("ls".to_string()),
        options: permission_options("bash", &vec![]),
    };
    let verdict = handle_permission_request(&request, PermissionStrategy::AllowSession, &mut state);
    assert_eq!(verdict.option_id, "allow_session");
    let head = format!("{} {BOLD}ls{RESET} → ", tag(YELLOW, "PERM"));
    assert_eq!(
        verdict.line,
        format!("{head}{GREEN}Allow bash for session (allow_session){RESET}\n")
    );
    let untitled = PermissionRequest { tool_title: None, options: vec![] };
    let verdict = handle_permission_request(&untitled, PermissionStrategy::Deny, &mut state);
    assert_eq!(verdict.option_id, "deny");
    let head = format!("{} {BOLD}(tool){RESET} → ", tag(YELLOW, "PERM"));
    assert_eq!(verdict.line, format!("{head}{RED}DENIED{RESET} (deny)\n"));
    assert_eq!(state.permissions_asked, 2);
    assert_eq!(state.permissions_granted, 1);
    assert_eq!(state.permissions_denied, 1);
}

#[test]
fn chunks_are_printed_and_gathered() {
    let mut s = HarnessState::default();
    let user = SessionUpdate::UserMessageChunk(text("hello"));
    assert_eq!(handle_session_update(&user, &mut s), format!("{DIM}hello{RESET}"));
    assert_eq!(handle_session_update(&SessionUpdate::AgentMessageChunk(text("a")), &mut s), "a");
    assert_eq!(handle_session_update(&SessionUpdate::AgentMessageChunk(text("b")), &mut s), "b");
    let thought = SessionUpdate::AgentThoughtChunk(text("hm"));
    assert_eq!(handle_session_update(&thought, &mut s), format!("{DIM}hm{RESET}"));
    let other = SessionUpdate::AgentMessageChunk(ContentBlock::Other);
    assert_eq!(handle_session_update(&other, &mut s), "");
    assert_eq!(s.text_buf, "ab");
    assert_eq!(s.thinking_buf, "hm");
    assert_eq!(s.replay_updates, 0);
}

#[test]
fn tool_calls_are_followed() {
    let mut s = HarnessState::default();
    let line = handle_session_update(&call("t1", "Run", ToolCallStatus::InProgress), &mut s);
    assert_eq!(
        line,
        format!("\n{} {BOLD}Run{RESET} (SwitchMode) [t1]\n", tag(YELLOW, "TOOL"))
    );
    assert_eq!(s.replay_updates, 1);
    let line = handle_session_update(&change("t1", Some(ToolCallStatus::Failed)), &mut s);
    assert_eq!(
        line,
        format!("{} {BOLD}Run{RESET} {RED}✗{RESET} InProgress→Failed\n", tag(YELLOW, "TOOL"))
    );
    assert_eq!(s.tool_calls.len(), 1);
    assert_eq!(s.tool_calls[0].0, "t1");
    assert_eq!(s.tool_calls[0].1.title, "Run");
    assert_eq!(s.tool_calls[0].1.kind, "SwitchMode");
    assert_eq!(s.tool_calls[0].1.status, ToolCallStatus::Failed);
    assert_eq!(s.replay_updates, 1);
    assert_eq!(handle_session_update(&change("t1", None), &mut s), "");
    assert_eq!(s.tool_calls[0].1.status, ToolCallStatus::Failed);
    assert_eq!(s.replay_updates, 1);
}

#[test]
fn every_status_has_its_mark() {
    let mut s = HarnessState::default();
    handle_session_update(&call("t1", "x", ToolCallStatus::Pending), &mut s);
    for (status, mark, name) in [
        (ToolCallStatus::InProgress, format!("{YELLOW}▶{RESET}"), "InProgress"),
        (ToolCallStatus::Completed, format!("{GREEN}✓{RESET}"), "Completed"),
        (ToolCallStatus::Pending, format!("{DIM}…{RESET}"), "Pending"),
        (ToolCallStatus::Unknown, "?".to_string(), "Unknown"),
    ] {
        let line = handle_session_update(&change("t1", Some(status)), &mut s);
        assert!(line.ends_with(&format!("→{name}\n")));
        assert!(line.contains(&format!(" {mark} ")));
    }
}

#[test]
fn a_tool_call_that_is_announced_again_is_replaced() {
    let mut s = HarnessState::default();
    handle_session_update(&call("t1", "first", ToolCallStatus::Pending), &mut s);
    handle_session_update(&call("t2", "other", ToolCallStatus::Pending), &mut s);
    handle_session_update(&call("t1", "again", ToolCallStatus::Completed), &mut s);
    let titles: Vec<&str> = s.tool_calls.iter().map(|(_, e)| e.title.as_str()).collect();
    assert_eq!(titles, vec!["again", "other"]);
    assert_eq!(s.replay_updates, 3);
}

#[test]
fn what_is_not_looked_into_counts_as_replayed() {
    let mut s = HarnessState::default();
    assert_eq!(handle_session_update(&SessionUpdate::Other, &mut s), "");
    assert_eq!(handle_session_update(&change("t9", Some(ToolCallStatus::Completed)), &mut s), "");
    assert_eq!(s.replay_updates, 2);
    assert!(s.tool_calls.is_empty());
}

#[test]
fn titles_are_printed_in_quotes() {
    let mut s = HarnessState::default();
    let title = "say \"hi\"\n✓";
    let update = SessionUpdate::SessionInfoUpdate(SessionInfoUpdate {
        title: Some(title.to_string()),
        updated_at: None,
    });
    let expected = format!("\n{} title={title:?}\n", tag(CYAN, "INFO"));
    assert_eq!(handle_session_update(&update, &mut s), expected);
    assert_eq!(write_title_line("\"x\""), format!("\n{} title=\"x\"\n", tag(CYAN, "INFO")));
    let untitled =
        SessionUpdate::SessionInfoUpdate(SessionInfoUpdate { title: None, updated_at: None });
    assert_eq!(handle_session_update(&untitled, &mut s), "");
    assert_eq!(s.replay_updates, 0);
}

#[test]
fn summary_of_what_was_seen() {
    let mut s = HarnessState::default();
    handle_session_update(&SessionUpdate::AgentMessageChunk(text("é✓")), &mut s);
    handle_session_update(&SessionUpdate::AgentThoughtChunk(text("abc")), &mut s);
    handle_session_update(&call("t1", "one", ToolCallStatus::Completed), &mut s);
    handle_session_update(&call("t2", "two", ToolCallStatus::Failed), &mut s);
    handle_session_update(&call("t3", "three", ToolCallStatus::Pending), &mut s);
    s.permissions_asked = 12;
    s.permissions_granted = 10;
    s.permissions_denied = 2;
    let expected = [
        format!("{DIM}─ summary ─────────────────────────────────────{RESET}"),
        "  text chars  : 5".to_string(),
        "  think chars : 3".to_string(),
        "  tool calls  : 3 total  1 completed  1 failed".to_string(),
        format!("    {GREEN}✓{RESET} one {DIM}(SwitchMode) [t1]{RESET}"),
        format!("    {RED}✗{RESET} two {DIM}(SwitchMode) [t2]{RESET}"),
        format!("    {DIM}…{RESET} three {DIM}(SwitchMode) [t3]{RESET}"),
        "  permissions : 12 asked  10 granted  2 denied".to_string(),
        format!("{DIM}────────────────────────────────────────────────{RESET}"),
        String::new(),
    ]
    .join("\n");
    assert_eq!(print_summary(&s), expected);
}

#[test]
fn turns_may_end_for_three_reasons() {
    for stop in [StopReason::EndTurn, StopReason::MaxTokens, StopReason::Cancelled] {
        assert_eq!(check_stop_reason(stop), Ok(()));
    }
    assert_eq!(
        check_stop_reason(StopReason::Refusal),
        Err("unexpected stop reason: Refusal".to_string())
    );
    assert_eq!(
        check_stop_reason(StopReason::MaxTurnRequests),
        Err("unexpected stop reason: MaxTurnRequests".to_string())
    );
}

fn steps(options: ScenarioOptions) -> Vec<Step> {
    let mut step = Step::Initialize;
    let mut taken = vec![step];
    while step != Step::Done {
        let reply = match step {
            Step::Prompt | Step::FollowUp | Step::Cancel => Reply::Stopped(StopReason::EndTurn),
            Step::List => Reply::Listed(vec!["x".to_string(), "mine".to_string()]),
            Step::Load => Reply::Replayed(1),
            _ => Reply::Answered,
        };
        step = advance(step, &options, &reply, "mine").unwrap();
        taken.push(step);
    }
    taken
}

const ALL: ScenarioOptions =
    ScenarioOptions { no_reload: false, no_second_prompt: false, no_cancel: false };

#[test]
fn the_whole_course() {
    assert_eq!(
        steps(ALL),
        vec![
            Step::Initialize,
            Step::NewSession,
            Step::PlanMode,
            Step::BuildMode,
            Step::Prompt,
            Step::FollowUp,
            Step::List,
            Step::Load,
            Step::Cancel,
            Step::Done,
        ]
    );
}

#[test]
fn each_option_leaves_out_its_part() {
    for options in [
        ScenarioOptions { no_reload: true, ..ALL },
        ScenarioOptions { no_second_prompt: true, ..ALL },
        ScenarioOptions { no_cancel: true, ..ALL },
        ScenarioOptions { no_reload: true, no_second_prompt: true, no_cancel: true },
    ] {
        let taken = steps(options);
        assert_eq!(taken.contains(&Step::FollowUp), !options.no_second_prompt);
        assert_eq!(taken.contains(&Step::List), !options.no_reload);
        assert_eq!(taken.contains(&Step::Load), !options.no_reload);
        assert_eq!(taken.contains(&Step::Cancel), !options.no_cancel);
    }
}

#[test]
fn the_course_ends_early_where_a_turn_ends_badly() {
    for step in [Step::Prompt, Step::FollowUp] {
        let reply = Reply::Stopped(StopReason::Refusal);
        assert_eq!(
            advance(step, &ALL, &reply, "mine"),
            Err("unexpected stop reason: Refusal".to_string())
        );
    }
    let reply = Reply::Stopped(StopReason::Refusal);
    assert_eq!(advance(Step::Cancel, &ALL, &reply, "mine"), Ok(Step::Done));
}

#[test]
fn the_course_ends_early_where_the_session_is_not_listed() {
    let reply = Reply::Listed(vec!["other".to_string(), "mine2".to_string()]);
    assert_eq!(
        advance(Step::List, &ALL, &reply, "mine"),
        Err("session not found in session/list".to_string())
    );
}

#[test]
fn the_course_ends_early_where_no_replay_arrives() {
    assert_eq!(
        advance(Step::Load, &ALL, &Reply::Replayed(0), "mine"),
        Err("no history replay after session/load".to_string())
    );
    assert_eq!(advance(Step::Load, &ALL, &Reply::Replayed(2), "mine"), Ok(Step::Cancel));
}

#[test]
fn every_update_that_arrives_for_a_load_is_counted() {
    let mut s = HarnessState::default();
    handle_session_update(&SessionUpdate::AgentMessageChunk(text("before")), &mut s);
    assert_eq!(s.load_updates, 1);
    begin_load(&mut s);
    assert_eq!(s.load_updates, 0);
    handle_session_update(&SessionUpdate::UserMessageChunk(text("asked")), &mut s);
    handle_session_update(&SessionUpdate::AgentMessageChunk(text("answered")), &mut s);
    handle_session_update(&change("t", None), &mut s);
    assert_eq!(s.load_updates, 3);
    assert_eq!(s.text_buf, "beforeanswered");
    s.load_updates = u32::MAX;
    handle_session_update(&SessionUpdate::AgentThoughtChunk(text("more")), &mut s);
    assert_eq!(s.load_updates, u32::MAX);
}

#[test]
fn reports_of_the_course() {
    let ids = vec!["a".to_string(), "b".to_string()];
    assert!(list_report(&ids, "b").ends_with("[LIST]\x1b[0m total=2 found_ours=true\n"));
    assert!(list_report(&ids, "c").ends_with(" total=2 found_ours=false\n"));
    assert!(replay_report(3).ends_with("[LOAD]\x1b[0m replay_updates=3\n"));
    assert!(replay_report(0).ends_with(&format!(
        " replay_updates=0\n{DIM}  note: zero replay updates – session may have been empty{RESET}\n"
    )));
    assert!(cancel_report(StopReason::Cancelled).ends_with(" stop=Cancelled (correct)\n"));
    assert!(cancel_report(StopReason::Cancelled).contains(GREEN));
    assert!(cancel_report(StopReason::EndTurn)
        .ends_with(" stop=EndTurn — cancel arrived after agent finished (acceptable race)\n"));
}
