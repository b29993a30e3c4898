//! A prompt turn: what the client is told of the events of the agent, and how the turn ends.
use vstd::prelude::*;
use vstd::string::*;

use crate::clock;
use crate::history;
use crate::protocol;
use crate::protocol::{ContentBlock, PermissionOption, PermissionOptionKind, SessionInfoUpdate};
use crate::protocol::{SessionUpdate, StopReason, ToolCall, ToolCallStatus, ToolCallUpdate};
use crate::protocol::{ContentView, PermissionOptionView, SessionInfoUpdateView, ToolCallUpdateView};
use crate::protocol::{ToolCallView, UpdateView};
use crate::text;

verus! {

/// Why a model stopped.
#[derive(Clone, Copy, Debug, PartialEq, Eq, Structural)]
pub enum ModelStopReason {
    EndTurn,
    ToolUse,
    MaxTokens,
}

/// What happens while the agent works on a prompt.
#[derive(Debug)]
pub enum AgentEvent {
    TextDelta { text: String },
    ThinkingDelta { text: String },
    ToolStart { id: String, tool: String, summary: String },
    ToolDone { id: String, is_error: bool },
    PermissionRequest { id: String, tool: String, scopes: Vec<String> },
    Done { stop_reason: Option<ModelStopReason> },
    Error { message: String },
    /// An event that is of no concern to the client.
    Other,
}

/// The contents of an [`AgentEvent`].
pub enum EventView {
    TextDelta { text: Seq<char> },
    ThinkingDelta { text: Seq<char> },
    ToolStart { id: Seq<char>, tool: Seq<char>, summary: Seq<char> },
    ToolDone { id: Seq<char>, is_error: bool },
    PermissionRequest { id: Seq<char>, tool: Seq<char>, scopes: Seq<Seq<char>> },
    Done { stop_reason: Option<ModelStopReason> },
    Error { message: Seq<char> },
    Other,
}

impl View for AgentEvent {
    type V = EventView;

    open spec fn view(&self) -> EventView {
        match self {
            AgentEvent::TextDelta { text } => EventView::TextDelta { text: text@ },
            AgentEvent::ThinkingDelta { text } => EventView::ThinkingDelta { text: text@ },
            AgentEvent::ToolStart { id, tool, summary } => EventView::ToolStart {
                id: id@,
                tool: tool@,
                summary: summary@,
            },
            AgentEvent::ToolDone { id, is_error } => EventView::ToolDone {
                id: id@,
                is_error: *is_error,
            },
            AgentEvent::PermissionRequest { id, tool, scopes } => EventView::PermissionRequest {
                id: id@,
                tool: tool@,
                scopes: text::contents(scopes@),
            },
            AgentEvent::Done { stop_reason } => EventView::Done { stop_reason: *stop_reason },
            AgentEvent::Error { message } => EventView::Error { message: message@ },
            AgentEvent::Other => EventView::Other,
        }
    }
}

/// What is to be done about an event.
#[derive(Debug)]
pub enum Action {
    /// Send the update to the client.
    Notify(SessionUpdate),
    /// Ask the client for permission to go on with a tool call.
    AskPermission { tool_call: ToolCallUpdate, options: Vec<PermissionOption> },
    /// End the turn.
    Finish(StopReason),
    Ignore,
}

/// The contents of an [`Action`].
pub enum ActionView {
    Notify(UpdateView),
    AskPermission { tool_call: ToolCallUpdateView, options: Seq<PermissionOptionView> },
    Finish(StopReason),
    Ignore,
}

impl View for Action {
    type V = ActionView;

    open spec fn view(&self) -> ActionView {
        match self {
            Action::Notify(update) => ActionView::Notify(update@),
            Action::AskPermission { tool_call, options } => ActionView::AskPermission {
                tool_call: tool_call@,
                options: protocol::options(options@),
            },
            Action::Finish(reason) => ActionView::Finish(*reason),
            Action::Ignore => ActionView::Ignore,
        }
    }
}

/// The reason that the client is given for the end of a turn.
pub open spec fn mapped_stop(reason: Option<ModelStopReason>) -> StopReason {
    if reason == Some(ModelStopReason::MaxTokens) {
        StopReason::MaxTokens
    } else {
        StopReason::EndTurn
    }
}

/// The reason that the client is given for the end of a turn.
pub fn map_stop_reason(reason: Option<ModelStopReason>) -> (r: StopReason)
    ensures
        r == mapped_stop(reason),
{
    match reason {
        Some(ModelStopReason::MaxTokens) => StopReason::MaxTokens,
        _ => StopReason::EndTurn,
    }
}

/// Whether an option grants permission.
pub open spec fn grants(option_id: Seq<char>) -> bool {
    "allow"@.is_prefix_of(option_id)
}

/// Whether an option grants permission.
pub fn is_permission_grant(option_id: &str) -> (r: bool)
    ensures
        r == grants(option_id@),
{
    text::starts_with(option_id, "allow")
}

/// A change to nothing but the status of a tool call.
pub open spec fn status_update(id: Seq<char>, status: ToolCallStatus) -> UpdateView {
    UpdateView::ToolCallUpdate(
        ToolCallUpdateView { tool_call_id: id, title: None, kind: None, status: Some(status) },
    )
}

fn make_status_update(id: &String, status: ToolCallStatus) -> (r: SessionUpdate)
    ensures
        r@ == status_update(id@, status),
{
    SessionUpdate::ToolCallUpdate(
        ToolCallUpdate { tool_call_id: id.clone(), title: None, kind: None, status: Some(status) },
    )
}

/// The answers that a permission request offers, for a tool and the scopes it asks for.
pub open spec fn offered(tool: Seq<char>, scopes: Seq<Seq<char>>) -> Seq<PermissionOptionView> {
    seq![
        PermissionOptionView {
            option_id: "allow"@,
            name: "Allow "@ + tool + " ("@ + text::join(scopes, ", "@) + ") once"@,
            kind: PermissionOptionKind::AllowOnce,
        },
        PermissionOptionView {
            option_id: "allow_session"@,
            name: "Allow "@ + tool + " for session"@,
            kind: PermissionOptionKind::AllowAlways,
        },
        PermissionOptionView {
            option_id: "deny"@,
            name: "Deny"@,
            kind: PermissionOptionKind::RejectOnce,
        },
        PermissionOptionView {
            option_id: "deny_always_local"@,
            name: "Deny always"@,
            kind: PermissionOptionKind::RejectAlways,
        },
    ]
}

/// The answers that a permission request offers.
pub fn permission_options(tool: &str, scopes: &Vec<String>) -> (r: Vec<PermissionOption>)
    ensures
        protocol::options(r@) == offered(tool@, text::contents(scopes@)),
{
    let once = "Allow ".to_owned().concat(tool).concat(" (").concat(
        text::join_strings(scopes, ", ").as_str(),
    ).concat(") once");
    let session = "Allow ".to_owned().concat(tool).concat(" for session");
    let mut options: Vec<PermissionOption> = Vec::new();
    options.push(
        PermissionOption {
            option_id: "allow".to_owned(),
            name: once,
            kind: PermissionOptionKind::AllowOnce,
        },
    );
    options.push(
        PermissionOption {
            option_id: "allow_session".to_owned(),
            name: session,
            kind: PermissionOptionKind::AllowAlways,
        },
    );
    options.push(
        PermissionOption {
            option_id: "deny".to_owned(),
            name: "Deny".to_owned(),
            kind: PermissionOptionKind::RejectOnce,
        },
    );
    options.push(
        PermissionOption {
            option_id: "deny_always_local".to_owned(),
            name: "Deny always".to_owned(),
            kind: PermissionOptionKind::RejectAlways,
        },
    );
    assert(protocol::options(options@) =~= offered(tool@, text::contents(scopes@)));
    options
}

/// What is to be done about an event.
pub open spec fn action_for(event: EventView) -> ActionView {
    match event {
        EventView::TextDelta { text } => ActionView::Notify(
            UpdateView::AgentMessageChunk(ContentView::Text(text)),
        ),
        EventView::ThinkingDelta { text } => ActionView::Notify(
            UpdateView::AgentThoughtChunk(ContentView::Text(text)),
        ),
        EventView::ToolStart { id, tool, summary } => ActionView::Notify(
            UpdateView::ToolCall(
                ToolCallView {
                    tool_call_id: id,
                    title: if summary.len() == 0 {
                        tool
                    } else {
                        summary
                    },
                    kind: history::kind_of_tool(tool),
                    status: ToolCallStatus::InProgress,
                    raw_output: None,
                },
            ),
        ),
        EventView::ToolDone { id, is_error } => ActionView::Notify(
            status_update(
                id,
                if is_error {
                    ToolCallStatus::Failed
                } else {
                    ToolCallStatus::Completed
                },
            ),
        ),
        EventView::PermissionRequest { id, tool, scopes } => ActionView::AskPermission {
            tool_call: ToolCallUpdateView {
                tool_call_id: id,
                title: None,
                kind: Some(history::kind_of_tool(tool)),
                status: Some(ToolCallStatus::Pending),
            },
            options: offered(tool, scopes),
        },
        EventView::Done { stop_reason } => ActionView::Finish(mapped_stop(stop_reason)),
        EventView::Error { .. } => ActionView::Finish(StopReason::Cancelled),
        EventView::Other => ActionView::Ignore,
    }
}

/// What is to be done about an event.
pub fn on_event(event: &AgentEvent) -> (r: Action)
    ensures
        r@ == action_for(event@),
{
    match event {
        AgentEvent::TextDelta { text } => Action::Notify(
            SessionUpdate::AgentMessageChunk(ContentBlock::Text(text.clone())),
        ),
        AgentEvent::ThinkingDelta { text } => Action::Notify(
            SessionUpdate::AgentThoughtChunk(ContentBlock::Text(text.clone())),
        ),
        AgentEvent::ToolStart { id, tool, summary } => {
            let title = if summary.as_str().is_empty() {
                tool.clone()
            } else {
                summary.clone()
            };
            Action::Notify(
                SessionUpdate::ToolCall(
                    ToolCall {
                        tool_call_id: id.clone(),
                        title,
                        kind: history::tool_kind(tool.as_str()),
                        status: ToolCallStatus::InProgress,
                        raw_output: None,
                    },
                ),
            )
        },
        AgentEvent::ToolDone { id, is_error } => {
            let status = if *is_error {
                ToolCallStatus::Failed
            } else {
                ToolCallStatus::Completed
            };
            Action::Notify(make_status_update(id, status))
        },
        AgentEvent::PermissionRequest { id, tool, scopes } => Action::AskPermission {
            tool_call: ToolCallUpdate {
                tool_call_id: id.clone(),
                title: None,
                kind: Some(history::tool_kind(tool.as_str())),
                status: Some(ToolCallStatus::Pending),
            },
            options: permission_options(tool.as_str(), scopes),
        },
        AgentEvent::Done { stop_reason } => Action::Finish(map_stop_reason(*stop_reason)),
        AgentEvent::Error { .. } => Action::Finish(StopReason::Cancelled),
        AgentEvent::Other => Action::Ignore,
    }
}

/// The course of a prompt turn.
#[derive(Debug)]
pub struct Turn {
    /// The reason that the client is given if the turn ends now.
    pub stop_reason: StopReason,
    /// Whether the turn is over, so that no further event counts.
    pub finished: bool,
}

/// How a turn stands after one more event. Once it is over, nothing changes it.
pub open spec fn stepped(turn: Turn, event: EventView) -> Turn {
    match action_for(event) {
        ActionView::Finish(reason) if !turn.finished => Turn { stop_reason: reason, finished: true },
        _ => turn,
    }
}

/// How a turn stands after some events: over with the first event that ends it, and until then
/// cancelled if nothing more comes.
pub open spec fn turn_after(events: Seq<EventView>) -> Turn
    decreases events.len(),
{
    if events.len() == 0 {
        Turn { stop_reason: StopReason::Cancelled, finished: false }
    } else {
        stepped(turn_after(events.drop_last()), events.last())
    }
}

impl Turn {
    /// A turn of which nothing has happened yet. Unless the agent gets to say otherwise, it ends
    /// as cancelled.
    pub fn new() -> (r: Turn)
        ensures
            r == turn_after(seq![]),
    {
        Turn { stop_reason: StopReason::Cancelled, finished: false }
    }

    /// Takes in an event and returns what is to be done about it: nothing, once the turn is over.
    pub fn step(&mut self, event: &AgentEvent) -> (r: Action)
        ensures
            r@ == if old(self).finished {
                ActionView::Ignore
            } else {
                action_for(event@)
            },
            *final(self) == stepped(*old(self), event@),
    {
        let action = if self.finished {
            Action::Ignore
        } else {
            on_event(event)
        };
        if let Action::Finish(reason) = &action {
            self.stop_reason = *reason;
            self.finished = true;
        }
        action
    }
}

/// What came of a permission request.
#[derive(Debug)]
pub enum PermissionReply {
    /// The client chose the option of this id.
    Selected(String),
    /// The client did not choose, as when the turn was cancelled.
    Dismissed,
    /// The request failed.
    Failed,
}

/// What is to be done about the reply to a permission request.
#[derive(Debug)]
pub struct PermissionAnswer {
    /// An update for the client.
    pub notify: Option<SessionUpdate>,
    /// The answer for the agent.
    pub answer: String,
}

/// The answer that the agent gets: the option that the client chose, and otherwise a denial.
pub open spec fn agent_answer(reply: PermissionReply) -> Seq<char> {
    match reply {
        PermissionReply::Selected(option_id) => option_id@,
        _ => "deny"@,
    }
}

/// Whether a reply lets the tool call go on.
pub open spec fn goes_on(reply: PermissionReply) -> bool {
    match reply {
        PermissionReply::Selected(option_id) => grants(option_id@),
        _ => false,
    }
}

/// What is to be done about the reply to the permission request of a tool call. The client is told
/// that the call is in progress exactly where the reply lets it go on.
pub fn on_permission_reply(id: &String, reply: &PermissionReply) -> (r: PermissionAnswer)
    ensures
        r.answer@ == agent_answer(*reply),
        goes_on(*reply) ==> r.notify is Some && r.notify->0@ == status_update(
            id@,
            ToolCallStatus::InProgress,
        ),
        !goes_on(*reply) ==> r.notify is None,
{
    match reply {
        PermissionReply::Selected(option_id) => {
            let notify = if is_permission_grant(option_id.as_str()) {
                Some(make_status_update(id, ToolCallStatus::InProgress))
            } else {
                None
            };
            PermissionAnswer { notify, answer: option_id.clone() }
        },
        _ => PermissionAnswer { notify: None, answer: "deny".to_owned() },
    }
}

/// The update that tells the client of a new title, given the text of the current time.
pub fn title_update_at(old_title: &str, title: &str, updated_at: String) -> (r: Option<
    SessionUpdate,
>)
    ensures
        match r {
            Some(update) => old_title@ != title@ && update@ == UpdateView::SessionInfoUpdate(
                SessionInfoUpdateView { title: Some(title@), updated_at: Some(updated_at@) },
            ),
            None => old_title@ == title@,
        },
{
    if text::str_eq(old_title, title) {
        None
    } else {
        Some(
            SessionUpdate::SessionInfoUpdate(
                SessionInfoUpdate { title: Some(title.to_owned()), updated_at: Some(updated_at) },
            ),
        )
    }
}

/// The update that tells the client of a new title, at the current time. There is none where the
/// title is the old one, and then the clock is not read.
pub fn title_update(old_title: &str, title: &str) -> (r: Option<SessionUpdate>)
    ensures
        match r {
            Some(update) => old_title@ != title@ && (update@ matches UpdateView::SessionInfoUpdate(
                info,
            ) && info.title == Some(title@) && info.updated_at is Some
                && clock::is_timestamp(info.updated_at->0)),
            None => old_title@ == title@,
        },
{
    if text::str_eq(old_title, title) {
        None
    } else {
        title_update_at(old_title, title, clock::now_text())
    }
}

/// No end that the model itself gives a turn is told to the client as a cancellation.
pub proof fn mapped_stop_is_never_cancelled(reason: Option<ModelStopReason>)
    ensures
        mapped_stop(reason) != StopReason::Cancelled,
{
}

/// A turn that takes in its events one by one, from the beginning, stands as they say together.
pub proof fn steps_add_up(events: Seq<EventView>, event: EventView)
    ensures
        turn_after(events.push(event)) == stepped(turn_after(events), event),
{
    assert(events.push(event).drop_last() =~= events);
}

/// Whether an event ends a turn.
pub open spec fn ends_turn(event: EventView) -> bool {
    event is Done || event is Error
}

/// The position of the first event that ends a turn, or the number of events where none does.
pub open spec fn first_end(events: Seq<EventView>) -> nat
    decreases events.len(),
{
    if events.len() == 0 {
        0
    } else {
        let earlier = first_end(events.drop_last());
        if earlier < events.len() - 1 || ends_turn(events.last()) {
            earlier
        } else {
            events.len()
        }
    }
}

proof fn lemma_first_end(events: Seq<EventView>)
    ensures
        first_end(events) <= events.len(),
        first_end(events) < events.len() ==> ends_turn(events[first_end(events) as int]),
        forall|i: int| 0 <= i < first_end(events) ==> !ends_turn(#[trigger] events[i]),
    decreases events.len(),
{
    if events.len() > 0 {
        let init = events.drop_last();
        lemma_first_end(init);
        assert forall|i: int| 0 <= i < first_end(events) implies !ends_turn(
            #[trigger] events[i],
        ) by {
            if i < init.len() {
                assert(init[i] == events[i]);
            }
        }
    }
}

/// A turn is over exactly if one of its events ends it, and then as the first of these says,
/// whatever follows. Until then it counts as cancelled.
pub proof fn first_ending_event_decides(events: Seq<EventView>)
    ensures
        turn_after(events).finished <==> exists|i: int|
            0 <= i < events.len() && ends_turn(#[trigger] events[i]),
        turn_after(events).finished <==> first_end(events) < events.len(),
        turn_after(events).finished ==> action_for(events[first_end(events) as int])
            == ActionView::Finish(turn_after(events).stop_reason),
        !turn_after(events).finished ==> turn_after(events).stop_reason == StopReason::Cancelled,
    decreases events.len(),
{
    lemma_first_end(events);
    if events.len() > 0 {
        first_ending_event_decides(events.drop_last());
        lemma_first_end(events.drop_last());
    }
}

/// The client is told of anything but a cancellation exactly where the first event that ends the
/// turn is the agent being done.
pub proof fn cancelled_unless_done(events: Seq<EventView>)
    ensures
        turn_after(events).stop_reason != StopReason::Cancelled <==> first_end(events)
            < events.len() && events[first_end(events) as int] is Done,
{
    first_ending_event_decides(events);
    lemma_first_end(events);
}

/// Of the answers on offer, those that allow are the ones that grant permission, and no two have
/// the same id.
pub proof fn offered_ids_say_what_they_grant(tool: Seq<char>, scopes: Seq<Seq<char>>)
    ensures
        forall|i: int|
            0 <= i < offered(tool, scopes).len() ==> (grants(
                (#[trigger] offered(tool, scopes)[i]).option_id,
            ) <==> (offered(tool, scopes)[i].kind == PermissionOptionKind::AllowOnce || offered(
                tool,
                scopes,
            )[i].kind == PermissionOptionKind::AllowAlways)),
        forall|i: int, j: int|
            #![trigger offered(tool, scopes)[i], offered(tool, scopes)[j]]
            0 <= i < j < offered(tool, scopes).len() ==> offered(tool, scopes)[i].option_id
                != offered(tool, scopes)[j].option_id,
{
    reveal_strlit("allow");
    reveal_strlit("allow_session");
    reveal_strlit("deny");
    reveal_strlit("deny_always_local");
    assert("allow"@ =~= "allow_session"@.subrange(0, 5));
    assert("allow"@ =~= "allow"@.subrange(0, 5));
    assert("allow"@[0] != "deny"@[0]);
    assert("deny_always_local"@.subrange(0, 5)[0] != "allow"@[0]);
    assert("allow"@.len() != "allow_session"@.len());
    assert("deny"@.len() != "deny_always_local"@.len());
    assert("allow_session"@.len() != "deny_always_local"@.len());
}

/// A request that the client does not answer, or that fails, is a denial: the tool call does not
/// go on, and the agent is given an answer that grants nothing.
pub proof fn unanswered_request_denies(reply: PermissionReply)
    requires
        !(reply is Selected),
    ensures
        !goes_on(reply),
        !grants(agent_answer(reply)),
{
    reveal_strlit("allow");
    reveal_strlit("deny");
    assert("deny"@.len() < "allow"@.len());
}

/// The client is told that the tokens ran out exactly where the model stopped for that, and of any
/// other end that the model gives that the turn is over.
pub proof fn only_running_out_of_tokens_is_told_as_such(reason: Option<ModelStopReason>)
    ensures
        mapped_stop(reason) == StopReason::MaxTokens <==> reason == Some(
            ModelStopReason::MaxTokens,
        ),
        mapped_stop(reason) == StopReason::EndTurn <==> reason != Some(ModelStopReason::MaxTokens),
{
}

/// A turn ends as its first event that ends one says, whatever comes after it: for an error as
/// cancelled, and otherwise by the reason that the model gave. A turn without such an event counts
/// as cancelled and goes on.
pub proof fn turns_end_as_the_first_ending_event_says(events: Seq<EventView>, n: int)
    requires
        0 <= n <= events.len(),
        forall|i: int|
            0 <= i < n ==> !((#[trigger] events[i]) is Done) && !(events[i] is Error),
        n < events.len() ==> events[n] is Done || events[n] is Error,
    ensures
        turn_after(events).finished <==> n < events.len(),
        n == events.len() ==> turn_after(events).stop_reason == StopReason::Cancelled,
        n < events.len() && events[n] is Error ==> turn_after(events).stop_reason
            == StopReason::Cancelled,
        n < events.len() ==> (events[n] matches EventView::Done { stop_reason } ==> (
        if stop_reason == Some(ModelStopReason::MaxTokens) {
            turn_after(events).stop_reason == StopReason::MaxTokens
        } else {
            turn_after(events).stop_reason == StopReason::EndTurn
        })),
    decreases events.len(),
{
    if events.len() > 0 {
        let init = events.drop_last();
        let k = if n < events.len() {
            if n < init.len() {
                n
            } else {
                init.len() as int
            }
        } else {
            init.len() as int
        };
        assert forall|i: int| 0 <= i < k implies !((#[trigger] init[i]) is Done) && !(
        init[i] is Error) by {
            assert(init[i] == events[i]);
        }
        turns_end_as_the_first_ending_event_says(init, k);
        if n == events.len() {
            assert(!(events[events.len() - 1] is Done) && !(events[events.len() - 1] is Error));
        }
    }
}

/// Once a turn is over no event changes it, and until then it changes only with an event that ends
/// it.
pub proof fn only_an_end_changes_a_turn(turn: Turn, event: EventView)
    ensures
        turn.finished || !(event is Done || event is Error) ==> stepped(turn, event) == turn,
        !turn.finished && (event is Done || event is Error) ==> stepped(turn, event).finished,
{
}

/// Each event is told as what it is: words and thoughts with their text, the start of a tool call
/// with its summary, or its tool where there is none, and its end by whether it was an error.
pub proof fn events_are_told_as_what_they_are(event: EventView)
    ensures
        event matches EventView::TextDelta { text } ==> action_for(event) == ActionView::Notify(
            UpdateView::AgentMessageChunk(ContentView::Text(text)),
        ),
        event matches EventView::ThinkingDelta { text } ==> action_for(event)
            == ActionView::Notify(UpdateView::AgentThoughtChunk(ContentView::Text(text))),
        event matches EventView::ToolStart { id, tool, summary } ==> action_for(
            event,
        ) matches ActionView::Notify(UpdateView::ToolCall(call)) && call.tool_call_id == id
            && call.kind == history::kind_of_tool(tool) && call.status
            == ToolCallStatus::InProgress && call.raw_output is None && (summary.len() > 0
            ==> call.title == summary) && (summary.len() == 0 ==> call.title == tool),
        event matches EventView::ToolDone { id, is_error } ==> action_for(
            event,
        ) matches ActionView::Notify(UpdateView::ToolCallUpdate(change)) && change.tool_call_id
            == id && change.title is None && change.kind is None && change.status == Some(
            if is_error {
                ToolCallStatus::Failed
            } else {
                ToolCallStatus::Completed
            },
        ),
        event is Other ==> action_for(event) is Ignore,
        event is Done || event is Error <==> action_for(event) is Finish,
{
}

/// A permission request is put to the client for that very tool call, as pending, with the answers
/// in a fixed order: once, naming the tool and the scopes it asks for, for the session, naming the
/// tool, not now, and never.
pub proof fn permission_is_asked_for_the_tool_call(
    id: Seq<char>,
    tool: Seq<char>,
    scopes: Seq<Seq<char>>,
)
    ensures
        ({
            let event = EventView::PermissionRequest { id, tool, scopes };
            &&& action_for(event) matches ActionView::AskPermission { tool_call, options }
            &&& tool_call.tool_call_id == id
            &&& tool_call.title is None
            &&& tool_call.kind == Some(history::kind_of_tool(tool))
            &&& tool_call.status == Some(ToolCallStatus::Pending)
            &&& options == offered(tool, scopes)
            &&& options.len() == 4
            &&& options[0].option_id == "allow"@
            &&& options[0].kind == PermissionOptionKind::AllowOnce
            &&& options[0].name == "Allow "@ + tool + " ("@ + text::join(scopes, ", "@) + ") once"@
            &&& options[1].option_id == "allow_session"@
            &&& options[1].kind == PermissionOptionKind::AllowAlways
            &&& options[1].name == "Allow "@ + tool + " for session"@
            &&& options[2].option_id == "deny"@
            &&& options[2].kind == PermissionOptionKind::RejectOnce
            &&& options[2].name == "Deny"@
            &&& options[3].option_id == "deny_always_local"@
            &&& options[3].kind == PermissionOptionKind::RejectAlways
            &&& options[3].name == "Deny always"@
        }),
{
}

/// The agent gets the very id that the client selects, and a denial where the client selects none.
pub proof fn the_agent_gets_what_the_client_selects(reply: PermissionReply)
    ensures
        reply matches PermissionReply::Selected(id) ==> agent_answer(reply) == id@,
        !(reply is Selected) ==> agent_answer(reply) == "deny"@,
{
}

/// A tool call goes on exactly where the client selects an id that begins with the letters of
/// `allow`, and then the client is told that this call, and nothing else of it, is in progress.
pub proof fn calls_go_on_where_they_are_allowed(
    reply: PermissionReply,
    id: Seq<char>,
    status: ToolCallStatus,
)
    ensures
        goes_on(reply) <==> (reply matches PermissionReply::Selected(chosen) && chosen@.len() >= 5
            && chosen@[0] == 'a' && chosen@[1] == 'l' && chosen@[2] == 'l' && chosen@[3] == 'o'
            && chosen@[4] == 'w'),
        status_update(id, status) matches UpdateView::ToolCallUpdate(change)
            && change.tool_call_id == id && change.status == Some(status) && change.title is None
            && change.kind is None,
{
    if let PermissionReply::Selected(chosen) = reply {
        grants_begin_with_allow(chosen@);
    }
}

/// An id grants permission exactly where it begins with the letters of `allow`.
pub proof fn grants_begin_with_allow(id: Seq<char>)
    ensures
        grants(id) <==> (id.len() >= 5 && id[0] == 'a' && id[1] == 'l' && id[2] == 'l' && id[3]
            == 'o' && id[4] == 'w'),
{
    reveal_strlit("allow");
    if id.len() >= 5 {
        assert(id.subrange(0, 5)[0] == id[0]);
        assert(id.subrange(0, 5)[1] == id[1]);
        assert(id.subrange(0, 5)[2] == id[2]);
        assert(id.subrange(0, 5)[3] == id[3]);
        assert(id.subrange(0, 5)[4] == id[4]);
        if id[0] == 'a' && id[1] == 'l' && id[2] == 'l' && id[3] == 'o' && id[4] == 'w' {
            assert("allow"@ =~= id.subrange(0, 5));
        }
    }
}

/// The contents of an event and of an action are those of their parts.
pub proof fn events_and_actions_are_what_they_hold(event: AgentEvent, action: Action)
    ensures
        event matches AgentEvent::TextDelta { text } ==> event@ == (EventView::TextDelta {
            text: text@,
        }),
        event matches AgentEvent::ThinkingDelta { text } ==> event@ == (EventView::ThinkingDelta {
            text: text@,
        }),
        event matches AgentEvent::ToolStart { id, tool, summary } ==> event@ == (
        EventView::ToolStart { id: id@, tool: tool@, summary: summary@ }),
        event matches AgentEvent::ToolDone { id, is_error } ==> event@ == (EventView::ToolDone {
            id: id@,
            is_error,
        }),
        event matches AgentEvent::PermissionRequest { id, tool, scopes } ==> event@ == (
        EventView::PermissionRequest { id: id@, tool: tool@, scopes: text::contents(scopes@) }),
        event matches AgentEvent::Done { stop_reason } ==> event@ == (EventView::Done {
            stop_reason,
        }),
        event is Error ==> event@ is Error,
        event is Other ==> event@ is Other,
        action matches Action::Notify(update) ==> action@ == ActionView::Notify(update@),
        action matches Action::AskPermission { tool_call, options } ==> action@ == (
        ActionView::AskPermission {
            tool_call: tool_call@,
            options: protocol::options(options@),
        }),
        action matches Action::Finish(reason) ==> action@ == ActionView::Finish(reason),
        action is Ignore ==> action@ is Ignore,
{
}

} // verus!
