//! The messages of the Agent Client Protocol, as far as the agent and its client look into them.
use vstd::prelude::*;

use crate::text;

verus! {

/// Why a prompt turn ended.
#[derive(Clone, Copy, Debug, PartialEq, Eq, Structural)]
pub enum StopReason {
    EndTurn,
    MaxTokens,
    MaxTurnRequests,
    Refusal,
    Cancelled,
    /// A reason that this version of the protocol does not know.
    Unknown,
}

/// What a tool does, for the client's display.
#[derive(Clone, Copy, Debug, PartialEq, Eq, Structural)]
pub enum ToolKind {
    Read,
    Edit,
    Delete,
    Move,
    Search,
    Execute,
    Think,
    Fetch,
    SwitchMode,
    Other,
}

/// How far a tool call has come.
#[derive(Clone, Copy, Debug, PartialEq, Eq, Structural)]
pub enum ToolCallStatus {
    Pending,
    InProgress,
    Completed,
    Failed,
    /// A status that this version of the protocol does not know.
    Unknown,
}

/// What a permission option stands for.
#[derive(Clone, Copy, Debug, PartialEq, Eq, Structural)]
pub enum PermissionOptionKind {
    AllowOnce,
    AllowAlways,
    RejectOnce,
    RejectAlways,
    /// A kind that this version of the protocol does not know.
    Unknown,
}

/// A piece of message content.
#[derive(Debug)]
pub enum ContentBlock {
    Text(String),
    /// An image, a sound, a resource or a link to one.
    Other,
}

/// A tool call as it is first announced.
#[derive(Debug)]
pub struct ToolCall {
    pub tool_call_id: String,
    pub title: String,
    pub kind: ToolKind,
    pub status: ToolCallStatus,
    /// The text that the tool returned, where it is known.
    pub raw_output: Option<String>,
}

/// A change to a tool call. What is `None` stays as it is.
#[derive(Debug)]
pub struct ToolCallUpdate {
    pub tool_call_id: String,
    pub title: Option<String>,
    pub kind: Option<ToolKind>,
    pub status: Option<ToolCallStatus>,
}

/// A change to what is listed of a session. What is `None` stays as it is.
#[derive(Debug)]
pub struct SessionInfoUpdate {
    pub title: Option<String>,
    pub updated_at: Option<String>,
}

/// What an agent tells its client in the course of a session.
#[derive(Debug)]
pub enum SessionUpdate {
    UserMessageChunk(ContentBlock),
    AgentMessageChunk(ContentBlock),
    AgentThoughtChunk(ContentBlock),
    ToolCall(ToolCall),
    ToolCallUpdate(ToolCallUpdate),
    SessionInfoUpdate(SessionInfoUpdate),
    /// A plan, the available commands, a mode or an option.
    Other,
}

/// An update together with the session that it is about.
#[derive(Debug)]
pub struct SessionNotification {
    pub session_id: String,
    pub update: SessionUpdate,
}

/// One of the answers that a permission request offers.
#[derive(Debug)]
pub struct PermissionOption {
    pub option_id: String,
    pub name: String,
    pub kind: PermissionOptionKind,
}

/// The contents of a [`ContentBlock`].
pub enum ContentView {
    Text(Seq<char>),
    Other,
}

/// The contents of a [`ToolCall`].
pub struct ToolCallView {
    pub tool_call_id: Seq<char>,
    pub title: Seq<char>,
    pub kind: ToolKind,
    pub status: ToolCallStatus,
    pub raw_output: Option<Seq<char>>,
}

/// The contents of a [`ToolCallUpdate`].
pub struct ToolCallUpdateView {
    pub tool_call_id: Seq<char>,
    pub title: Option<Seq<char>>,
    pub kind: Option<ToolKind>,
    pub status: Option<ToolCallStatus>,
}

/// The contents of a [`SessionInfoUpdate`].
pub struct SessionInfoUpdateView {
    pub title: Option<Seq<char>>,
    pub updated_at: Option<Seq<char>>,
}

/// The contents of a [`SessionUpdate`].
pub enum UpdateView {
    UserMessageChunk(ContentView),
    AgentMessageChunk(ContentView),
    AgentThoughtChunk(ContentView),
    ToolCall(ToolCallView),
    ToolCallUpdate(ToolCallUpdateView),
    SessionInfoUpdate(SessionInfoUpdateView),
    Other,
}

/// The contents of a [`PermissionOption`].
pub struct PermissionOptionView {
    pub option_id: Seq<char>,
    pub name: Seq<char>,
    pub kind: PermissionOptionKind,
}

impl View for ContentBlock {
    type V = ContentView;

    open spec fn view(&self) -> ContentView {
        match self {
            ContentBlock::Text(text) => ContentView::Text(text@),
            ContentBlock::Other => ContentView::Other,
        }
    }
}

impl View for ToolCall {
    type V = ToolCallView;

    open spec fn view(&self) -> ToolCallView {
        ToolCallView {
            tool_call_id: self.tool_call_id@,
            title: self.title@,
            kind: self.kind,
            status: self.status,
            raw_output: text::opt_text(self.raw_output),
        }
    }
}

impl View for ToolCallUpdate {
    type V = ToolCallUpdateView;

    open spec fn view(&self) -> ToolCallUpdateView {
        ToolCallUpdateView {
            tool_call_id: self.tool_call_id@,
            title: text::opt_text(self.title),
            kind: self.kind,
            status: self.status,
        }
    }
}

impl View for SessionInfoUpdate {
    type V = SessionInfoUpdateView;

    open spec fn view(&self) -> SessionInfoUpdateView {
        SessionInfoUpdateView {
            title: text::opt_text(self.title),
            updated_at: text::opt_text(self.updated_at),
        }
    }
}

impl View for SessionUpdate {
    type V = UpdateView;

    open spec fn view(&self) -> UpdateView {
        match self {
            SessionUpdate::UserMessageChunk(c) => UpdateView::UserMessageChunk(c@),
            SessionUpdate::AgentMessageChunk(c) => UpdateView::AgentMessageChunk(c@),
            SessionUpdate::AgentThoughtChunk(c) => UpdateView::AgentThoughtChunk(c@),
            SessionUpdate::ToolCall(c) => UpdateView::ToolCall(c@),
            SessionUpdate::ToolCallUpdate(u) => UpdateView::ToolCallUpdate(u@),
            SessionUpdate::SessionInfoUpdate(u) => UpdateView::SessionInfoUpdate(u@),
            SessionUpdate::Other => UpdateView::Other,
        }
    }
}

impl View for PermissionOption {
    type V = PermissionOptionView;

    open spec fn view(&self) -> PermissionOptionView {
        PermissionOptionView { option_id: self.option_id@, name: self.name@, kind: self.kind }
    }
}

/// The contents of a list of updates.
pub open spec fn updates(list: Seq<SessionUpdate>) -> Seq<UpdateView> {
    list.map_values(|u: SessionUpdate| u@)
}

/// The contents of a list of content blocks.
pub open spec fn blocks(list: Seq<ContentBlock>) -> Seq<ContentView> {
    list.map_values(|b: ContentBlock| b@)
}

/// The contents of a list of permission options.
pub open spec fn options(list: Seq<PermissionOption>) -> Seq<PermissionOptionView> {
    list.map_values(|o: PermissionOption| o@)
}

/// The texts of the text blocks, in order.
pub open spec fn texts(list: Seq<ContentView>) -> Seq<Seq<char>>
    decreases list.len(),
{
    if list.len() == 0 {
        seq![]
    } else {
        match list.last() {
            ContentView::Text(text) => texts(list.drop_last()).push(text),
            ContentView::Other => texts(list.drop_last()),
        }
    }
}

/// The text of a prompt: its text blocks, each on a line of its own.
pub fn extract_text(prompt: &Vec<ContentBlock>) -> (r: String)
    ensures
        r@ == text::join(texts(blocks(prompt@)), "\n"@),
{
    let ghost all = blocks(prompt@);
    let mut pieces: Vec<&str> = Vec::new();
    let mut i: usize = 0;
    while i < prompt.len()
        invariant
            i <= prompt@.len(),
            all == blocks(prompt@),
            text::str_contents(pieces@) == texts(all.take(i as int)),
        decreases prompt@.len() - i,
    {
        assert(all.take(i + 1).drop_last() =~= all.take(i as int));
        if let ContentBlock::Text(text) = &prompt[i] {
            pieces.push(text.as_str());
            assert(text::str_contents(pieces@) =~= texts(all.take(i as int)).push(text@));
        }
        i = i + 1;
    }
    assert(all.take(i as int) =~= all);
    text::join_strs(&pieces, "\n")
}

/// The notification of an update to a session.
pub fn session_update(session_id: &str, update: SessionUpdate) -> (r: SessionNotification)
    ensures
        r.session_id@ == session_id@,
        r.update == update,
{
    SessionNotification { session_id: session_id.to_owned(), update }
}

/// How the agent introduces itself.
#[derive(Debug)]
pub struct AgentInfo {
    pub name: String,
    pub version: String,
    /// Whether stored sessions can be loaded.
    pub load_session: bool,
    /// Whether stored sessions can be listed.
    pub list_sessions: bool,
}

/// How the agent of a version introduces itself.
pub fn agent_info(version: &str) -> (r: AgentInfo)
    ensures
        r.name@ == "maki"@,
        r.version@ == version@,
        r.load_session,
        r.list_sessions,
{
    AgentInfo {
        name: "maki".to_owned(),
        version: version.to_owned(),
        load_session: true,
        list_sessions: true,
    }
}

/// A request that is refused, by the reason that the client is given.
#[derive(Clone, Copy, Debug, PartialEq, Eq, Structural)]
pub enum RequestError {
    /// The session was neither created nor loaded on this connection.
    UnknownSession,
    /// There is no mode of that id.
    UnknownModeId,
    /// The storage has no such session, or cannot read it.
    SessionNotFound,
    /// The agent does not offer the method.
    MethodNotSupported,
}

/// The words that a refusal is answered with.
pub open spec fn refusal(error: RequestError) -> Seq<char> {
    match error {
        RequestError::UnknownSession => "unknown session"@,
        RequestError::UnknownModeId => "unknown mode id"@,
        RequestError::SessionNotFound => "session not found"@,
        RequestError::MethodNotSupported => "method not supported"@,
    }
}

impl RequestError {
    /// The words that a refusal is answered with.
    pub fn message(&self) -> (r: &'static str)
        ensures
            r@ == refusal(*self),
    {
        match self {
            RequestError::UnknownSession => "unknown session",
            RequestError::UnknownModeId => "unknown mode id",
            RequestError::SessionNotFound => "session not found",
            RequestError::MethodNotSupported => "method not supported",
        }
    }
}

/// The text blocks of two prompts, one after the other, are those of the first and then those of
/// the second; a text block is its text, and any other block has none.
pub proof fn texts_are_those_of_the_text_blocks(
    first: Seq<ContentView>,
    rest: Seq<ContentView>,
    text: Seq<char>,
)
    ensures
        texts(first + rest) == texts(first) + texts(rest),
        texts(seq![ContentView::Text(text)]) == seq![text],
        texts(seq![ContentView::Other]).len() == 0,
        texts(Seq::<ContentView>::empty()).len() == 0,
    decreases rest.len(),
{
    assert(seq![ContentView::Text(text)].drop_last() =~= seq![]);
    assert(seq![ContentView::Other].drop_last() =~= seq![]);
    assert(texts(Seq::<ContentView>::empty()) =~= seq![]);
    assert(texts(seq![ContentView::Text(text)]) =~= seq![text]);
    if rest.len() == 0 {
        assert(first + rest =~= first);
    } else {
        texts_are_those_of_the_text_blocks(first, rest.drop_last(), text);
        assert((first + rest).drop_last() =~= first + rest.drop_last());
    }
    assert(texts(first + rest) =~= texts(first) + texts(rest));
}

/// The contents of a message are those of its parts.
pub proof fn contents_are_those_of_the_parts(
    block: ContentBlock,
    call: ToolCall,
    change: ToolCallUpdate,
    info: SessionInfoUpdate,
    option: PermissionOption,
)
    ensures
        block matches ContentBlock::Text(text) ==> block@ == ContentView::Text(text@),
        block is Other ==> block@ is Other,
        call@.tool_call_id == call.tool_call_id@,
        call@.title == call.title@,
        call@.kind == call.kind,
        call@.status == call.status,
        call@.raw_output is Some <==> call.raw_output is Some,
        call.raw_output matches Some(text) ==> call@.raw_output == Some(text@),
        change@.tool_call_id == change.tool_call_id@,
        change@.title is Some <==> change.title is Some,
        change.title matches Some(text) ==> change@.title == Some(text@),
        change@.kind == change.kind,
        change@.status == change.status,
        info@.title is Some <==> info.title is Some,
        info.title matches Some(text) ==> info@.title == Some(text@),
        info@.updated_at is Some <==> info.updated_at is Some,
        info.updated_at matches Some(text) ==> info@.updated_at == Some(text@),
        option@.option_id == option.option_id@,
        option@.name == option.name@,
        option@.kind == option.kind,
{
}

/// The contents of an update are those of what it tells, under the same heading, and those of a
/// list are those of its items one by one.
pub proof fn updates_are_told_as_they_are(
    update: SessionUpdate,
    list: Seq<SessionUpdate>,
    content: Seq<ContentBlock>,
    offer: Seq<PermissionOption>,
)
    ensures
        update matches SessionUpdate::UserMessageChunk(c) ==> update@
            == UpdateView::UserMessageChunk(c@),
        update matches SessionUpdate::AgentMessageChunk(c) ==> update@
            == UpdateView::AgentMessageChunk(c@),
        update matches SessionUpdate::AgentThoughtChunk(c) ==> update@
            == UpdateView::AgentThoughtChunk(c@),
        update matches SessionUpdate::ToolCall(c) ==> update@ == UpdateView::ToolCall(c@),
        update matches SessionUpdate::ToolCallUpdate(c) ==> update@ == UpdateView::ToolCallUpdate(
            c@,
        ),
        update matches SessionUpdate::SessionInfoUpdate(c) ==> update@
            == UpdateView::SessionInfoUpdate(c@),
        update is Other ==> update@ is Other,
        updates(list).len() == list.len(),
        forall|i: int| 0 <= i < list.len() ==> #[trigger] updates(list)[i] == list[i]@,
        blocks(content).len() == content.len(),
        forall|i: int| 0 <= i < content.len() ==> #[trigger] blocks(content)[i] == content[i]@,
        options(offer).len() == offer.len(),
        forall|i: int| 0 <= i < offer.len() ==> #[trigger] options(offer)[i] == offer[i]@,
{
}

/// Each refusal has its own words.
pub proof fn refusals_say_why(error: RequestError)
    ensures
        error is UnknownSession <==> refusal(error) == "unknown session"@,
        error is UnknownModeId <==> refusal(error) == "unknown mode id"@,
        error is SessionNotFound <==> refusal(error) == "session not found"@,
        error is MethodNotSupported <==> refusal(error) == "method not supported"@,
{
    reveal_strlit("unknown session");
    reveal_strlit("unknown mode id");
    reveal_strlit("session not found");
    reveal_strlit("method not supported");
    assert("unknown session"@[8] == 's' && "unknown mode id"@[8] == 'm');
    assert("session not found"@[0] == 's' && "method not supported"@[0] == 'm');
    assert("unknown session"@[0] == 'u' && "unknown mode id"@[0] == 'u');
}

} // verus!
