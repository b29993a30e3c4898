//! The client side of the integration harness: what it prints, counts and answers.
use vstd::prelude::*;
use vstd::string::*;

use crate::history;
use crate::prompt;
use crate::protocol;
use crate::protocol::{ContentBlock, PermissionOption, PermissionOptionKind, SessionUpdate};
use crate::protocol::{ContentView, PermissionOptionView, StopReason, ToolCallStatus, ToolKind};
use crate::protocol::UpdateView;
use crate::text;

verus! {

pub const RESET: &'static str = "\x1b[0m";

pub const BOLD: &'static str = "\x1b[1m";

pub const DIM: &'static str = "\x1b[2m";

pub const CYAN: &'static str = "\x1b[36m";

pub const GREEN: &'static str = "\x1b[32m";

pub const YELLOW: &'static str = "\x1b[33m";

pub const RED: &'static str = "\x1b[31m";

pub const MAGENTA: &'static str = "\x1b[35m";

pub const BLUE: &'static str = "\x1b[34m";

/// A label in brackets, in bold and in a colour.
pub open spec fn tagged(color: Seq<char>, label: Seq<char>) -> Seq<char> {
    BOLD@ + color + "["@ + label + "]"@ + RESET@
}

/// A label in brackets, in bold and in a colour.
pub fn tag(color: &str, label: &str) -> (r: String)
    ensures
        r@ == tagged(color@, label@),
{
    BOLD.to_owned().concat(color).concat("[").concat(label).concat("]").concat(RESET)
}

/// How the harness answers permission requests.
#[derive(Clone, Copy, Debug, PartialEq, Eq, Structural)]
pub enum PermissionStrategy {
    /// Respond with the first "allow once" option.
    Allow,
    /// Respond with "allow for session" if present, else allow once.
    AllowSession,
    /// Deny every permission request.
    Deny,
}

impl Default for PermissionStrategy {
    fn default() -> (r: Self)
        ensures
            r == PermissionStrategy::Allow,
    {
        PermissionStrategy::Allow
    }
}

/// The position of the first option of an id, or the number of options where there is none.
pub open spec fn first_exact(options: Seq<PermissionOptionView>, id: Seq<char>) -> nat
    decreases options.len(),
{
    if options.len() == 0 || options[0].option_id == id {
        0
    } else {
        1 + first_exact(options.drop_first(), id)
    }
}

/// The position of the first option whose id begins with a prefix, or the number of options where
/// there is none.
pub open spec fn first_prefixed(options: Seq<PermissionOptionView>, prefix: Seq<char>) -> nat
    decreases options.len(),
{
    if options.len() == 0 || prefix.is_prefix_of(options[0].option_id) {
        0
    } else {
        1 + first_prefixed(options.drop_first(), prefix)
    }
}

/// The position of the first option of a kind, or the number of options where there is none.
pub open spec fn first_of_kind(
    options: Seq<PermissionOptionView>,
    kind: PermissionOptionKind,
) -> nat
    decreases options.len(),
{
    if options.len() == 0 || options[0].kind == kind {
        0
    } else {
        1 + first_of_kind(options.drop_first(), kind)
    }
}

/// Whether picking an option of the offer `all` denies, and the id of the option begins with a
/// prefix.
pub open spec fn denies(
    option: PermissionOptionView,
    all: Seq<PermissionOptionView>,
    prefix: Seq<char>,
) -> bool {
    prefix.is_prefix_of(option.option_id) && !is_grant(option.option_id, all)
}

/// The position of the first of some options of the offer `all` that denies and whose id begins
/// with a prefix, or the number of these options where there is none.
pub open spec fn first_denial(
    options: Seq<PermissionOptionView>,
    all: Seq<PermissionOptionView>,
    prefix: Seq<char>,
) -> nat
    decreases options.len(),
{
    if options.len() == 0 || denies(options[0], all, prefix) {
        0
    } else {
        1 + first_denial(options.drop_first(), all, prefix)
    }
}

/// The id of an option that allows, where none does by its kind: the given one where it is on
/// offer, else the first whose id begins with `allow`, else the first of all, and `allow` where
/// nothing is on offer.
pub open spec fn allowing_by_id(options: Seq<PermissionOptionView>, id: Seq<char>) -> Seq<char> {
    let exact = first_exact(options, id) as int;
    let prefixed = first_prefixed(options, "allow"@) as int;
    if exact < options.len() {
        options[exact].option_id
    } else if prefixed < options.len() {
        options[prefixed].option_id
    } else if options.len() > 0 {
        options[0].option_id
    } else {
        "allow"@
    }
}

/// The id of the first option that allows once, or what the ids say where there is none.
pub open spec fn allowing_once(options: Seq<PermissionOptionView>, id: Seq<char>) -> Seq<char> {
    let once = first_of_kind(options, PermissionOptionKind::AllowOnce) as int;
    if once < options.len() {
        options[once].option_id
    } else {
        allowing_by_id(options, id)
    }
}

/// Whether an option for the session is on offer, by its id, and allows.
pub open spec fn offers_session(options: Seq<PermissionOptionView>) -> bool {
    first_exact(options, "allow_session"@) < options.len() && is_grant(
        "allow_session"@,
        options,
    )
}

/// The id of the option for the session where it is on offer and allows, else of the first option
/// that allows from now on, else of the first that allows once, else what the ids say.
pub open spec fn allowing_session(options: Seq<PermissionOptionView>) -> Seq<char> {
    let always = first_of_kind(options, PermissionOptionKind::AllowAlways) as int;
    if offers_session(options) {
        "allow_session"@
    } else if always < options.len() {
        options[always].option_id
    } else {
        allowing_once(options, "allow_session"@)
    }
}

/// The id of the option that denies, where no option does: the first whose id begins with `deny`,
/// else the last of all, and `deny` where nothing is on offer.
pub open spec fn denying_by_id(options: Seq<PermissionOptionView>) -> Seq<char> {
    let prefixed = first_prefixed(options, "deny"@) as int;
    if prefixed < options.len() {
        options[prefixed].option_id
    } else if options.len() > 0 {
        options.last().option_id
    } else {
        "deny"@
    }
}

/// The id of the option that denies: of those that deny, the first whose id begins with `deny`,
/// else the last of all options if it is among them, else the first of them. Where none denies,
/// what the ids say.
pub open spec fn denying(options: Seq<PermissionOptionView>) -> Seq<char> {
    let named = first_denial(options, options, "deny"@) as int;
    let any = first_denial(options, options, ""@) as int;
    if named < options.len() {
        options[named].option_id
    } else if options.len() > 0 && !is_grant(options.last().option_id, options) {
        options.last().option_id
    } else if any < options.len() {
        options[any].option_id
    } else {
        denying_by_id(options)
    }
}

/// The id of the option that a strategy picks.
pub open spec fn picked(options: Seq<PermissionOptionView>, strategy: PermissionStrategy) -> Seq<
    char,
> {
    match strategy {
        PermissionStrategy::Deny => denying(options),
        PermissionStrategy::AllowSession => allowing_session(options),
        PermissionStrategy::Allow => allowing_once(options, "allow"@),
    }
}

fn find_exact(options: &Vec<PermissionOption>, id: &str) -> (r: usize)
    ensures
        r == first_exact(protocol::options(options@), id@),
        r <= options@.len(),
{
    let ghost all = protocol::options(options@);
    let mut i: usize = 0;
    assert(all.skip(0) =~= all);
    while i < options.len()
        invariant
            i <= options@.len(),
            all == protocol::options(options@),
            first_exact(all, id@) == i + first_exact(all.skip(i as int), id@),
        decreases options@.len() - i,
    {
        assert(all.skip(i as int)[0] == options@[i as int]@);
        if text::str_eq(options[i].option_id.as_str(), id) {
            return i;
        }
        assert(all.skip(i as int).drop_first() =~= all.skip(i + 1));
        i = i + 1;
    }
    i
}

fn find_prefixed(options: &Vec<PermissionOption>, prefix: &str) -> (r: usize)
    ensures
        r == first_prefixed(protocol::options(options@), prefix@),
        r <= options@.len(),
{
    let ghost all = protocol::options(options@);
    let mut i: usize = 0;
    assert(all.skip(0) =~= all);
    while i < options.len()
        invariant
            i <= options@.len(),
            all == protocol::options(options@),
            first_prefixed(all, prefix@) == i + first_prefixed(all.skip(i as int), prefix@),
        decreases options@.len() - i,
    {
        assert(all.skip(i as int)[0] == options@[i as int]@);
        if text::starts_with(options[i].option_id.as_str(), prefix) {
            return i;
        }
        assert(all.skip(i as int).drop_first() =~= all.skip(i + 1));
        i = i + 1;
    }
    i
}

fn find_kind(options: &Vec<PermissionOption>, kind: PermissionOptionKind) -> (r: usize)
    ensures
        r == first_of_kind(protocol::options(options@), kind),
        r <= options@.len(),
{
    let ghost all = protocol::options(options@);
    let mut i: usize = 0;
    assert(all.skip(0) =~= all);
    while i < options.len()
        invariant
            i <= options@.len(),
            all == protocol::options(options@),
            first_of_kind(all, kind) == i + first_of_kind(all.skip(i as int), kind),
        decreases options@.len() - i,
    {
        assert(all.skip(i as int)[0] == options@[i as int]@);
        if options[i].kind == kind {
            return i;
        }
        assert(all.skip(i as int).drop_first() =~= all.skip(i + 1));
        i = i + 1;
    }
    i
}

fn find_denial(options: &Vec<PermissionOption>, prefix: &str) -> (r: usize)
    ensures
        r == first_denial(
            protocol::options(options@),
            protocol::options(options@),
            prefix@,
        ),
        r <= options@.len(),
{
    let ghost all = protocol::options(options@);
    let mut i: usize = 0;
    assert(all.skip(0) =~= all);
    while i < options.len()
        invariant
            i <= options@.len(),
            all == protocol::options(options@),
            first_denial(all, all, prefix@) == i + first_denial(all.skip(i as int), all, prefix@),
        decreases options@.len() - i,
    {
        let id = options[i].option_id.as_str();
        assert(all.skip(i as int)[0] == options@[i as int]@);
        if text::starts_with(id, prefix) && !is_grant_option(id, options) {
            return i;
        }
        assert(all.skip(i as int).drop_first() =~= all.skip(i + 1));
        i = i + 1;
    }
    i
}

fn pick_allowing_by_id(options: &Vec<PermissionOption>, id: &str) -> (r: String)
    ensures
        r@ == allowing_by_id(protocol::options(options@), id@),
{
    let exact = find_exact(options, id);
    if exact < options.len() {
        return options[exact].option_id.clone();
    }
    let prefixed = find_prefixed(options, "allow");
    if prefixed < options.len() {
        return options[prefixed].option_id.clone();
    }
    if options.len() > 0 {
        options[0].option_id.clone()
    } else {
        "allow".to_owned()
    }
}

fn pick_allowing_once(options: &Vec<PermissionOption>, id: &str) -> (r: String)
    ensures
        r@ == allowing_once(protocol::options(options@), id@),
{
    let once = find_kind(options, PermissionOptionKind::AllowOnce);
    if once < options.len() {
        options[once].option_id.clone()
    } else {
        pick_allowing_by_id(options, id)
    }
}

fn pick_denying(options: &Vec<PermissionOption>) -> (r: String)
    ensures
        r@ == denying(protocol::options(options@)),
{
    let named = find_denial(options, "deny");
    if named < options.len() {
        return options[named].option_id.clone();
    }
    if options.len() > 0 {
        let last = options[options.len() - 1].option_id.as_str();
        if !is_grant_option(last, options) {
            return last.to_owned();
        }
    }
    let any = find_denial(options, "");
    if any < options.len() {
        return options[any].option_id.clone();
    }
    let prefixed = find_prefixed(options, "deny");
    if prefixed < options.len() {
        options[prefixed].option_id.clone()
    } else if options.len() > 0 {
        options[options.len() - 1].option_id.clone()
    } else {
        "deny".to_owned()
    }
}

/// The id of the option that a strategy picks.
pub fn pick_option(options: &Vec<PermissionOption>, strategy: PermissionStrategy) -> (r: String)
    ensures
        r@ == picked(protocol::options(options@), strategy),
{
    match strategy {
        PermissionStrategy::Deny => pick_denying(options),
        PermissionStrategy::AllowSession => {
            if find_exact(options, "allow_session") < options.len() && is_grant_option(
                "allow_session",
                options,
            ) {
                return "allow_session".to_owned();
            }
            let always = find_kind(options, PermissionOptionKind::AllowAlways);
            if always < options.len() {
                options[always].option_id.clone()
            } else {
                pick_allowing_once(options, "allow_session")
            }
        },
        PermissionStrategy::Allow => pick_allowing_once(options, "allow"),
    }
}

/// Whether picking an id grants permission: by the kind of the option of that id, and by the id
/// itself where no option has it.
pub open spec fn is_grant(option_id: Seq<char>, options: Seq<PermissionOptionView>) -> bool {
    let at = first_exact(options, option_id) as int;
    if at < options.len() {
        options[at].kind == PermissionOptionKind::AllowOnce || options[at].kind
            == PermissionOptionKind::AllowAlways
    } else {
        prompt::grants(option_id)
    }
}

/// Whether picking an id grants permission.
pub fn is_grant_option(option_id: &str, options: &Vec<PermissionOption>) -> (r: bool)
    ensures
        r == is_grant(option_id@, protocol::options(options@)),
{
    let at = find_exact(options, option_id);
    if at < options.len() {
        match options[at].kind {
            PermissionOptionKind::AllowOnce => true,
            PermissionOptionKind::AllowAlways => true,
            _ => false,
        }
    } else {
        prompt::is_permission_grant(option_id)
    }
}

/// The name of a stop reason.
pub open spec fn stop_name(stop: StopReason) -> Seq<char> {
    match stop {
        StopReason::EndTurn => "EndTurn"@,
        StopReason::MaxTokens => "MaxTokens"@,
        StopReason::MaxTurnRequests => "MaxTurnRequests"@,
        StopReason::Refusal => "Refusal"@,
        StopReason::Cancelled => "Cancelled"@,
        StopReason::Unknown => "Unknown"@,
    }
}

/// The name of a stop reason.
pub fn name_of_stop(stop: StopReason) -> (r: &'static str)
    ensures
        r@ == stop_name(stop),
{
    match stop {
        StopReason::EndTurn => "EndTurn",
        StopReason::MaxTokens => "MaxTokens",
        StopReason::MaxTurnRequests => "MaxTurnRequests",
        StopReason::Refusal => "Refusal",
        StopReason::Cancelled => "Cancelled",
        StopReason::Unknown => "Unknown",
    }
}

/// Whether a turn may end for a reason.
pub open spec fn acceptable(stop: StopReason) -> bool {
    stop == StopReason::EndTurn || stop == StopReason::MaxTokens || stop == StopReason::Cancelled
}

/// Checks that a turn ended for a reason that it may end for, and otherwise says for which one it
/// did.
pub fn check_stop_reason(stop: StopReason) -> (r: Result<(), String>)
    ensures
        match r {
            Ok(()) => acceptable(stop),
            Err(message) => !acceptable(stop) && message@ == "unexpected stop reason: "@
                + stop_name(stop),
        },
{
    match stop {
        StopReason::EndTurn => Ok(()),
        StopReason::MaxTokens => Ok(()),
        StopReason::Cancelled => Ok(()),
        _ => Err("unexpected stop reason: ".to_owned().concat(name_of_stop(stop))),
    }
}

/// The text that the `Debug` format of a string gives: in quotes, with what cannot be shown
/// escaped.
pub uninterp spec fn debug_text(s: Seq<char>) -> Seq<char>;

/// The `Debug` format of `str`. Its text depends on the characters alone; which of them are
/// escaped, and how, is not stated.
#[verifier::external_body]
fn debug_str(s: &str) -> (r: String)
    ensures
        r@ == debug_text(s@),
{
    format!("{:?}", s)
}

/// The name of a tool kind.
pub open spec fn kind_name(kind: ToolKind) -> Seq<char> {
    match kind {
        ToolKind::Read => "Read"@,
        ToolKind::Edit => "Edit"@,
        ToolKind::Delete => "Delete"@,
        ToolKind::Move => "Move"@,
        ToolKind::Search => "Search"@,
        ToolKind::Execute => "Execute"@,
        ToolKind::Think => "Think"@,
        ToolKind::Fetch => "Fetch"@,
        ToolKind::SwitchMode => "SwitchMode"@,
        ToolKind::Other => "Other"@,
    }
}

fn name_of_kind(kind: ToolKind) -> (r: &'static str)
    ensures
        r@ == kind_name(kind),
{
    match kind {
        ToolKind::Read => "Read",
        ToolKind::Edit => "Edit",
        ToolKind::Delete => "Delete",
        ToolKind::Move => "Move",
        ToolKind::Search => "Search",
        ToolKind::Execute => "Execute",
        ToolKind::Think => "Think",
        ToolKind::Fetch => "Fetch",
        ToolKind::SwitchMode => "SwitchMode",
        ToolKind::Other => "Other",
    }
}

/// The name of a tool call status.
pub open spec fn status_name(status: ToolCallStatus) -> Seq<char> {
    match status {
        ToolCallStatus::Pending => "Pending"@,
        ToolCallStatus::InProgress => "InProgress"@,
        ToolCallStatus::Completed => "Completed"@,
        ToolCallStatus::Failed => "Failed"@,
        ToolCallStatus::Unknown => "Unknown"@,
    }
}

fn name_of_status(status: ToolCallStatus) -> (r: &'static str)
    ensures
        r@ == status_name(status),
{
    match status {
        ToolCallStatus::Pending => "Pending",
        ToolCallStatus::InProgress => "InProgress",
        ToolCallStatus::Completed => "Completed",
        ToolCallStatus::Failed => "Failed",
        ToolCallStatus::Unknown => "Unknown",
    }
}

/// A mark in a colour.
pub open spec fn colored(color: Seq<char>, mark: Seq<char>) -> Seq<char> {
    color + mark + RESET@
}

/// The mark of a status that a tool call changes to.
pub open spec fn change_mark(status: ToolCallStatus) -> Seq<char> {
    match status {
        ToolCallStatus::Completed => colored(GREEN@, "✓"@),
        ToolCallStatus::Failed => colored(RED@, "✗"@),
        ToolCallStatus::InProgress => colored(YELLOW@, "▶"@),
        ToolCallStatus::Pending => colored(DIM@, "…"@),
        ToolCallStatus::Unknown => "?"@,
    }
}

fn mark_of_change(status: ToolCallStatus) -> (r: String)
    ensures
        r@ == change_mark(status),
{
    match status {
        ToolCallStatus::Completed => GREEN.to_owned().concat("✓").concat(RESET),
        ToolCallStatus::Failed => RED.to_owned().concat("✗").concat(RESET),
        ToolCallStatus::InProgress => YELLOW.to_owned().concat("▶").concat(RESET),
        ToolCallStatus::Pending => DIM.to_owned().concat("…").concat(RESET),
        ToolCallStatus::Unknown => "?".to_owned(),
    }
}

/// The mark of the status that a tool call is left in.
pub open spec fn summary_mark(status: ToolCallStatus) -> Seq<char> {
    match status {
        ToolCallStatus::Completed => colored(GREEN@, "✓"@),
        ToolCallStatus::Failed => colored(RED@, "✗"@),
        ToolCallStatus::InProgress => colored(YELLOW@, "▶"@),
        _ => colored(DIM@, "…"@),
    }
}

fn mark_in_summary(status: ToolCallStatus) -> (r: String)
    ensures
        r@ == summary_mark(status),
{
    match status {
        ToolCallStatus::Completed => GREEN.to_owned().concat("✓").concat(RESET),
        ToolCallStatus::Failed => RED.to_owned().concat("✗").concat(RESET),
        ToolCallStatus::InProgress => YELLOW.to_owned().concat("▶").concat(RESET),
        _ => DIM.to_owned().concat("…").concat(RESET),
    }
}

/// What the harness knows of a tool call.
#[derive(Debug)]
pub struct ToolEntry {
    pub title: String,
    pub kind: String,
    pub status: ToolCallStatus,
}

/// The contents of a [`ToolEntry`].
pub struct ToolEntryView {
    pub title: Seq<char>,
    pub kind: Seq<char>,
    pub status: ToolCallStatus,
}

impl View for ToolEntry {
    type V = ToolEntryView;

    open spec fn view(&self) -> ToolEntryView {
        ToolEntryView { title: self.title@, kind: self.kind@, status: self.status }
    }
}

/// What the harness has seen of a session.
#[derive(Debug)]
pub struct HarnessState {
    pub text_buf: String,
    pub thinking_buf: String,
    /// The tool calls by id, in the order in which they were first announced.
    pub tool_calls: Vec<(String, ToolEntry)>,
    pub permissions_asked: u32,
    pub permissions_granted: u32,
    pub permissions_denied: u32,
    pub replay_updates: u32,
    /// The updates of any kind since the last session was about to be loaded. The count stops at
    /// the largest number.
    pub load_updates: u32,
}

/// The contents of a [`HarnessState`].
pub struct HarnessView {
    pub text: Seq<char>,
    pub thinking: Seq<char>,
    pub tools: Seq<(Seq<char>, ToolEntryView)>,
    pub asked: nat,
    pub granted: nat,
    pub denied: nat,
    pub replayed: nat,
    pub arrived: nat,
}

/// The contents of a list of tool calls.
pub open spec fn tool_views(list: Seq<(String, ToolEntry)>) -> Seq<(Seq<char>, ToolEntryView)> {
    list.map_values(|e: (String, ToolEntry)| (e.0@, e.1@))
}

impl View for HarnessState {
    type V = HarnessView;

    open spec fn view(&self) -> HarnessView {
        HarnessView {
            text: self.text_buf@,
            thinking: self.thinking_buf@,
            tools: tool_views(self.tool_calls@),
            asked: self.permissions_asked as nat,
            granted: self.permissions_granted as nat,
            denied: self.permissions_denied as nat,
            replayed: self.replay_updates as nat,
            arrived: self.load_updates as nat,
        }
    }
}

/// The state before anything has been seen.
pub open spec fn nothing_seen() -> HarnessView {
    HarnessView {
        text: seq![],
        thinking: seq![],
        tools: seq![],
        asked: 0,
        granted: 0,
        denied: 0,
        replayed: 0,
        arrived: 0,
    }
}

impl Default for HarnessState {
    fn default() -> (r: Self)
        ensures
            r@ == nothing_seen(),
    {
        let r = HarnessState {
            text_buf: String::new(),
            thinking_buf: String::new(),
            tool_calls: Vec::new(),
            permissions_asked: 0,
            permissions_granted: 0,
            permissions_denied: 0,
            replay_updates: 0,
            load_updates: 0,
        };
        assert(r@.tools =~= seq![]);
        r
    }
}

/// The position of a tool call, or the number of tool calls where it is not known.
pub open spec fn tool_index(tools: Seq<(Seq<char>, ToolEntryView)>, id: Seq<char>) -> nat
    decreases tools.len(),
{
    if tools.len() == 0 || tools[0].0 == id {
        0
    } else {
        1 + tool_index(tools.drop_first(), id)
    }
}

/// The tool calls with one more, or with another entry for one that is known.
pub open spec fn with_tool(
    tools: Seq<(Seq<char>, ToolEntryView)>,
    id: Seq<char>,
    entry: ToolEntryView,
) -> Seq<(Seq<char>, ToolEntryView)> {
    let at = tool_index(tools, id) as int;
    if at < tools.len() {
        tools.update(at, (id, entry))
    } else {
        tools.push((id, entry))
    }
}

/// Whether an update is counted as one of a replay: a tool call, a change to a tool call that is
/// not known, or something that the harness does not look into.
pub open spec fn counts_as_replay(state: HarnessView, update: UpdateView) -> bool {
    match update {
        UpdateView::ToolCall(_) => true,
        UpdateView::ToolCallUpdate(u) => tool_index(state.tools, u.tool_call_id)
            == state.tools.len(),
        UpdateView::Other => true,
        _ => false,
    }
}

/// One more, up to the largest 32-bit number.
pub open spec fn one_more(n: nat) -> nat {
    if n < u32::MAX {
        n + 1
    } else {
        n
    }
}

/// The state after an update.
pub open spec fn after_update(state: HarnessView, update: UpdateView) -> HarnessView {
    let counted = HarnessView {
        replayed: if counts_as_replay(state, update) {
            state.replayed + 1
        } else {
            state.replayed
        },
        arrived: one_more(state.arrived),
        ..state
    };
    match update {
        UpdateView::AgentMessageChunk(ContentView::Text(text)) => HarnessView {
            text: state.text + text,
            ..counted
        },
        UpdateView::AgentThoughtChunk(ContentView::Text(text)) => HarnessView {
            thinking: state.thinking + text,
            ..counted
        },
        UpdateView::ToolCall(call) => HarnessView {
            tools: with_tool(
                state.tools,
                call.tool_call_id,
                ToolEntryView {
                    title: call.title,
                    kind: kind_name(call.kind),
                    status: call.status,
                },
            ),
            ..counted
        },
        UpdateView::ToolCallUpdate(u) => {
            let at = tool_index(state.tools, u.tool_call_id) as int;
            match u.status {
                Some(status) if at < state.tools.len() => HarnessView {
                    tools: state.tools.update(
                        at,
                        (u.tool_call_id, ToolEntryView { status, ..state.tools[at].1 }),
                    ),
                    ..counted
                },
                _ => counted,
            }
        },
        _ => counted,
    }
}

/// The line about a tool call that is announced.
pub open spec fn call_line(title: Seq<char>, kind: Seq<char>, id: Seq<char>) -> Seq<char> {
    "\n"@ + tagged(YELLOW@, "TOOL"@) + " "@ + BOLD@ + title + RESET@ + " ("@ + kind + ") ["@ + id
        + "]\n"@
}

/// The line about a tool call that changes its status.
pub open spec fn change_line(entry: ToolEntryView, status: ToolCallStatus) -> Seq<char> {
    tagged(YELLOW@, "TOOL"@) + " "@ + BOLD@ + entry.title + RESET@ + " "@ + change_mark(status)
        + " "@ + status_name(entry.status) + "→"@ + status_name(status) + "\n"@
}

/// The line about a new title, given its quoted form.
pub open spec fn title_line(quoted: Seq<char>) -> Seq<char> {
    "\n"@ + tagged(CYAN@, "INFO"@) + " title="@ + quoted + "\n"@
}

/// What the harness prints about an update.
pub open spec fn printed(state: HarnessView, update: UpdateView) -> Seq<char> {
    match update {
        UpdateView::UserMessageChunk(ContentView::Text(text)) => colored(DIM@, text),
        UpdateView::AgentMessageChunk(ContentView::Text(text)) => text,
        UpdateView::AgentThoughtChunk(ContentView::Text(text)) => colored(DIM@, text),
        UpdateView::ToolCall(call) => call_line(
            call.title,
            kind_name(call.kind),
            call.tool_call_id,
        ),
        UpdateView::ToolCallUpdate(u) => {
            let at = tool_index(state.tools, u.tool_call_id) as int;
            match u.status {
                Some(status) if at < state.tools.len() => change_line(state.tools[at].1, status),
                _ => seq![],
            }
        },
        UpdateView::SessionInfoUpdate(info) => match info.title {
            Some(title) => title_line(debug_text(title)),
            None => seq![],
        },
        _ => seq![],
    }
}

fn find_tool(tools: &Vec<(String, ToolEntry)>, id: &str) -> (r: usize)
    ensures
        r == tool_index(tool_views(tools@), id@),
        r <= tools@.len(),
        r < tools@.len() ==> tools@[r as int].0@ == id@,
{
    let ghost all = tool_views(tools@);
    let mut i: usize = 0;
    assert(all.skip(0) =~= all);
    while i < tools.len()
        invariant
            i <= tools@.len(),
            all == tool_views(tools@),
            tool_index(all, id@) == i + tool_index(all.skip(i as int), id@),
        decreases tools@.len() - i,
    {
        assert(all.skip(i as int)[0] == (tools@[i as int].0@, tools@[i as int].1@));
        if text::str_eq(tools[i].0.as_str(), id) {
            return i;
        }
        assert(all.skip(i as int).drop_first() =~= all.skip(i + 1));
        i = i + 1;
    }
    i
}

fn write_call_line(title: &str, kind: &str, id: &str) -> (r: String)
    ensures
        r@ == call_line(title@, kind@, id@),
{
    "\n".to_owned().concat(tag(YELLOW, "TOOL").as_str()).concat(" ").concat(BOLD).concat(
        title,
    ).concat(RESET).concat(" (").concat(kind).concat(") [").concat(id).concat("]\n")
}

fn write_change_line(entry: &ToolEntry, status: ToolCallStatus) -> (r: String)
    ensures
        r@ == change_line(entry@, status),
{
    tag(YELLOW, "TOOL").concat(" ").concat(BOLD).concat(entry.title.as_str()).concat(RESET).concat(
        " ",
    ).concat(mark_of_change(status).as_str()).concat(" ").concat(
        name_of_status(entry.status),
    ).concat("→").concat(name_of_status(status)).concat("\n")
}

/// The line about a new title, given its quoted form.
pub fn write_title_line(quoted: &str) -> (r: String)
    ensures
        r@ == title_line(quoted@),
{
    "\n".to_owned().concat(tag(CYAN, "INFO").as_str()).concat(" title=").concat(quoted).concat("\n")
}

/// Takes in an update and returns what is to be printed about it.
pub fn handle_session_update(update: &SessionUpdate, s: &mut HarnessState) -> (r: String)
    requires
        counts_as_replay(old(s)@, update@) ==> old(s).replay_updates < u32::MAX,
    ensures
        final(s)@ == after_update(old(s)@, update@),
        r@ == printed(old(s)@, update@),
{
    if s.load_updates < u32::MAX {
        s.load_updates = s.load_updates + 1;
    }
    let ghost before = s@;
    match update {
        SessionUpdate::UserMessageChunk(ContentBlock::Text(text)) => {
            DIM.to_owned().concat(text.as_str()).concat(RESET)
        },
        SessionUpdate::AgentMessageChunk(ContentBlock::Text(text)) => {
            s.text_buf.append(text.as_str());
            text.clone()
        },
        SessionUpdate::AgentThoughtChunk(ContentBlock::Text(text)) => {
            s.thinking_buf.append(text.as_str());
            DIM.to_owned().concat(text.as_str()).concat(RESET)
        },
        SessionUpdate::ToolCall(call) => {
            let kind = name_of_kind(call.kind);
            let entry = ToolEntry {
                title: call.title.clone(),
                kind: kind.to_owned(),
                status: call.status,
            };
            let ghost entry_view = entry@;
            let at = find_tool(&s.tool_calls, call.tool_call_id.as_str());
            if at < s.tool_calls.len() {
                s.tool_calls.set(at, (call.tool_call_id.clone(), entry));
            } else {
                s.tool_calls.push((call.tool_call_id.clone(), entry));
            }
            s.replay_updates = s.replay_updates + 1;
            assert(s@.tools =~= with_tool(before.tools, call.tool_call_id@, entry_view));
            write_call_line(call.title.as_str(), kind, call.tool_call_id.as_str())
        },
        SessionUpdate::ToolCallUpdate(u) => {
            let at = find_tool(&s.tool_calls, u.tool_call_id.as_str());
            if at < s.tool_calls.len() {
                match u.status {
                    Some(status) => {
                        let line = write_change_line(&s.tool_calls[at].1, status);
                        let entry = ToolEntry {
                            title: s.tool_calls[at].1.title.clone(),
                            kind: s.tool_calls[at].1.kind.clone(),
                            status,
                        };
                        let ghost entry_view = entry@;
                        s.tool_calls.set(at, (u.tool_call_id.clone(), entry));
                        assert(s@.tools =~= before.tools.update(
                            at as int,
                            (u.tool_call_id@, entry_view),
                        ));
                        line
                    },
                    None => String::new(),
                }
            } else {
                s.replay_updates = s.replay_updates + 1;
                String::new()
            }
        },
        SessionUpdate::SessionInfoUpdate(info) => {
            match &info.title {
                Some(title) => write_title_line(debug_str(title.as_str()).as_str()),
                None => String::new(),
            }
        },
        SessionUpdate::Other => {
            s.replay_updates = s.replay_updates + 1;
            String::new()
        },
        _ => String::new(),
    }
}

/// The state when a session is about to be loaded.
pub open spec fn load_begun(state: HarnessView) -> HarnessView {
    HarnessView { arrived: 0, ..state }
}

/// Begins to count the updates that arrive for a session that is about to be loaded.
pub fn begin_load(s: &mut HarnessState)
    ensures
        final(s)@ == load_begun(old(s)@),
{
    s.load_updates = 0;
}

/// A request for permission, as it reaches the client.
#[derive(Debug)]
pub struct PermissionRequest {
    /// The title of the tool call, where the request gives one.
    pub tool_title: Option<String>,
    pub options: Vec<PermissionOption>,
}

/// The answer to a permission request, and what is to be printed about it.
#[derive(Debug)]
pub struct PermissionVerdict {
    pub option_id: String,
    pub line: String,
}

/// The name of the option of an id, or the id itself where no option has it.
pub open spec fn label_of(option_id: Seq<char>, options: Seq<PermissionOptionView>) -> Seq<char> {
    let at = first_exact(options, option_id) as int;
    if at < options.len() {
        options[at].name
    } else {
        option_id
    }
}

/// The line about a permission request.
pub open spec fn verdict_line(
    title: Option<Seq<char>>,
    option_id: Seq<char>,
    options: Seq<PermissionOptionView>,
) -> Seq<char> {
    let shown = match title {
        Some(t) => t,
        None => "(tool)"@,
    };
    let head = tagged(YELLOW@, "PERM"@) + " "@ + BOLD@ + shown + RESET@ + " → "@;
    let label = label_of(option_id, options);
    if is_grant(option_id, options) {
        head + GREEN@ + label + " ("@ + option_id + ")"@ + RESET@ + "\n"@
    } else {
        head + RED@ + "DENIED"@ + RESET@ + " ("@ + label + ")\n"@
    }
}

/// The state after a permission request that was or was not granted.
pub open spec fn after_permission(state: HarnessView, granted: bool) -> HarnessView {
    if granted {
        HarnessView { asked: state.asked + 1, granted: state.granted + 1, ..state }
    } else {
        HarnessView { asked: state.asked + 1, denied: state.denied + 1, ..state }
    }
}

/// Answers a permission request as the strategy says.
pub fn handle_permission_request(
    request: &PermissionRequest,
    strategy: PermissionStrategy,
    s: &mut HarnessState,
) -> (r: PermissionVerdict)
    requires
        old(s).permissions_asked < u32::MAX,
        is_grant(
            picked(protocol::options(request.options@), strategy),
            protocol::options(request.options@),
        ) ==> old(s).permissions_granted < u32::MAX,
        !is_grant(
            picked(protocol::options(request.options@), strategy),
            protocol::options(request.options@),
        ) ==> old(s).permissions_denied < u32::MAX,
    ensures
        r.option_id@ == picked(protocol::options(request.options@), strategy),
        final(s)@ == after_permission(
            old(s)@,
            is_grant(r.option_id@, protocol::options(request.options@)),
        ),
        r.line@ == verdict_line(
            text::opt_text(request.tool_title),
            r.option_id@,
            protocol::options(request.options@),
        ),
{
    s.permissions_asked = s.permissions_asked + 1;
    let option_id = pick_option(&request.options, strategy);
    let at = find_exact(&request.options, option_id.as_str());
    let label = if at < request.options.len() {
        request.options[at].name.as_str()
    } else {
        option_id.as_str()
    };
    let title = match &request.tool_title {
        Some(t) => t.as_str(),
        None => "(tool)",
    };
    let head = tag(YELLOW, "PERM").concat(" ").concat(BOLD).concat(title).concat(RESET).concat(
        " → ",
    );
    let line = if is_grant_option(option_id.as_str(), &request.options) {
        s.permissions_granted = s.permissions_granted + 1;
        head.concat(GREEN).concat(label).concat(" (").concat(option_id.as_str()).concat(")").concat(
            RESET,
        ).concat("\n")
    } else {
        s.permissions_denied = s.permissions_denied + 1;
        head.concat(RED).concat("DENIED").concat(RESET).concat(" (").concat(label).concat(")\n")
    };
    PermissionVerdict { option_id, line }
}

/// The number of tool calls of a status.
pub open spec fn count_of(tools: Seq<(Seq<char>, ToolEntryView)>, status: ToolCallStatus) -> nat
    decreases tools.len(),
{
    if tools.len() == 0 {
        0
    } else if tools.last().1.status == status {
        count_of(tools.drop_last(), status) + 1
    } else {
        count_of(tools.drop_last(), status)
    }
}

/// The length of a text in bytes, in decimal.
pub open spec fn byte_count(s: Seq<char>) -> Seq<char> {
    text::decimal(vstd::utf8::encode_utf8(s).len() as usize as nat)
}

/// The line of the summary about a tool call.
pub open spec fn tool_line(id: Seq<char>, entry: ToolEntryView) -> Seq<char> {
    "    "@ + summary_mark(entry.status) + " "@ + entry.title + " "@ + DIM@ + "("@ + entry.kind
        + ") ["@ + id + "]"@ + RESET@ + "\n"@
}

/// The lines of the summary about the tool calls.
pub open spec fn tool_lines(tools: Seq<(Seq<char>, ToolEntryView)>) -> Seq<char>
    decreases tools.len(),
{
    if tools.len() == 0 {
        seq![]
    } else {
        tool_lines(tools.drop_last()) + tool_line(tools.last().0, tools.last().1)
    }
}

/// The summary of what the harness has seen.
pub open spec fn summary(state: HarnessView) -> Seq<char> {
    DIM@ + "─ summary ─────────────────────────────────────"@ + RESET@ + "\n"@
        + "  text chars  : "@ + byte_count(state.text) + "\n"@ + "  think chars : "@ + byte_count(
        state.thinking,
    ) + "\n"@ + "  tool calls  : "@ + text::decimal(state.tools.len()) + " total  "@
        + text::decimal(count_of(state.tools, ToolCallStatus::Completed)) + " completed  "@
        + text::decimal(count_of(state.tools, ToolCallStatus::Failed)) + " failed\n"@ + tool_lines(
        state.tools,
    ) + "  permissions : "@ + text::decimal(state.asked) + " asked  "@ + text::decimal(
        state.granted,
    ) + " granted  "@ + text::decimal(state.denied) + " denied\n"@ + DIM@
        + "────────────────────────────────────────────────"@ + RESET@ + "\n"@
}

fn count_status(tools: &Vec<(String, ToolEntry)>, status: ToolCallStatus) -> (r: u64)
    ensures
        r == count_of(tool_views(tools@), status),
{
    let ghost all = tool_views(tools@);
    let mut count: u64 = 0;
    let mut i: usize = 0;
    while i < tools.len()
        invariant
            i <= tools@.len(),
            all == tool_views(tools@),
            count == count_of(all.take(i as int), status),
            count <= i,
        decreases tools@.len() - i,
    {
        assert(all.take(i + 1).drop_last() =~= all.take(i as int));
        if tools[i].1.status == status {
            count = count + 1;
        }
        i = i + 1;
    }
    assert(all.take(i as int) =~= all);
    count
}

fn write_tool_line(id: &str, entry: &ToolEntry) -> (r: String)
    ensures
        r@ == tool_line(id@, entry@),
{
    "    ".to_owned().concat(mark_in_summary(entry.status).as_str()).concat(" ").concat(
        entry.title.as_str(),
    ).concat(" ").concat(DIM).concat("(").concat(entry.kind.as_str()).concat(") [").concat(
        id,
    ).concat("]").concat(RESET).concat("\n")
}

fn write_tool_lines(tools: &Vec<(String, ToolEntry)>) -> (r: String)
    ensures
        r@ == tool_lines(tool_views(tools@)),
{
    let ghost all = tool_views(tools@);
    let mut out = String::new();
    let mut i: usize = 0;
    while i < tools.len()
        invariant
            i <= tools@.len(),
            all == tool_views(tools@),
            out@ == tool_lines(all.take(i as int)),
        decreases tools@.len() - i,
    {
        assert(all.take(i + 1).drop_last() =~= all.take(i as int));
        out.append(write_tool_line(tools[i].0.as_str(), &tools[i].1).as_str());
        i = i + 1;
    }
    assert(all.take(i as int) =~= all);
    out
}

/// The summary of what the harness has seen.
pub fn print_summary(s: &HarnessState) -> (r: String)
    ensures
        r@ == summary(s@),
{
    DIM.to_owned().concat("─ summary ─────────────────────────────────────").concat(
        RESET,
    ).concat("\n").concat("  text chars  : ").concat(
        text::decimal_string(s.text_buf.as_str().len() as u64).as_str(),
    ).concat("\n").concat("  think chars : ").concat(
        text::decimal_string(s.thinking_buf.as_str().len() as u64).as_str(),
    ).concat("\n").concat("  tool calls  : ").concat(
        text::decimal_string(s.tool_calls.len() as u64).as_str(),
    ).concat(" total  ").concat(
        text::decimal_string(count_status(&s.tool_calls, ToolCallStatus::Completed)).as_str(),
    ).concat(" completed  ").concat(
        text::decimal_string(count_status(&s.tool_calls, ToolCallStatus::Failed)).as_str(),
    ).concat(" failed\n").concat(write_tool_lines(&s.tool_calls).as_str()).concat(
        "  permissions : ",
    ).concat(text::decimal_string(s.permissions_asked as u64).as_str()).concat(" asked  ").concat(
        text::decimal_string(s.permissions_granted as u64).as_str(),
    ).concat(" granted  ").concat(
        text::decimal_string(s.permissions_denied as u64).as_str(),
    ).concat(" denied\n").concat(DIM).concat(
        "────────────────────────────────────────────────",
    ).concat(RESET).concat("\n")
}

/// Whether every permission request was either granted or denied.
pub open spec fn balanced(state: HarnessView) -> bool {
    state.asked == state.granted + state.denied
}

/// Nothing that the harness takes in makes it lose count: as many permission requests are granted
/// or denied as were asked.
pub proof fn every_request_is_granted_or_denied(
    state: HarnessView,
    granted: bool,
    update: UpdateView,
)
    requires
        balanced(state),
    ensures
        balanced(nothing_seen()),
        balanced(after_permission(state, granted)),
        balanced(after_update(state, update)),
{
}

/// Whether no id occurs twice among some tool calls.
pub open spec fn distinct_tools(tools: Seq<(Seq<char>, ToolEntryView)>) -> bool {
    forall|i: int, j: int|
        #![trigger tools[i], tools[j]]
        0 <= i < j < tools.len() ==> tools[i].0 != tools[j].0
}

proof fn lemma_tool_index(tools: Seq<(Seq<char>, ToolEntryView)>, id: Seq<char>)
    ensures
        tool_index(tools, id) <= tools.len(),
        tool_index(tools, id) < tools.len() ==> tools[tool_index(tools, id) as int].0 == id,
        forall|i: int| 0 <= i < tool_index(tools, id) ==> (#[trigger] tools[i]).0 != id,
    decreases tools.len(),
{
    if tools.len() > 0 && tools[0].0 != id {
        let rest = tools.drop_first();
        lemma_tool_index(rest, id);
        assert forall|i: int| 0 <= i < tool_index(tools, id) implies (#[trigger] tools[i]).0
            != id by {
            if i > 0 {
                assert(rest[i - 1] == tools[i]);
            }
        }
    }
}

/// No update makes an id occur twice among the tool calls.
pub proof fn tool_calls_stay_distinct(state: HarnessView, update: UpdateView)
    requires
        distinct_tools(state.tools),
    ensures
        distinct_tools(after_update(state, update).tools),
{
    match update {
        UpdateView::ToolCall(call) => {
            lemma_tool_index(state.tools, call.tool_call_id);
        },
        UpdateView::ToolCallUpdate(u) => {
            lemma_tool_index(state.tools, u.tool_call_id);
        },
        _ => {},
    }
}

proof fn lemma_tool_index_at(tools: Seq<(Seq<char>, ToolEntryView)>, id: Seq<char>, at: int)
    requires
        0 <= at < tools.len(),
        tools[at].0 == id,
        forall|i: int| 0 <= i < at ==> (#[trigger] tools[i]).0 != id,
    ensures
        tool_index(tools, id) == at,
{
    lemma_tool_index(tools, id);
    let found = tool_index(tools, id) as int;
    if found < at {
        assert(tools[found].0 != id);
    }
}

/// A tool call that was announced is known from then on, with the title, the kind and the status
/// that it was announced with; a change of its status is what is known of it next, and nothing
/// else about it changes.
pub proof fn announced_calls_are_known(
    state: HarnessView,
    call: protocol::ToolCallView,
    change: protocol::ToolCallUpdateView,
    status: ToolCallStatus,
)
    requires
        change.tool_call_id == call.tool_call_id,
        change.status == Some(status),
    ensures
        ({
            let announced = after_update(state, UpdateView::ToolCall(call));
            let at = tool_index(announced.tools, call.tool_call_id) as int;
            let changed = after_update(announced, UpdateView::ToolCallUpdate(change));
            &&& at < announced.tools.len()
            &&& announced.tools[at].1 == (ToolEntryView {
                title: call.title,
                kind: kind_name(call.kind),
                status: call.status,
            })
            &&& tool_index(changed.tools, call.tool_call_id) == at
            &&& changed.tools[at].1 == (ToolEntryView { status, ..announced.tools[at].1 })
            &&& changed.replayed == announced.replayed
        }),
{
    let id = call.tool_call_id;
    let announced = after_update(state, UpdateView::ToolCall(call));
    let at = tool_index(state.tools, id) as int;
    lemma_tool_index(state.tools, id);
    assert forall|i: int| 0 <= i < at implies (#[trigger] announced.tools[i]).0 != id by {
        assert(state.tools[i].0 != id);
    }
    lemma_tool_index_at(announced.tools, id, at);
    let changed = after_update(announced, UpdateView::ToolCallUpdate(change));
    assert forall|i: int| 0 <= i < at implies (#[trigger] changed.tools[i]).0 != id by {
        assert(announced.tools[i].0 != id);
    }
    lemma_tool_index_at(changed.tools, id, at);
}

/// The state after some updates.
pub open spec fn after_updates(state: HarnessView, list: Seq<UpdateView>) -> HarnessView
    decreases list.len(),
{
    if list.len() == 0 {
        state
    } else {
        after_update(after_updates(state, list.drop_last()), list.last())
    }
}

/// The words of the agent in some updates, joined without anything between them.
pub open spec fn agent_words(list: Seq<UpdateView>) -> Seq<char>
    decreases list.len(),
{
    if list.len() == 0 {
        seq![]
    } else {
        match list.last() {
            UpdateView::AgentMessageChunk(ContentView::Text(text)) => agent_words(list.drop_last())
                + text,
            _ => agent_words(list.drop_last()),
        }
    }
}

/// The chunks in which the agent speaks add up to what the harness has of its words, and nothing
/// else does.
pub proof fn words_are_gathered(state: HarnessView, list: Seq<UpdateView>)
    ensures
        after_updates(state, list).text == state.text + agent_words(list),
    decreases list.len(),
{
    if list.len() > 0 {
        words_are_gathered(state, list.drop_last());
    }
    assert(after_updates(state, list).text =~= state.text + agent_words(list));
}

/// The thoughts of the agent in some updates, joined without anything between them.
pub open spec fn agent_thoughts(list: Seq<UpdateView>) -> Seq<char>
    decreases list.len(),
{
    if list.len() == 0 {
        seq![]
    } else {
        match list.last() {
            UpdateView::AgentThoughtChunk(ContentView::Text(text)) => agent_thoughts(
                list.drop_last(),
            ) + text,
            _ => agent_thoughts(list.drop_last()),
        }
    }
}

/// The chunks in which the agent thinks add up to what the harness has of its thoughts, and
/// nothing else does.
pub proof fn thoughts_are_gathered(state: HarnessView, list: Seq<UpdateView>)
    ensures
        after_updates(state, list).thinking == state.thinking + agent_thoughts(list),
    decreases list.len(),
{
    if list.len() > 0 {
        thoughts_are_gathered(state, list.drop_last());
    }
    assert(after_updates(state, list).thinking =~= state.thinking + agent_thoughts(list));
}

/// Every update that arrives for a load is counted, whatever it is, as far as the count goes.
pub proof fn arrivals_are_counted(state: HarnessView, list: Seq<UpdateView>)
    ensures
        after_updates(load_begun(state), list).arrived == if list.len() < u32::MAX {
            list.len()
        } else {
            u32::MAX as nat
        },
    decreases list.len(),
{
    if list.len() > 0 {
        arrivals_are_counted(state, list.drop_last());
    }
}

/// The number of tool calls that are announced in some updates.
pub open spec fn calls_in(list: Seq<UpdateView>) -> nat
    decreases list.len(),
{
    if list.len() == 0 {
        0
    } else if list.last() is ToolCall {
        calls_in(list.drop_last()) + 1
    } else {
        calls_in(list.drop_last())
    }
}

proof fn lemma_replay_counted(state: HarnessView, list: Seq<UpdateView>)
    requires
        forall|i: int| 0 <= i < list.len() ==> history::is_replayed(#[trigger] list[i]),
    ensures
        after_updates(state, list).replayed == state.replayed + calls_in(list),
    decreases list.len(),
{
    if list.len() > 0 {
        let init = list.drop_last();
        assert forall|i: int| 0 <= i < init.len() implies history::is_replayed(
            #[trigger] init[i],
        ) by {
            assert(init[i] == list[i]);
        }
        lemma_replay_counted(state, init);
        assert(history::is_replayed(list[list.len() - 1]));
    }
}

/// When a history is replayed to the harness, what it counts are the tool calls.
pub proof fn replayed_calls_are_counted(state: HarnessView, messages: Seq<history::MessageView>)
    ensures
        after_updates(state, history::replay(messages, messages)).replayed == state.replayed
            + calls_in(history::replay(messages, messages)),
{
    history::replayed_calls_are_over(messages, messages);
    lemma_replay_counted(state, history::replay(messages, messages));
}

/// On what the agent offers, each strategy does what it says: the one allows once, the other for
/// the session, and the third denies.
pub proof fn strategies_keep_their_word(tool: Seq<char>, scopes: Seq<Seq<char>>)
    ensures
        ({
            let offer = prompt::offered(tool, scopes);
            &&& picked(offer, PermissionStrategy::Allow) == "allow"@
            &&& offer[first_exact(offer, "allow"@) as int].kind == PermissionOptionKind::AllowOnce
            &&& is_grant(picked(offer, PermissionStrategy::Allow), offer)
            &&& picked(offer, PermissionStrategy::AllowSession) == "allow_session"@
            &&& offer[first_exact(offer, "allow_session"@) as int].kind
                == PermissionOptionKind::AllowAlways
            &&& is_grant(picked(offer, PermissionStrategy::AllowSession), offer)
            &&& picked(offer, PermissionStrategy::Deny) == "deny"@
            &&& offer[first_exact(offer, "deny"@) as int].kind == PermissionOptionKind::RejectOnce
            &&& !is_grant(picked(offer, PermissionStrategy::Deny), offer)
        }),
{
    let offer = prompt::offered(tool, scopes);
    reveal_strlit("allow");
    reveal_strlit("allow_session");
    reveal_strlit("deny");
    assert("allow"@.len() != "allow_session"@.len());
    assert("allow"@.len() != "deny"@.len());
    assert("allow_session"@.len() != "deny"@.len());
    assert("allow"@[0] != "deny"@[0]);
    assert("allow_session"@[0] != "deny"@[0]);
    assert("deny"@ =~= "deny"@.subrange(0, 4));
    assert("allow"@.subrange(0, 4)[0] != "deny"@[0]);
    assert("allow_session"@.subrange(0, 4)[0] != "deny"@[0]);
    reveal_with_fuel(first_exact, 4);
    reveal_with_fuel(first_of_kind, 4);
    reveal_with_fuel(first_denial, 4);
}

proof fn lemma_first_of_kind(options: Seq<PermissionOptionView>, kind: PermissionOptionKind)
    ensures
        first_of_kind(options, kind) <= options.len(),
        first_of_kind(options, kind) < options.len() ==> options[first_of_kind(
            options,
            kind,
        ) as int].kind == kind,
        forall|i: int| 0 <= i < first_of_kind(options, kind) ==> (#[trigger] options[i]).kind != kind,
    decreases options.len(),
{
    if options.len() > 0 && options[0].kind != kind {
        let rest = options.drop_first();
        lemma_first_of_kind(rest, kind);
        assert forall|i: int| 0 <= i < first_of_kind(options, kind) implies (
        #[trigger] options[i]).kind != kind by {
            if i > 0 {
                assert(rest[i - 1] == options[i]);
            }
        }
    }
}

proof fn lemma_first_exact(options: Seq<PermissionOptionView>, id: Seq<char>)
    ensures
        first_exact(options, id) <= options.len(),
        first_exact(options, id) < options.len() ==> options[first_exact(
            options,
            id,
        ) as int].option_id == id,
        forall|i: int|
            0 <= i < first_exact(options, id) ==> (#[trigger] options[i]).option_id != id,
    decreases options.len(),
{
    if options.len() > 0 && options[0].option_id != id {
        let rest = options.drop_first();
        lemma_first_exact(rest, id);
        assert forall|i: int| 0 <= i < first_exact(options, id) implies (
        #[trigger] options[i]).option_id != id by {
            if i > 0 {
                assert(rest[i - 1] == options[i]);
            }
        }
    }
}

proof fn lemma_first_denial(
    options: Seq<PermissionOptionView>,
    all: Seq<PermissionOptionView>,
    prefix: Seq<char>,
)
    ensures
        first_denial(options, all, prefix) <= options.len(),
        first_denial(options, all, prefix) < options.len() ==> denies(
            options[first_denial(options, all, prefix) as int],
            all,
            prefix,
        ),
        forall|i: int|
            0 <= i < first_denial(options, all, prefix) ==> !denies(
                #[trigger] options[i],
                all,
                prefix,
            ),
    decreases options.len(),
{
    if options.len() > 0 && !denies(options[0], all, prefix) {
        let rest = options.drop_first();
        lemma_first_denial(rest, all, prefix);
        assert forall|i: int| 0 <= i < first_denial(options, all, prefix) implies !denies(
            #[trigger] options[i],
            all,
            prefix,
        ) by {
            if i > 0 {
                assert(rest[i - 1] == options[i]);
            }
        }
    }
}

/// The denying strategy denies wherever a request can be denied: where one of the options denies,
/// and where nothing is on offer.
pub proof fn denying_denies(options: Seq<PermissionOptionView>)
    ensures
        (exists|i: int|
            0 <= i < options.len() && !is_grant((#[trigger] options[i]).option_id, options))
            ==> !is_grant(picked(options, PermissionStrategy::Deny), options),
        options.len() == 0 ==> !is_grant(picked(options, PermissionStrategy::Deny), options),
{
    reveal_strlit("");
    reveal_strlit("allow");
    reveal_strlit("deny");
    lemma_first_denial(options, options, "deny"@);
    lemma_first_denial(options, options, ""@);
    if exists|i: int|
        0 <= i < options.len() && !is_grant((#[trigger] options[i]).option_id, options) {
        let i = choose|i: int|
            0 <= i < options.len() && !is_grant((#[trigger] options[i]).option_id, options);
        assert(""@ =~= options[i].option_id.subrange(0, 0));
        assert(denies(options[i], options, ""@));
    }
}

/// Where nothing that denies has an id that begins with `deny`, the last option is picked if it
/// denies.
pub proof fn last_denial_is_next(options: Seq<PermissionOptionView>)
    requires
        options.len() > 0,
        !is_grant(options.last().option_id, options),
        forall|i: int|
            0 <= i < options.len() ==> !denies(#[trigger] options[i], options, "deny"@),
    ensures
        picked(options, PermissionStrategy::Deny) == options.last().option_id,
{
    lemma_first_denial(options, options, "deny"@);
}

/// Of the options that deny, one whose id begins with `deny` comes before the others.
pub proof fn named_denials_come_first(options: Seq<PermissionOptionView>, i: int)
    requires
        0 <= i < options.len(),
        denies(options[i], options, "deny"@),
    ensures
        "deny"@.is_prefix_of(picked(options, PermissionStrategy::Deny)),
{
    lemma_first_denial(options, options, "deny"@);
}

/// Whether no two options have the same id.
pub open spec fn distinct_options(options: Seq<PermissionOptionView>) -> bool {
    forall|i: int, j: int|
        #![trigger options[i], options[j]]
        0 <= i < j < options.len() ==> options[i].option_id != options[j].option_id
}

proof fn lemma_allowing_kind_grants(options: Seq<PermissionOptionView>, i: int)
    requires
        distinct_options(options),
        0 <= i < options.len(),
        options[i].kind == PermissionOptionKind::AllowOnce || options[i].kind
            == PermissionOptionKind::AllowAlways,
    ensures
        is_grant(options[i].option_id, options),
{
    let found = first_exact(options, options[i].option_id) as int;
    lemma_first_exact(options, options[i].option_id);
    assert(found <= i);
    if found < i {
        assert(options[found].option_id != options[i].option_id);
    }
}

/// Where an option allows once, the first strategy picks the first such option. The second picks
/// the option for the session where it is on offer and allows, else the first that allows from now
/// on, else what the first strategy picks. What either picks so grants permission.
pub proof fn allowing_goes_by_kind(options: Seq<PermissionOptionView>)
    requires
        distinct_options(options),
    ensures
        ({
            let once = first_of_kind(options, PermissionOptionKind::AllowOnce) as int;
            let always = first_of_kind(options, PermissionOptionKind::AllowAlways) as int;
            &&& once < options.len() ==> {
                &&& options[once].kind == PermissionOptionKind::AllowOnce
                &&& forall|i: int|
                    0 <= i < once ==> (#[trigger] options[i]).kind
                        != PermissionOptionKind::AllowOnce
                &&& picked(options, PermissionStrategy::Allow) == options[once].option_id
                &&& is_grant(picked(options, PermissionStrategy::Allow), options)
                &&& is_grant(picked(options, PermissionStrategy::AllowSession), options)
            }
            &&& offers_session(options) ==> {
                &&& picked(options, PermissionStrategy::AllowSession) == "allow_session"@
                &&& is_grant(picked(options, PermissionStrategy::AllowSession), options)
            }
            &&& !offers_session(options) && always < options.len() ==> {
                &&& options[always].kind == PermissionOptionKind::AllowAlways
                &&& picked(options, PermissionStrategy::AllowSession) == options[always].option_id
                &&& is_grant(picked(options, PermissionStrategy::AllowSession), options)
            }
            &&& !offers_session(options) && once < options.len() && always >= options.len()
                ==> picked(options, PermissionStrategy::AllowSession) == picked(
                options,
                PermissionStrategy::Allow,
            )
        }),
{
    let once = first_of_kind(options, PermissionOptionKind::AllowOnce) as int;
    let always = first_of_kind(options, PermissionOptionKind::AllowAlways) as int;
    lemma_first_of_kind(options, PermissionOptionKind::AllowOnce);
    lemma_first_of_kind(options, PermissionOptionKind::AllowAlways);
    if once < options.len() {
        lemma_allowing_kind_grants(options, once);
    }
    if always < options.len() {
        lemma_allowing_kind_grants(options, always);
    }
}

proof fn lemma_first_exact_at(options: Seq<PermissionOptionView>, id: Seq<char>, k: int)
    requires
        0 <= k <= options.len(),
        forall|i: int| 0 <= i < k ==> (#[trigger] options[i]).option_id != id,
        k < options.len() ==> options[k].option_id == id,
    ensures
        first_exact(options, id) == k,
{
    lemma_first_exact(options, id);
    let found = first_exact(options, id) as int;
    if found < k {
        assert(options[found].option_id != id);
    }
}

proof fn lemma_first_of_kind_at(
    options: Seq<PermissionOptionView>,
    kind: PermissionOptionKind,
    k: int,
)
    requires
        0 <= k <= options.len(),
        forall|i: int| 0 <= i < k ==> (#[trigger] options[i]).kind != kind,
        k < options.len() ==> options[k].kind == kind,
    ensures
        first_of_kind(options, kind) == k,
{
    lemma_first_of_kind(options, kind);
    let found = first_of_kind(options, kind) as int;
    if found < k {
        assert(options[found].kind != kind);
    }
}

proof fn lemma_first_prefixed_at(options: Seq<PermissionOptionView>, prefix: Seq<char>, k: int)
    requires
        0 <= k <= options.len(),
        forall|i: int| 0 <= i < k ==> !prefix.is_prefix_of((#[trigger] options[i]).option_id),
        k < options.len() ==> prefix.is_prefix_of(options[k].option_id),
    ensures
        first_prefixed(options, prefix) == k,
    decreases options.len(),
{
    if options.len() > 0 && k > 0 {
        let rest = options.drop_first();
        assert(!prefix.is_prefix_of(options[0].option_id));
        assert forall|i: int| 0 <= i < k - 1 implies !prefix.is_prefix_of(
            (#[trigger] rest[i]).option_id,
        ) by {
            assert(rest[i] == options[i + 1]);
        }
        lemma_first_prefixed_at(rest, prefix, k - 1);
    }
}

proof fn lemma_first_denial_at(options: Seq<PermissionOptionView>, prefix: Seq<char>, k: int)
    requires
        0 <= k <= options.len(),
        forall|i: int| 0 <= i < k ==> !denies(#[trigger] options[i], options, prefix),
        k < options.len() ==> denies(options[k], options, prefix),
    ensures
        first_denial(options, options, prefix) == k,
{
    lemma_first_denial(options, options, prefix);
    let found = first_denial(options, options, prefix) as int;
    if found < k {
        assert(!denies(options[found], options, prefix));
    }
}

/// Picking an id grants permission exactly where the first option of that id allows, once or from
/// now on, and is shown under the name of that option. Where no option has the id, it grants where
/// it begins with the letters of `allow`, and is shown as it is.
pub proof fn grants_go_by_the_option_of_the_id(
    options: Seq<PermissionOptionView>,
    id: Seq<char>,
    k: int,
)
    requires
        0 <= k <= options.len(),
        forall|i: int| 0 <= i < k ==> (#[trigger] options[i]).option_id != id,
        k < options.len() ==> options[k].option_id == id,
    ensures
        k < options.len() ==> {
            &&& is_grant(id, options) <==> options[k].kind is AllowOnce
                || options[k].kind is AllowAlways
            &&& label_of(id, options) == options[k].name
        },
        k == options.len() ==> {
            &&& is_grant(id, options) <==> (id.len() >= 5 && id[0] == 'a' && id[1] == 'l' && id[2]
                == 'l' && id[3] == 'o' && id[4] == 'w')
            &&& label_of(id, options) == id
        },
{
    lemma_first_exact_at(options, id, k);
    prompt::grants_begin_with_allow(id);
}

/// Allowing once picks the first option that allows once. Where none does, it goes by the ids: the
/// option `allow`, else the first whose id begins so, else the first of all, and `allow` where
/// nothing is on offer.
pub proof fn allowing_once_picks_the_first_of_the_kind(
    options: Seq<PermissionOptionView>,
    k: int,
    exact: int,
    prefixed: int,
)
    requires
        0 <= k <= options.len(),
        forall|i: int| 0 <= i < k ==> !((#[trigger] options[i]).kind is AllowOnce),
        k < options.len() ==> options[k].kind is AllowOnce,
        0 <= exact <= options.len(),
        forall|i: int| 0 <= i < exact ==> (#[trigger] options[i]).option_id != "allow"@,
        exact < options.len() ==> options[exact].option_id == "allow"@,
        0 <= prefixed <= options.len(),
        forall|i: int|
            0 <= i < prefixed ==> !"allow"@.is_prefix_of((#[trigger] options[i]).option_id),
        prefixed < options.len() ==> "allow"@.is_prefix_of(options[prefixed].option_id),
    ensures
        picked(options, PermissionStrategy::Allow) == if k < options.len() {
            options[k].option_id
        } else if exact < options.len() {
            "allow"@
        } else if prefixed < options.len() {
            options[prefixed].option_id
        } else if options.len() > 0 {
            options[0].option_id
        } else {
            "allow"@
        },
{
    lemma_first_of_kind_at(options, PermissionOptionKind::AllowOnce, k);
    lemma_first_exact_at(options, "allow"@, exact);
    lemma_first_prefixed_at(options, "allow"@, prefixed);
}

/// Allowing for the session picks the option `allow_session` where it allows, else the first
/// option that allows from now on, else the first that allows once. Where none allows, it goes by
/// the ids: that option all the same, else the first whose id begins with `allow`, else the first
/// of all, and `allow` where nothing is on offer.
pub proof fn allowing_for_the_session_prefers_the_session(
    options: Seq<PermissionOptionView>,
    exact: int,
    always: int,
    once: int,
    prefixed: int,
)
    requires
        0 <= exact <= options.len(),
        forall|i: int| 0 <= i < exact ==> (#[trigger] options[i]).option_id != "allow_session"@,
        exact < options.len() ==> options[exact].option_id == "allow_session"@,
        0 <= always <= options.len(),
        forall|i: int| 0 <= i < always ==> !((#[trigger] options[i]).kind is AllowAlways),
        always < options.len() ==> options[always].kind is AllowAlways,
        0 <= once <= options.len(),
        forall|i: int| 0 <= i < once ==> !((#[trigger] options[i]).kind is AllowOnce),
        once < options.len() ==> options[once].kind is AllowOnce,
        0 <= prefixed <= options.len(),
        forall|i: int|
            0 <= i < prefixed ==> !"allow"@.is_prefix_of((#[trigger] options[i]).option_id),
        prefixed < options.len() ==> "allow"@.is_prefix_of(options[prefixed].option_id),
    ensures
        picked(options, PermissionStrategy::AllowSession) == if exact < options.len() && (
        options[exact].kind is AllowOnce || options[exact].kind is AllowAlways) {
            "allow_session"@
        } else if always < options.len() {
            options[always].option_id
        } else if once < options.len() {
            options[once].option_id
        } else if exact < options.len() {
            "allow_session"@
        } else if prefixed < options.len() {
            options[prefixed].option_id
        } else if options.len() > 0 {
            options[0].option_id
        } else {
            "allow"@
        },
{
    lemma_first_exact_at(options, "allow_session"@, exact);
    lemma_first_of_kind_at(options, PermissionOptionKind::AllowAlways, always);
    lemma_first_of_kind_at(options, PermissionOptionKind::AllowOnce, once);
    lemma_first_prefixed_at(options, "allow"@, prefixed);
}

/// Denying picks the first option that denies and whose id begins with `deny`, else the last
/// option if it denies, else the first that denies. Where none denies, it goes by the ids: the
/// first that begins with `deny`, else the last option, and `deny` where nothing is on offer.
pub proof fn denying_picks_what_denies(
    options: Seq<PermissionOptionView>,
    named: int,
    any: int,
    prefixed: int,
)
    requires
        0 <= named <= options.len(),
        forall|i: int|
            0 <= i < named ==> !"deny"@.is_prefix_of((#[trigger] options[i]).option_id) || is_grant(
                options[i].option_id,
                options,
            ),
        named < options.len() ==> "deny"@.is_prefix_of(options[named].option_id) && !is_grant(
            options[named].option_id,
            options,
        ),
        0 <= any <= options.len(),
        forall|i: int| 0 <= i < any ==> is_grant((#[trigger] options[i]).option_id, options),
        any < options.len() ==> !is_grant(options[any].option_id, options),
        0 <= prefixed <= options.len(),
        forall|i: int|
            0 <= i < prefixed ==> !"deny"@.is_prefix_of((#[trigger] options[i]).option_id),
        prefixed < options.len() ==> "deny"@.is_prefix_of(options[prefixed].option_id),
    ensures
        picked(options, PermissionStrategy::Deny) == if options.len() == 0 {
            "deny"@
        } else if named < options.len() {
            options[named].option_id
        } else if !is_grant(options[options.len() - 1].option_id, options) {
            options[options.len() - 1].option_id
        } else if any < options.len() {
            options[any].option_id
        } else if prefixed < options.len() {
            options[prefixed].option_id
        } else {
            options[options.len() - 1].option_id
        },
{
    reveal_strlit("");
    assert forall|i: int| 0 <= i < options.len() implies ""@.is_prefix_of(
        (#[trigger] options[i]).option_id,
    ) by {
        assert(""@ =~= options[i].option_id.subrange(0, 0));
    }
    lemma_first_denial_at(options, "deny"@, named);
    lemma_first_denial_at(options, ""@, any);
    lemma_first_prefixed_at(options, "deny"@, prefixed);
}

/// A permission request counts once as asked, and once as granted or as denied.
pub proof fn requests_are_counted_once(state: HarnessView, granted: bool)
    ensures
        ({
            let after = after_permission(state, granted);
            &&& after.asked == state.asked + 1
            &&& after.granted == state.granted + if granted {
                1int
            } else {
                0int
            }
            &&& after.denied == state.denied + if granted {
                0int
            } else {
                1int
            }
            &&& after.text == state.text && after.thinking == state.thinking
            &&& after.tools == state.tools
            &&& after.replayed == state.replayed && after.arrived == state.arrived
        }),
{
}

/// A turn may end because the model is done, because its tokens ran out, or because it was
/// cancelled, and for no other reason.
pub proof fn turns_may_end_in_three_ways(stop: StopReason)
    ensures
        acceptable(stop) <==> stop is EndTurn || stop is MaxTokens || stop is Cancelled,
{
}

/// Reasons, kinds and statuses are shown by their names.
pub proof fn names_are_shown_as_they_are(
    stop: StopReason,
    kind: ToolKind,
    status: ToolCallStatus,
)
    ensures
        stop is EndTurn ==> stop_name(stop) == "EndTurn"@,
        stop is MaxTokens ==> stop_name(stop) == "MaxTokens"@,
        stop is MaxTurnRequests ==> stop_name(stop) == "MaxTurnRequests"@,
        stop is Refusal ==> stop_name(stop) == "Refusal"@,
        stop is Cancelled ==> stop_name(stop) == "Cancelled"@,
        stop is Unknown ==> stop_name(stop) == "Unknown"@,
        kind is Read ==> kind_name(kind) == "Read"@,
        kind is Edit ==> kind_name(kind) == "Edit"@,
        kind is Delete ==> kind_name(kind) == "Delete"@,
        kind is Move ==> kind_name(kind) == "Move"@,
        kind is Search ==> kind_name(kind) == "Search"@,
        kind is Execute ==> kind_name(kind) == "Execute"@,
        kind is Think ==> kind_name(kind) == "Think"@,
        kind is Fetch ==> kind_name(kind) == "Fetch"@,
        kind is SwitchMode ==> kind_name(kind) == "SwitchMode"@,
        kind is Other ==> kind_name(kind) == "Other"@,
        status is Pending ==> status_name(status) == "Pending"@,
        status is InProgress ==> status_name(status) == "InProgress"@,
        status is Completed ==> status_name(status) == "Completed"@,
        status is Failed ==> status_name(status) == "Failed"@,
        status is Unknown ==> status_name(status) == "Unknown"@,
{
}

/// An update changes what it tells and nothing else: words add to the words, thoughts to the
/// thoughts, tool calls and their changes concern the tool calls, and no update the permissions.
pub proof fn updates_change_only_what_they_tell(state: HarnessView, update: UpdateView)
    ensures
        ({
            let after = after_update(state, update);
            &&& after.asked == state.asked
            &&& after.granted == state.granted
            &&& after.denied == state.denied
            &&& after.text == match update {
                UpdateView::AgentMessageChunk(ContentView::Text(text)) => state.text + text,
                _ => state.text,
            }
            &&& after.thinking == match update {
                UpdateView::AgentThoughtChunk(ContentView::Text(text)) => state.thinking + text,
                _ => state.thinking,
            }
            &&& !(update is ToolCall) && !(update is ToolCallUpdate) ==> after.tools == state.tools
            &&& after.arrived == if state.arrived < 0xffff_ffff {
                state.arrived + 1
            } else {
                state.arrived
            }
        }),
        load_begun(state) == (HarnessView { arrived: 0, ..state }),
{
}

/// A tool call that is announced counts as replayed and is kept under its id, in the place of one
/// of the same id, else behind the others. A change to a known tool call gives it the new status,
/// where there is one, and leaves all else. A change to an unknown one only counts as replayed, as
/// does what is not looked into; nothing else counts.
pub proof fn tool_calls_are_kept_by_their_ids(
    state: HarnessView,
    update: UpdateView,
    id: Seq<char>,
    k: int,
)
    requires
        0 <= k <= state.tools.len(),
        forall|i: int| 0 <= i < k ==> (#[trigger] state.tools[i]).0 != id,
        k < state.tools.len() ==> state.tools[k].0 == id,
    ensures
        ({
            let after = after_update(state, update);
            match update {
                UpdateView::ToolCall(call) => call.tool_call_id == id ==> {
                    let entry = (
                        id,
                        ToolEntryView {
                            title: call.title,
                            kind: kind_name(call.kind),
                            status: call.status,
                        },
                    );
                    &&& after.replayed == state.replayed + 1
                    &&& k < state.tools.len() ==> after.tools == state.tools.update(k, entry)
                    &&& k == state.tools.len() ==> after.tools == state.tools.push(entry)
                },
                UpdateView::ToolCallUpdate(change) => change.tool_call_id == id ==> {
                    &&& k == state.tools.len() ==> after.replayed == state.replayed + 1
                        && after.tools == state.tools
                    &&& k < state.tools.len() ==> after.replayed == state.replayed
                    &&& k < state.tools.len() ==> match change.status {
                        Some(status) => after.tools == state.tools.update(
                            k,
                            (
                                id,
                                ToolEntryView {
                                    title: state.tools[k].1.title,
                                    kind: state.tools[k].1.kind,
                                    status,
                                },
                            ),
                        ),
                        None => after.tools == state.tools,
                    }
                },
                UpdateView::Other => after.replayed == state.replayed + 1,
                _ => after.replayed == state.replayed,
            }
        }),
{
    lemma_tool_index(state.tools, id);
    let found = tool_index(state.tools, id) as int;
    if found < k {
        assert(state.tools[found].0 != id);
    }
}

/// The contents of what the harness has seen are those of its parts.
pub proof fn states_are_what_they_hold(
    state: HarnessState,
    entry: ToolEntry,
    tools: Seq<(String, ToolEntry)>,
)
    ensures
        state@.text == state.text_buf@,
        state@.thinking == state.thinking_buf@,
        state@.tools == tool_views(state.tool_calls@),
        state@.asked == state.permissions_asked,
        state@.granted == state.permissions_granted,
        state@.denied == state.permissions_denied,
        state@.replayed == state.replay_updates,
        state@.arrived == state.load_updates,
        entry@.title == entry.title@,
        entry@.kind == entry.kind@,
        entry@.status == entry.status,
        tool_views(tools).len() == tools.len(),
        forall|i: int|
            0 <= i < tools.len() ==> (#[trigger] tool_views(tools)[i]).0 == tools[i].0@
                && tool_views(tools)[i].1 == tools[i].1@,
        nothing_seen().text.len() == 0,
        nothing_seen().thinking.len() == 0,
        nothing_seen().tools.len() == 0,
        nothing_seen().asked == 0 && nothing_seen().granted == 0 && nothing_seen().denied == 0,
        nothing_seen().replayed == 0 && nothing_seen().arrived == 0,
{
}

/// What is shown of some tool calls is what is shown of each, one after the other, and those of a
/// status are counted one by one.
pub proof fn tool_calls_are_summed_up_one_by_one(
    first: Seq<(Seq<char>, ToolEntryView)>,
    rest: Seq<(Seq<char>, ToolEntryView)>,
    status: ToolCallStatus,
)
    ensures
        count_of(first + rest, status) == count_of(first, status) + count_of(rest, status),
        tool_lines(first + rest) == tool_lines(first) + tool_lines(rest),
        first.len() == 0 ==> count_of(first, status) == 0 && tool_lines(first).len() == 0,
        first.len() == 1 ==> count_of(first, status) == if first[0].1.status == status {
            1nat
        } else {
            0nat
        },
        first.len() == 1 ==> tool_lines(first) == tool_line(first[0].0, first[0].1),
    decreases rest.len(),
{
    if first.len() == 1 {
        assert(first.drop_last() =~= seq![]);
        assert(tool_lines(first.drop_last()) =~= seq![]);
        assert(count_of(first.drop_last(), status) == 0);
        assert(tool_lines(first) =~= tool_line(first[0].0, first[0].1));
    }
    if rest.len() == 0 {
        assert(first + rest =~= first);
    } else {
        tool_calls_are_summed_up_one_by_one(first, rest.drop_last(), status);
        assert((first + rest).drop_last() =~= first + rest.drop_last());
    }
    assert(tool_lines(first + rest) =~= tool_lines(first) + tool_lines(rest));
}

/// A label stands in brackets, in bold and in its colour.
pub proof fn labels_stand_in_brackets(color: Seq<char>, label: Seq<char>)
    ensures
        tagged(color, label) == "\x1b[1m"@ + color + "["@ + label + "]\x1b[0m"@,
        CYAN@ == "\x1b[36m"@ && GREEN@ == "\x1b[32m"@ && YELLOW@ == "\x1b[33m"@,
        RED@ == "\x1b[31m"@ && MAGENTA@ == "\x1b[35m"@ && BLUE@ == "\x1b[34m"@,
        DIM@ == "\x1b[2m"@ && BOLD@ == "\x1b[1m"@ && RESET@ == "\x1b[0m"@,
{
    reveal_strlit("]");
    reveal_strlit("\x1b[0m");
    reveal_strlit("]\x1b[0m");
    assert("]\x1b[0m"@ =~= "]"@ + "\x1b[0m"@);
    assert(tagged(color, label) =~= "\x1b[1m"@ + color + "["@ + label + "]\x1b[0m"@);
}

/// A status has its mark in its colour: what is completed in green, what failed in red, what is in
/// progress in yellow. What is pending is dim, and a status that is not known is so at the end.
pub proof fn marks_are_in_their_colours(status: ToolCallStatus)
    ensures
        status is Completed ==> change_mark(status) == "\x1b[32m✓\x1b[0m"@,
        status is Failed ==> change_mark(status) == "\x1b[31m✗\x1b[0m"@,
        status is InProgress ==> change_mark(status) == "\x1b[33m▶\x1b[0m"@,
        status is Pending ==> change_mark(status) == "\x1b[2m…\x1b[0m"@,
        status is Unknown ==> change_mark(status) == "?"@,
        status is Unknown ==> summary_mark(status) == "\x1b[2m…\x1b[0m"@,
        !(status is Unknown) ==> summary_mark(status) == change_mark(status),
{
    reveal_strlit("\x1b[0m");
    reveal_strlit("\x1b[2m");
    reveal_strlit("\x1b[31m");
    reveal_strlit("\x1b[32m");
    reveal_strlit("\x1b[33m");
    reveal_strlit("✓");
    reveal_strlit("✗");
    reveal_strlit("▶");
    reveal_strlit("…");
    reveal_strlit("\x1b[32m✓\x1b[0m");
    reveal_strlit("\x1b[31m✗\x1b[0m");
    reveal_strlit("\x1b[33m▶\x1b[0m");
    reveal_strlit("\x1b[2m…\x1b[0m");
    assert("\x1b[32m✓\x1b[0m"@ =~= "\x1b[32m"@ + "✓"@ + "\x1b[0m"@);
    assert("\x1b[31m✗\x1b[0m"@ =~= "\x1b[31m"@ + "✗"@ + "\x1b[0m"@);
    assert("\x1b[33m▶\x1b[0m"@ =~= "\x1b[33m"@ + "▶"@ + "\x1b[0m"@);
    assert("\x1b[2m…\x1b[0m"@ =~= "\x1b[2m"@ + "…"@ + "\x1b[0m"@);
}

/// Words are printed as they are, thoughts and the words of the user dim, and an announced tool
/// call on a line of its own with its title, kind and id. What is not looked into is not printed.
pub proof fn updates_are_printed_as_they_are_told(state: HarnessView, update: UpdateView)
    ensures
        update matches UpdateView::UserMessageChunk(ContentView::Text(text)) ==> printed(
            state,
            update,
        ) == "\x1b[2m"@ + text + "\x1b[0m"@,
        update matches UpdateView::AgentMessageChunk(ContentView::Text(text)) ==> printed(
            state,
            update,
        ) == text,
        update matches UpdateView::AgentThoughtChunk(ContentView::Text(text)) ==> printed(
            state,
            update,
        ) == "\x1b[2m"@ + text + "\x1b[0m"@,
        update matches UpdateView::ToolCall(call) ==> printed(state, update)
            == "\n\x1b[1m\x1b[33m[TOOL]\x1b[0m \x1b[1m"@ + call.title + "\x1b[0m ("@ + kind_name(
            call.kind,
        ) + ") ["@ + call.tool_call_id + "]\n"@,
        update matches UpdateView::SessionInfoUpdate(info) ==> (match info.title {
            Some(title) => printed(state, update) == "\n\x1b[1m\x1b[36m[INFO]\x1b[0m title="@
                + debug_text(title) + "\n"@,
            None => printed(state, update).len() == 0,
        }),
        update is Other ==> printed(state, update).len() == 0,
        update == UpdateView::UserMessageChunk(ContentView::Other) ==> printed(state, update).len()
            == 0,
        update == UpdateView::AgentMessageChunk(ContentView::Other) ==> printed(
            state,
            update,
        ).len() == 0,
        update == UpdateView::AgentThoughtChunk(ContentView::Other) ==> printed(
            state,
            update,
        ).len() == 0,
{
    reveal_strlit("\x1b[0m");
    reveal_strlit("\x1b[1m");
    reveal_strlit("\x1b[33m");
    reveal_strlit("\x1b[36m");
    reveal_strlit("TOOL");
    reveal_strlit("INFO");
    reveal_strlit("[");
    reveal_strlit("]");
    reveal_strlit("\n");
    reveal_strlit(" ");
    reveal_strlit(" (");
    reveal_strlit(" title=");
    reveal_strlit("\x1b[0m (");
    reveal_strlit("\n\x1b[1m\x1b[33m[TOOL]\x1b[0m \x1b[1m");
    reveal_strlit("\n\x1b[1m\x1b[36m[INFO]\x1b[0m title=");
    assert("\n\x1b[1m\x1b[33m[TOOL]\x1b[0m \x1b[1m"@ =~= "\n"@ + tagged(YELLOW@, "TOOL"@) + " "@
        + BOLD@);
    assert("\n\x1b[1m\x1b[36m[INFO]\x1b[0m title="@ =~= "\n"@ + tagged(CYAN@, "INFO"@)
        + " title="@);
    assert("\x1b[0m ("@ =~= "\x1b[0m"@ + " ("@);
    if let UpdateView::ToolCall(call) = update {
        let front = "\n"@ + tagged(YELLOW@, "TOOL"@) + " "@ + BOLD@ + call.title;
        assert(front + RESET@ + " ("@ =~= front + "\x1b[0m ("@);
    }
}

/// A new title is printed on a line of its own, in the quoted form that it is given in.
pub proof fn titles_are_printed_as_quoted(quoted: Seq<char>)
    ensures
        title_line(quoted) == "\n\x1b[1m\x1b[36m[INFO]\x1b[0m title="@ + quoted + "\n"@,
{
    reveal_strlit("\x1b[0m");
    reveal_strlit("\x1b[1m");
    reveal_strlit("\x1b[36m");
    reveal_strlit("INFO");
    reveal_strlit("[");
    reveal_strlit("]");
    reveal_strlit("\n");
    reveal_strlit(" title=");
    reveal_strlit("\n\x1b[1m\x1b[36m[INFO]\x1b[0m title=");
    assert("\n\x1b[1m\x1b[36m[INFO]\x1b[0m title="@ =~= "\n"@ + tagged(CYAN@, "INFO"@)
        + " title="@);
}

/// A change of status is printed with the title of the tool call, the mark of the new status and
/// the names of the old and the new. Where the tool call is not known, or the status does not
/// change, nothing is.
pub proof fn changes_are_printed_from_old_to_new(
    state: HarnessView,
    change: protocol::ToolCallUpdateView,
    k: int,
)
    requires
        0 <= k <= state.tools.len(),
        forall|i: int| 0 <= i < k ==> (#[trigger] state.tools[i]).0 != change.tool_call_id,
        k < state.tools.len() ==> state.tools[k].0 == change.tool_call_id,
    ensures
        ({
            let shown = printed(state, UpdateView::ToolCallUpdate(change));
            match change.status {
                Some(status) => if k < state.tools.len() {
                    shown == "\x1b[1m\x1b[33m[TOOL]\x1b[0m \x1b[1m"@ + state.tools[k].1.title
                        + "\x1b[0m "@ + change_mark(status) + " "@ + status_name(
                        state.tools[k].1.status,
                    ) + "→"@ + status_name(status) + "\n"@
                } else {
                    shown.len() == 0
                },
                None => shown.len() == 0,
            }
        }),
{
    lemma_tool_index(state.tools, change.tool_call_id);
    let found = tool_index(state.tools, change.tool_call_id) as int;
    if found < k {
        assert(state.tools[found].0 != change.tool_call_id);
    }
    reveal_strlit("\x1b[0m");
    reveal_strlit("\x1b[1m");
    reveal_strlit("\x1b[33m");
    reveal_strlit("TOOL");
    reveal_strlit("[");
    reveal_strlit("]");
    reveal_strlit(" ");
    reveal_strlit("\x1b[0m ");
    reveal_strlit("\x1b[1m\x1b[33m[TOOL]\x1b[0m \x1b[1m");
    assert("\x1b[1m\x1b[33m[TOOL]\x1b[0m \x1b[1m"@ =~= tagged(YELLOW@, "TOOL"@) + " "@ + BOLD@);
    if k < state.tools.len() {
        let front = tagged(YELLOW@, "TOOL"@) + " "@ + BOLD@ + state.tools[k].1.title;
        assert(front + RESET@ + " "@ =~= front + "\x1b[0m "@);
    }
}

/// The line about a permission request names the tool call, or says that it is a tool, and then
/// the option that was picked: in green with its id where it grants, and as denied in red where it
/// does not.
pub proof fn verdicts_name_the_tool_and_the_option(
    title: Option<Seq<char>>,
    id: Seq<char>,
    options: Seq<PermissionOptionView>,
)
    ensures
        ({
            let shown = match title {
                Some(t) => t,
                None => "(tool)"@,
            };
            let label = label_of(id, options);
            verdict_line(title, id, options) == "\x1b[1m\x1b[33m[PERM]\x1b[0m \x1b[1m"@ + shown
                + "\x1b[0m → "@ + if is_grant(id, options) {
                "\x1b[32m"@ + label + " ("@ + id + ")\x1b[0m\n"@
            } else {
                "\x1b[31mDENIED\x1b[0m ("@ + label + ")\n"@
            }
        }),
{
    reveal_strlit("\x1b[0m");
    reveal_strlit("\x1b[1m");
    reveal_strlit("\x1b[31m");
    reveal_strlit("\x1b[33m");
    reveal_strlit("PERM");
    reveal_strlit("DENIED");
    reveal_strlit("[");
    reveal_strlit("]");
    reveal_strlit(" ");
    reveal_strlit(" (");
    reveal_strlit(")");
    reveal_strlit("\n");
    reveal_strlit(" → ");
    reveal_strlit(")\x1b[0m\n");
    reveal_strlit("\x1b[0m → ");
    reveal_strlit("\x1b[31mDENIED\x1b[0m (");
    reveal_strlit("\x1b[1m\x1b[33m[PERM]\x1b[0m \x1b[1m");
    assert("\x1b[1m\x1b[33m[PERM]\x1b[0m \x1b[1m"@ =~= tagged(YELLOW@, "PERM"@) + " "@ + BOLD@);
    assert("\x1b[0m → "@ =~= RESET@ + " → "@);
    assert("\x1b[31mDENIED\x1b[0m ("@ =~= RED@ + "DENIED"@ + RESET@ + " ("@);
    assert(")\x1b[0m\n"@ =~= ")"@ + RESET@ + "\n"@);
    let shown = match title {
        Some(t) => t,
        None => "(tool)"@,
    };
    let label = label_of(id, options);
    let front = tagged(YELLOW@, "PERM"@) + " "@ + BOLD@ + shown;
    let head = front + RESET@ + " → "@;
    assert(head =~= front + "\x1b[0m → "@);
    if is_grant(id, options) {
        assert(verdict_line(title, id, options) =~= head + ("\x1b[32m"@ + label + " ("@ + id
            + ")\x1b[0m\n"@));
    } else {
        assert(verdict_line(title, id, options) =~= head + ("\x1b[31mDENIED\x1b[0m ("@ + label
            + ")\n"@));
    }
}

/// A tool call stands in the summary with its mark, its title, its kind and its id.
pub proof fn summary_lines_tell_the_tool_call(id: Seq<char>, entry: ToolEntryView)
    ensures
        tool_line(id, entry) == "    "@ + summary_mark(entry.status) + " "@ + entry.title
            + " \x1b[2m("@ + entry.kind + ") ["@ + id + "]\x1b[0m\n"@,
{
    reveal_strlit("\x1b[0m");
    reveal_strlit("\x1b[2m");
    reveal_strlit(" ");
    reveal_strlit("(");
    reveal_strlit("]");
    reveal_strlit("\n");
    reveal_strlit(" \x1b[2m(");
    reveal_strlit("]\x1b[0m\n");
    assert(" \x1b[2m("@ =~= " "@ + DIM@ + "("@);
    assert("]\x1b[0m\n"@ =~= "]"@ + RESET@ + "\n"@);
    let front = "    "@ + summary_mark(entry.status) + " "@ + entry.title;
    assert(front + " "@ + DIM@ + "("@ =~= front + " \x1b[2m("@);
    let back = front + " \x1b[2m("@ + entry.kind + ") ["@ + id;
    assert(back + "]"@ + RESET@ + "\n"@ =~= back + "]\x1b[0m\n"@);
}

/// The summary tells in turn how long the words and the thoughts are in bytes, how many tool calls
/// there were, how many of them completed and failed, each of them on a line, and how many
/// permissions were asked for, granted and denied.
pub proof fn summaries_tell_all_counts(state: HarnessView, words: nat, thoughts: nat)
    requires
        words == vstd::utf8::encode_utf8(state.text).len() <= usize::MAX,
        thoughts == vstd::utf8::encode_utf8(state.thinking).len() <= usize::MAX,
    ensures
        ({
            let head = "\x1b[2m"@ + "─ summary ─────────────────────────────────────"@
                + "\x1b[0m"@ + "\n"@;
            let sizes = "  text chars  : "@ + text::decimal(words) + "\n"@ + "  think chars : "@
                + text::decimal(thoughts) + "\n"@;
            let calls = "  tool calls  : "@ + text::decimal(state.tools.len()) + " total  "@
                + text::decimal(count_of(state.tools, ToolCallStatus::Completed))
                + " completed  "@ + text::decimal(count_of(state.tools, ToolCallStatus::Failed))
                + " failed\n"@;
            let permissions = "  permissions : "@ + text::decimal(state.asked) + " asked  "@
                + text::decimal(state.granted) + " granted  "@ + text::decimal(state.denied)
                + " denied\n"@;
            let foot = "\x1b[2m"@ + "────────────────────────────────────────────────"@
                + "\x1b[0m"@ + "\n"@;
            summary(state) == head + sizes + calls + tool_lines(state.tools) + permissions + foot
        }),
{
    let head = "\x1b[2m"@ + "─ summary ─────────────────────────────────────"@ + "\x1b[0m"@
        + "\n"@;
    let sizes = "  text chars  : "@ + text::decimal(words) + "\n"@ + "  think chars : "@
        + text::decimal(thoughts) + "\n"@;
    let calls = "  tool calls  : "@ + text::decimal(state.tools.len()) + " total  "@
        + text::decimal(count_of(state.tools, ToolCallStatus::Completed)) + " completed  "@
        + text::decimal(count_of(state.tools, ToolCallStatus::Failed)) + " failed\n"@;
    let permissions = "  permissions : "@ + text::decimal(state.asked) + " asked  "@
        + text::decimal(state.granted) + " granted  "@ + text::decimal(state.denied)
        + " denied\n"@;
    let foot = "\x1b[2m"@ + "────────────────────────────────────────────────"@ + "\x1b[0m"@
        + "\n"@;
    let one = head + "  text chars  : "@ + text::decimal(words) + "\n"@ + "  think chars : "@
        + text::decimal(thoughts) + "\n"@;
    assert(one =~= head + sizes);
    let two = one + "  tool calls  : "@ + text::decimal(state.tools.len()) + " total  "@
        + text::decimal(count_of(state.tools, ToolCallStatus::Completed)) + " completed  "@
        + text::decimal(count_of(state.tools, ToolCallStatus::Failed)) + " failed\n"@;
    assert(two =~= one + calls);
    let three = two + tool_lines(state.tools);
    let four = three + "  permissions : "@ + text::decimal(state.asked) + " asked  "@
        + text::decimal(state.granted) + " granted  "@ + text::decimal(state.denied)
        + " denied\n"@;
    assert(four =~= three + permissions);
    let five = four + "\x1b[2m"@ + "────────────────────────────────────────────────"@
        + "\x1b[0m"@ + "\n"@;
    assert(five =~= four + foot);
    assert(summary(state) == five);
}

} // verus!
