//! Replaying the message history of a session to a client.
use vstd::hash_map::StringHashMap;
use vstd::prelude::*;

use crate::protocol;
use crate::protocol::{ContentBlock, SessionNotification, SessionUpdate, ToolCall, ToolCallStatus, ToolKind};
use crate::protocol::{ContentView, ToolCallView, UpdateView};
use crate::text;

verus! {

pub const BASH_TOOL_NAME: &'static str = "bash";

pub const BATCH_TOOL_NAME: &'static str = "batch";

pub const CODE_EXECUTION_TOOL_NAME: &'static str = "code_execution";

pub const EDIT_TOOL_NAME: &'static str = "edit";

pub const GLOB_TOOL_NAME: &'static str = "glob";

pub const GREP_TOOL_NAME: &'static str = "grep";

pub const MULTIEDIT_TOOL_NAME: &'static str = "multiedit";

pub const READ_TOOL_NAME: &'static str = "read";

pub const WRITE_TOOL_NAME: &'static str = "write";

/// Who a message is from.
#[derive(Clone, Copy, Debug, PartialEq, Eq, Structural)]
pub enum Role {
    User,
    Assistant,
}

/// A piece of a message between the agent and a model.
#[derive(Debug)]
pub enum ProviderBlock {
    Text { text: String },
    Thinking { thinking: String },
    ToolUse { id: String, name: String },
    ToolResult { tool_use_id: String, content: String, is_error: bool },
    /// A piece that is not replayed, such as an image.
    Other,
}

/// A message between the agent and a model.
#[derive(Debug)]
pub struct Message {
    pub role: Role,
    pub content: Vec<ProviderBlock>,
    /// What the user typed, in a message of the user. `None` where the user typed nothing: in a
    /// message that the agent made up, or one that only returns tool results.
    pub user_text: Option<String>,
}

/// The contents of a [`ProviderBlock`].
pub enum BlockView {
    Text { text: Seq<char> },
    Thinking { thinking: Seq<char> },
    ToolUse { id: Seq<char>, name: Seq<char> },
    ToolResult { tool_use_id: Seq<char>, content: Seq<char>, is_error: bool },
    Other,
}

/// The contents of a [`Message`].
pub struct MessageView {
    pub role: Role,
    pub content: Seq<BlockView>,
    pub user_text: Option<Seq<char>>,
}

impl View for ProviderBlock {
    type V = BlockView;

    open spec fn view(&self) -> BlockView {
        match self {
            ProviderBlock::Text { text } => BlockView::Text { text: text@ },
            ProviderBlock::Thinking { thinking } => BlockView::Thinking { thinking: thinking@ },
            ProviderBlock::ToolUse { id, name } => BlockView::ToolUse { id: id@, name: name@ },
            ProviderBlock::ToolResult { tool_use_id, content, is_error } => BlockView::ToolResult {
                tool_use_id: tool_use_id@,
                content: content@,
                is_error: *is_error,
            },
            ProviderBlock::Other => BlockView::Other,
        }
    }
}

/// The contents of a list of blocks.
pub open spec fn block_views(list: Seq<ProviderBlock>) -> Seq<BlockView> {
    list.map_values(|b: ProviderBlock| b@)
}

impl View for Message {
    type V = MessageView;

    open spec fn view(&self) -> MessageView {
        MessageView {
            role: self.role,
            content: block_views(self.content@),
            user_text: text::opt_text(self.user_text),
        }
    }
}

/// The contents of a list of messages.
pub open spec fn message_views(list: Seq<Message>) -> Seq<MessageView> {
    list.map_values(|m: Message| m@)
}

/// The kind of a tool, by its name.
pub open spec fn kind_of_tool(name: Seq<char>) -> ToolKind {
    if name == READ_TOOL_NAME@ || name == GLOB_TOOL_NAME@ || name == GREP_TOOL_NAME@ {
        ToolKind::Read
    } else if name == EDIT_TOOL_NAME@ || name == WRITE_TOOL_NAME@ || name == MULTIEDIT_TOOL_NAME@ {
        ToolKind::Edit
    } else if name == BASH_TOOL_NAME@ || name == BATCH_TOOL_NAME@ || name
        == CODE_EXECUTION_TOOL_NAME@ {
        ToolKind::Execute
    } else {
        ToolKind::Other
    }
}

/// The kind of a tool, by its name.
pub fn tool_kind(name: &str) -> (r: ToolKind)
    ensures
        r == kind_of_tool(name@),
{
    if text::str_eq(name, READ_TOOL_NAME) || text::str_eq(name, GLOB_TOOL_NAME) || text::str_eq(
        name,
        GREP_TOOL_NAME,
    ) {
        ToolKind::Read
    } else if text::str_eq(name, EDIT_TOOL_NAME) || text::str_eq(name, WRITE_TOOL_NAME)
        || text::str_eq(name, MULTIEDIT_TOOL_NAME) {
        ToolKind::Edit
    } else if text::str_eq(name, BASH_TOOL_NAME) || text::str_eq(name, BATCH_TOOL_NAME)
        || text::str_eq(name, CODE_EXECUTION_TOOL_NAME) {
        ToolKind::Execute
    } else {
        ToolKind::Other
    }
}

/// The last result of a tool call among some blocks: its text, and whether it is an error.
pub open spec fn result_among(blocks: Seq<BlockView>, id: Seq<char>) -> Option<(Seq<char>, bool)>
    decreases blocks.len(),
{
    if blocks.len() == 0 {
        None
    } else {
        match blocks.last() {
            BlockView::ToolResult { tool_use_id, content, is_error } if tool_use_id == id => Some(
                (content, is_error),
            ),
            _ => result_among(blocks.drop_last(), id),
        }
    }
}

/// The last result of a tool call in the messages of the user, to which tools report.
pub open spec fn result_of(messages: Seq<MessageView>, id: Seq<char>) -> Option<(Seq<char>, bool)>
    decreases messages.len(),
{
    if messages.len() == 0 {
        None
    } else {
        let last = messages.last();
        let here = if last.role == Role::User {
            result_among(last.content, id)
        } else {
            None
        };
        if here is Some {
            here
        } else {
            result_of(messages.drop_last(), id)
        }
    }
}

/// A tool call as it is replayed, given its result. One without a result counts as completed.
pub open spec fn replayed_call(
    id: Seq<char>,
    name: Seq<char>,
    result: Option<(Seq<char>, bool)>,
) -> ToolCallView {
    ToolCallView {
        tool_call_id: id,
        title: name,
        kind: kind_of_tool(name),
        status: match result {
            Some((_, true)) => ToolCallStatus::Failed,
            _ => ToolCallStatus::Completed,
        },
        raw_output: match result {
            Some((content, _)) => Some(content),
            None => None,
        },
    }
}

/// The update that replays a block of the assistant, if one does. `all` is the whole history.
pub open spec fn block_update(block: BlockView, all: Seq<MessageView>) -> Option<UpdateView> {
    match block {
        BlockView::Text { text } => if text.len() > 0 {
            Some(UpdateView::AgentMessageChunk(ContentView::Text(text)))
        } else {
            None
        },
        BlockView::Thinking { thinking } => Some(
            UpdateView::AgentThoughtChunk(ContentView::Text(thinking)),
        ),
        BlockView::ToolUse { id, name } => Some(
            UpdateView::ToolCall(replayed_call(id, name, result_of(all, id))),
        ),
        _ => None,
    }
}

/// The updates that replay the blocks of the assistant, in order.
pub open spec fn block_updates(blocks: Seq<BlockView>, all: Seq<MessageView>) -> Seq<UpdateView>
    decreases blocks.len(),
{
    if blocks.len() == 0 {
        seq![]
    } else {
        match block_update(blocks.last(), all) {
            Some(update) => block_updates(blocks.drop_last(), all).push(update),
            None => block_updates(blocks.drop_last(), all),
        }
    }
}

/// The updates that replay a message.
pub open spec fn message_updates(message: MessageView, all: Seq<MessageView>) -> Seq<UpdateView> {
    match message.role {
        Role::User => match message.user_text {
            Some(text) => if text.len() > 0 {
                seq![UpdateView::UserMessageChunk(ContentView::Text(text))]
            } else {
                seq![]
            },
            None => seq![],
        },
        Role::Assistant => block_updates(message.content, all),
    }
}

/// The updates that replay some messages of a history, in order.
pub open spec fn replay(messages: Seq<MessageView>, all: Seq<MessageView>) -> Seq<UpdateView>
    decreases messages.len(),
{
    if messages.len() == 0 {
        seq![]
    } else {
        replay(messages.drop_last(), all) + message_updates(messages.last(), all)
    }
}

type ResultMap<'a> = StringHashMap<(&'a String, bool)>;

/// Whether a map holds what a lookup function finds.
spec fn records(
    map: Map<Seq<char>, (&String, bool)>,
    found: spec_fn(Seq<char>) -> Option<(Seq<char>, bool)>,
) -> bool {
    forall|id: Seq<char>|
        #![trigger map.contains_key(id)]
        #![trigger found(id)]
        found(id) == if map.contains_key(id) {
            Some((map[id].0@, map[id].1))
        } else {
            None
        }
}

/// The results that the blocks of a message add to those of earlier messages.
spec fn with_blocks(
    earlier: spec_fn(Seq<char>) -> Option<(Seq<char>, bool)>,
    blocks: Seq<BlockView>,
) -> spec_fn(Seq<char>) -> Option<(Seq<char>, bool)> {
    |id: Seq<char>|
        if result_among(blocks, id) is Some {
            result_among(blocks, id)
        } else {
            earlier(id)
        }
}

/// Adds the results of a message of the user to those of earlier messages.
fn collect_results<'a>(
    blocks: &'a Vec<ProviderBlock>,
    results: &mut ResultMap<'a>,
    Ghost(earlier): Ghost<spec_fn(Seq<char>) -> Option<(Seq<char>, bool)>>,
)
    requires
        records(old(results)@, earlier),
    ensures
        records(final(results)@, with_blocks(earlier, block_views(blocks@))),
{
    let ghost all = block_views(blocks@);
    let mut i: usize = 0;
    while i < blocks.len()
        invariant
            i <= blocks@.len(),
            all == block_views(blocks@),
            records(results@, with_blocks(earlier, all.take(i as int))),
        decreases blocks@.len() - i,
    {
        let ghost before = results@;
        assert(all.take(i + 1).drop_last() =~= all.take(i as int));
        assert(all.take(i + 1).last() == blocks@[i as int]@);
        if let ProviderBlock::ToolResult { tool_use_id, content, is_error } = &blocks[i] {
            results.insert(tool_use_id.clone(), (content, *is_error));
        }
        assert(records(results@, with_blocks(earlier, all.take(i + 1)))) by {
            let found = with_blocks(earlier, all.take(i + 1));
            let previous = with_blocks(earlier, all.take(i as int));
            assert forall|id: Seq<char>|
                #![trigger results@.contains_key(id)]
                #![trigger found(id)]
                found(id) == if results@.contains_key(id) {
                    Some((results@[id].0@, results@[id].1))
                } else {
                    None
                } by {
                assert(previous(id) == if before.contains_key(id) {
                    Some((before[id].0@, before[id].1))
                } else {
                    None
                });
            }
        }
        i = i + 1;
    }
    assert(all.take(i as int) =~= all);
}

/// The last result of each tool call of a history.
fn results_of_history<'a>(messages: &'a Vec<Message>) -> (r: ResultMap<'a>)
    ensures
        records(r@, |id: Seq<char>| result_of(message_views(messages@), id)),
{
    let ghost all = message_views(messages@);
    let mut results: ResultMap<'a> = StringHashMap::new();
    let mut i: usize = 0;
    while i < messages.len()
        invariant
            i <= messages@.len(),
            all == message_views(messages@),
            records(results@, |id: Seq<char>| result_of(all.take(i as int), id)),
        decreases messages@.len() - i,
    {
        let ghost earlier = |id: Seq<char>| result_of(all.take(i as int), id);
        assert(all.take(i + 1).drop_last() =~= all.take(i as int));
        assert(all.take(i + 1).last() == messages@[i as int]@);
        match messages[i].role {
            Role::User => {
                collect_results(&messages[i].content, &mut results, Ghost(earlier));
                assert(with_blocks(earlier, messages@[i as int]@.content) =~= (|id: Seq<char>|
                    result_of(all.take(i + 1), id)));
            },
            Role::Assistant => {
                assert(earlier =~= (|id: Seq<char>| result_of(all.take(i + 1), id)));
            },
        }
        i = i + 1;
    }
    assert(all.take(i as int) =~= all);
    results
}

/// A tool call as it is replayed.
fn replay_call(id: &String, name: &String, result: Option<&(&String, bool)>) -> (r: ToolCall)
    ensures
        r@ == replayed_call(
            id@,
            name@,
            match result {
                Some(found) => Some((found.0@, found.1)),
                None => None,
            },
        ),
{
    let (status, raw_output) = match result {
        Some(found) => (
            if found.1 {
                ToolCallStatus::Failed
            } else {
                ToolCallStatus::Completed
            },
            Some(found.0.clone()),
        ),
        None => (ToolCallStatus::Completed, None),
    };
    ToolCall {
        tool_call_id: id.clone(),
        title: name.clone(),
        kind: tool_kind(name.as_str()),
        status,
        raw_output,
    }
}

/// Appends the updates that replay a message of the assistant.
fn replay_blocks<'a>(
    blocks: &Vec<ProviderBlock>,
    results: &ResultMap<'a>,
    out: &mut Vec<SessionUpdate>,
    Ghost(all): Ghost<Seq<MessageView>>,
)
    requires
        records(results@, |id: Seq<char>| result_of(all, id)),
    ensures
        protocol::updates(final(out)@) == protocol::updates(old(out)@) + block_updates(
            block_views(blocks@),
            all,
        ),
{
    let ghost views = block_views(blocks@);
    let ghost start = protocol::updates(out@);
    let mut i: usize = 0;
    assert(start + block_updates(views.take(0), all) =~= start);
    while i < blocks.len()
        invariant
            i <= blocks@.len(),
            views == block_views(blocks@),
            records(results@, |id: Seq<char>| result_of(all, id)),
            protocol::updates(out@) == start + block_updates(views.take(i as int), all),
        decreases blocks@.len() - i,
    {
        let ghost before = protocol::updates(out@);
        assert(views.take(i + 1).drop_last() =~= views.take(i as int));
        assert(views.take(i + 1).last() == blocks@[i as int]@);
        match &blocks[i] {
            ProviderBlock::Text { text } => {
                if !text.as_str().is_empty() {
                    out.push(SessionUpdate::AgentMessageChunk(ContentBlock::Text(text.clone())));
                }
            },
            ProviderBlock::Thinking { thinking } => {
                out.push(SessionUpdate::AgentThoughtChunk(ContentBlock::Text(thinking.clone())));
            },
            ProviderBlock::ToolUse { id, name } => {
                let ghost found = |id: Seq<char>| result_of(all, id);
                assert(found(id@) == result_of(all, id@));
                let call = replay_call(id, name, results.get(id.as_str()));
                out.push(SessionUpdate::ToolCall(call));
            },
            _ => {},
        }
        proof {
            match block_update(blocks@[i as int]@, all) {
                Some(update) => {
                    assert(protocol::updates(out@) =~= before.push(update));
                },
                None => {
                    assert(protocol::updates(out@) =~= before);
                },
            }
        }
        i = i + 1;
        assert(protocol::updates(out@) =~= start + block_updates(views.take(i as int), all));
    }
    assert(views.take(i as int) =~= views);
}

/// The updates that replay a history: the words of the user, and the words, the thoughts and the
/// tool calls of the assistant, each call with its last result.
pub fn history_to_updates(messages: &Vec<Message>) -> (r: Vec<SessionUpdate>)
    ensures
        protocol::updates(r@) == replay(message_views(messages@), message_views(messages@)),
{
    let ghost all = message_views(messages@);
    let results = results_of_history(messages);
    let mut out: Vec<SessionUpdate> = Vec::new();
    let mut i: usize = 0;
    assert(protocol::updates(out@) =~= replay(all.take(0), all));
    while i < messages.len()
        invariant
            i <= messages@.len(),
            all == message_views(messages@),
            records(results@, |id: Seq<char>| result_of(all, id)),
            protocol::updates(out@) == replay(all.take(i as int), all),
        decreases messages@.len() - i,
    {
        let ghost before = protocol::updates(out@);
        assert(all.take(i + 1).drop_last() =~= all.take(i as int));
        assert(all.take(i + 1).last() == messages@[i as int]@);
        match messages[i].role {
            Role::User => {
                if let Some(text) = &messages[i].user_text {
                    if !text.as_str().is_empty() {
                        out.push(SessionUpdate::UserMessageChunk(ContentBlock::Text(text.clone())));
                    }
                }
            },
            Role::Assistant => {
                replay_blocks(&messages[i].content, &results, &mut out, Ghost(all));
            },
        }
        assert(protocol::updates(out@) =~= before + message_updates(messages@[i as int]@, all));
        i = i + 1;
    }
    assert(all.take(i as int) =~= all);
    out
}

/// The notifications that replay a history to the client of a session.
pub fn replay_history(messages: &Vec<Message>, session_id: &str) -> (r: Vec<SessionNotification>)
    ensures
        r@.len() == replay(message_views(messages@), message_views(messages@)).len(),
        forall|i: int|
            0 <= i < r@.len() ==> (#[trigger] r@[i]).session_id@ == session_id@ && r@[i].update@
                == replay(message_views(messages@), message_views(messages@))[i],
{
    let ghost expected = replay(message_views(messages@), message_views(messages@));
    let updates = history_to_updates(messages);
    let ghost views = protocol::updates(updates@);
    let mut out: Vec<SessionNotification> = Vec::new();
    for update in it: updates
        invariant
            views == expected,
            views == protocol::updates(it.seq()),
            out@.len() == it.index(),
            forall|i: int|
                0 <= i < out@.len() ==> (#[trigger] out@[i]).session_id@ == session_id@
                    && out@[i].update@ == expected[i],
    {
        assert(views[it.index() as int] == update@);
        out.push(protocol::session_update(session_id, update));
    }
    out
}

/// Whether an update is one that a replay can hold: a chunk of text, or a tool call that is over.
pub open spec fn is_replayed(update: UpdateView) -> bool {
    match update {
        UpdateView::UserMessageChunk(ContentView::Text(text)) => text.len() > 0,
        UpdateView::AgentMessageChunk(ContentView::Text(text)) => text.len() > 0,
        UpdateView::AgentThoughtChunk(ContentView::Text(_)) => true,
        UpdateView::ToolCall(call) => {
            ||| call.status == ToolCallStatus::Completed
            ||| call.status == ToolCallStatus::Failed && call.raw_output is Some
        },
        _ => false,
    }
}

proof fn lemma_blocks_replayed(blocks: Seq<BlockView>, all: Seq<MessageView>)
    ensures
        forall|i: int|
            0 <= i < block_updates(blocks, all).len() ==> is_replayed(
                #[trigger] block_updates(blocks, all)[i],
            ),
    decreases blocks.len(),
{
    if blocks.len() > 0 {
        let earlier = block_updates(blocks.drop_last(), all);
        lemma_blocks_replayed(blocks.drop_last(), all);
        assert forall|i: int| 0 <= i < block_updates(blocks, all).len() implies is_replayed(
            #[trigger] block_updates(blocks, all)[i],
        ) by {
            if i < earlier.len() {
                assert(block_updates(blocks, all)[i] == earlier[i]);
            }
        }
    }
}

/// A replay holds only non-empty words, thoughts and tool calls that are over: no call is pending
/// or in progress, and one that failed has the output that it failed with.
pub proof fn replayed_calls_are_over(messages: Seq<MessageView>, all: Seq<MessageView>)
    ensures
        forall|i: int|
            0 <= i < replay(messages, all).len() ==> is_replayed(
                #[trigger] replay(messages, all)[i],
            ),
    decreases messages.len(),
{
    if messages.len() > 0 {
        let earlier = replay(messages.drop_last(), all);
        let last = message_updates(messages.last(), all);
        replayed_calls_are_over(messages.drop_last(), all);
        lemma_blocks_replayed(messages.last().content, all);
        assert forall|i: int| 0 <= i < replay(messages, all).len() implies is_replayed(
            #[trigger] replay(messages, all)[i],
        ) by {
            if i < earlier.len() {
                assert(replay(messages, all)[i] == earlier[i]);
            } else {
                assert(replay(messages, all)[i] == last[i - earlier.len()]);
            }
        }
    }
}

/// A replay goes through a history in order: first all of its beginning, then all of the rest.
pub proof fn replay_keeps_order(
    first: Seq<MessageView>,
    rest: Seq<MessageView>,
    all: Seq<MessageView>,
)
    ensures
        replay(first + rest, all) == replay(first, all) + replay(rest, all),
    decreases rest.len(),
{
    if rest.len() == 0 {
        assert(first + rest =~= first);
        assert(replay(first, all) + replay(rest, all) =~= replay(first, all));
    } else {
        replay_keeps_order(first, rest.drop_last(), all);
        assert((first + rest).drop_last() =~= first + rest.drop_last());
        assert(replay(first + rest, all) =~= replay(first, all) + replay(rest, all));
    }
}

/// A message of the user without typed text, such as one that only returns tool results, adds
/// nothing to a replay of its own.
pub proof fn untyped_messages_are_not_replayed(message: MessageView, all: Seq<MessageView>)
    requires
        message.role == Role::User,
        message.user_text is None,
    ensures
        message_updates(message, all) == Seq::<UpdateView>::empty(),
{
}

/// The last report of a tool call is the one that counts.
pub proof fn last_result_counts(
    earlier: Seq<MessageView>,
    message: MessageView,
    later: Seq<MessageView>,
    id: Seq<char>,
    content: Seq<char>,
    is_error: bool,
)
    requires
        message.role == Role::User,
        result_among(message.content, id) == Some((content, is_error)),
        result_of(later, id) is None,
    ensures
        result_of(earlier.push(message) + later, id) == Some((content, is_error)),
    decreases later.len(),
{
    let whole = earlier.push(message) + later;
    if later.len() == 0 {
        assert(whole =~= earlier.push(message));
        assert(whole.drop_last() =~= earlier);
    } else {
        last_result_counts(earlier, message, later.drop_last(), id, content, is_error);
        assert(whole.drop_last() =~= earlier.push(message) + later.drop_last());
        assert(whole.last() == later.last());
    }
}

proof fn lemma_block_replayed(blocks: Seq<BlockView>, all: Seq<MessageView>, j: int)
    requires
        0 <= j < blocks.len(),
        block_update(blocks[j], all) is Some,
    ensures
        block_updates(blocks, all).contains(block_update(blocks[j], all)->0),
    decreases blocks.len(),
{
    let init = blocks.drop_last();
    let wanted = block_update(blocks[j], all)->0;
    let whole = block_updates(blocks, all);
    if j == blocks.len() - 1 {
        assert(whole[whole.len() - 1] == wanted);
    } else {
        lemma_block_replayed(init, all, j);
        let earlier = block_updates(init, all);
        let k = choose|k: int| 0 <= k < earlier.len() && earlier[k] == wanted;
        assert(whole[k] == wanted);
    }
}

/// Nothing of a history is lost: what the user typed, and the words, thoughts and tool calls of
/// the assistant, are all in its replay, each call with its last result.
pub proof fn everything_is_replayed(messages: Seq<MessageView>, all: Seq<MessageView>, i: int)
    requires
        0 <= i < messages.len(),
    ensures
        messages[i].role == Role::User && (messages[i].user_text matches Some(text)
            && text.len() > 0) ==> replay(messages, all).contains(
            UpdateView::UserMessageChunk(ContentView::Text(messages[i].user_text->0)),
        ),
        messages[i].role == Role::Assistant ==> forall|j: int|
            0 <= j < messages[i].content.len() && block_update(
                #[trigger] messages[i].content[j],
                all,
            ) is Some ==> replay(messages, all).contains(
                block_update(messages[i].content[j], all)->0,
            ),
    decreases messages.len(),
{
    let earlier = replay(messages.drop_last(), all);
    let last = message_updates(messages.last(), all);
    let whole = replay(messages, all);
    assert(whole == earlier + last);
    if i < messages.len() - 1 {
        everything_is_replayed(messages.drop_last(), all, i);
        assert(messages.drop_last()[i] == messages[i]);
        assert forall|u: UpdateView| #[trigger] earlier.contains(u) implies whole.contains(u) by {
            let k = choose|k: int| 0 <= k < earlier.len() && earlier[k] == u;
            assert(whole[k] == u);
        }
    } else {
        assert forall|u: UpdateView| #[trigger] last.contains(u) implies whole.contains(u) by {
            let k = choose|k: int| 0 <= k < last.len() && last[k] == u;
            assert(whole[earlier.len() + k] == u);
        }
        if messages[i].role == Role::User {
            if let Some(text) = messages[i].user_text {
                if text.len() > 0 {
                    assert(last[0] == UpdateView::UserMessageChunk(ContentView::Text(text)));
                    assert(last.contains(last[0]));
                }
            }
        } else {
            assert forall|j: int|
                0 <= j < messages[i].content.len() && block_update(
                    #[trigger] messages[i].content[j],
                    all,
                ) is Some implies whole.contains(
                block_update(messages[i].content[j], all)->0,
            ) by {
                lemma_block_replayed(messages[i].content, all, j);
            }
        }
    }
}

/// The kind of a tool goes by its whole name: three tools read, three edit, three execute, and every
/// other one is of no such kind.
pub proof fn tools_are_of_three_kinds(name: Seq<char>)
    ensures
        kind_of_tool(name) == ToolKind::Read <==> (name == "read"@ || name == "glob"@ || name
            == "grep"@),
        kind_of_tool(name) == ToolKind::Edit <==> (name == "edit"@ || name == "write"@ || name
            == "multiedit"@),
        kind_of_tool(name) == ToolKind::Execute <==> (name == "bash"@ || name == "batch"@ || name
            == "code_execution"@),
        kind_of_tool(name) == ToolKind::Read || kind_of_tool(name) == ToolKind::Edit
            || kind_of_tool(name) == ToolKind::Execute || kind_of_tool(name) == ToolKind::Other,
{
    reveal_strlit("read");
    reveal_strlit("glob");
    reveal_strlit("grep");
    reveal_strlit("edit");
    reveal_strlit("write");
    reveal_strlit("multiedit");
    reveal_strlit("bash");
    reveal_strlit("batch");
    reveal_strlit("code_execution");
    assert("read"@[0] == 'r' && "glob"@[1] == 'l' && "grep"@[1] == 'r' && "edit"@[0] == 'e');
    assert("write"@[0] == 'w' && "multiedit"@[0] == 'm' && "bash"@[0] == 'b');
    assert("batch"@[0] == 'b' && "code_execution"@[0] == 'c' && "glob"@[0] == 'g');
    assert("grep"@[0] == 'g');
}

/// The contents of a message are its role, the contents of its blocks one by one and what the user
/// typed.
pub proof fn messages_are_what_they_hold(
    message: Message,
    messages: Seq<Message>,
    block: ProviderBlock,
)
    ensures
        message@.role == message.role,
        message@.content.len() == message.content@.len(),
        forall|i: int|
            0 <= i < message.content@.len() ==> #[trigger] message@.content[i]
                == message.content@[i]@,
        message@.user_text is Some <==> message.user_text is Some,
        message.user_text matches Some(text) ==> message@.user_text == Some(text@),
        message_views(messages).len() == messages.len(),
        forall|i: int| 0 <= i < messages.len() ==> #[trigger] message_views(messages)[i]
            == messages[i]@,
        block matches ProviderBlock::Text { text } ==> block@ == (BlockView::Text { text: text@ }),
        block matches ProviderBlock::Thinking { thinking } ==> block@ == (BlockView::Thinking {
            thinking: thinking@,
        }),
        block matches ProviderBlock::ToolUse { id, name } ==> block@ == (BlockView::ToolUse {
            id: id@,
            name: name@,
        }),
        block matches ProviderBlock::ToolResult { tool_use_id, content, is_error } ==> block@ == (
        BlockView::ToolResult { tool_use_id: tool_use_id@, content: content@, is_error }),
        block is Other ==> block@ is Other,
{
}

proof fn lemma_result_among(blocks: Seq<BlockView>, id: Seq<char>, b: int)
    requires
        0 <= b < blocks.len(),
        blocks[b] is ToolResult && blocks[b]->tool_use_id == id,
        forall|k: int|
            b < k < blocks.len() && (#[trigger] blocks[k]) is ToolResult ==> blocks[k]->tool_use_id
                != id,
    ensures
        result_among(blocks, id) == Some(
            (blocks[b]->ToolResult_content, blocks[b]->ToolResult_is_error),
        ),
    decreases blocks.len(),
{
    let init = blocks.drop_last();
    if b < init.len() {
        assert(blocks[blocks.len() - 1] is ToolResult ==> blocks[blocks.len() - 1]->tool_use_id
            != id);
        assert forall|k: int| b < k < init.len() && (#[trigger] init[k]) is ToolResult implies init[
        k]->tool_use_id != id by {
            assert(init[k] == blocks[k]);
        }
        lemma_result_among(init, id, b);
    }
}

proof fn lemma_no_result_among(blocks: Seq<BlockView>, id: Seq<char>)
    requires
        forall|k: int|
            0 <= k < blocks.len() && (#[trigger] blocks[k]) is ToolResult ==> blocks[k]->tool_use_id
                != id,
    ensures
        result_among(blocks, id) is None,
    decreases blocks.len(),
{
    if blocks.len() > 0 {
        let init = blocks.drop_last();
        assert(blocks[blocks.len() - 1] is ToolResult ==> blocks[blocks.len() - 1]->tool_use_id
            != id);
        assert forall|k: int| 0 <= k < init.len() && (#[trigger] init[k]) is ToolResult implies init[
        k]->tool_use_id != id by {
            assert(init[k] == blocks[k]);
        }
        lemma_no_result_among(init, id);
    }
}

/// The result of a tool call is what its last report in a message of the user says.
pub proof fn results_are_the_last_reports(
    messages: Seq<MessageView>,
    id: Seq<char>,
    m: int,
    b: int,
    content: Seq<char>,
    is_error: bool,
)
    requires
        0 <= m < messages.len(),
        messages[m].role == Role::User,
        0 <= b < messages[m].content.len(),
        messages[m].content[b] == (BlockView::ToolResult { tool_use_id: id, content, is_error }),
        forall|k: int|
            b < k < messages[m].content.len() && (#[trigger] messages[m].content[k]) is ToolResult
                ==> messages[m].content[k]->tool_use_id != id,
        forall|j: int, k: int|
            m < j < messages.len() && messages[j].role == Role::User && 0 <= k
                < messages[j].content.len() && (#[trigger] messages[j].content[k]) is ToolResult
                ==> messages[j].content[k]->tool_use_id != id,
    ensures
        result_of(messages, id) == Some((content, is_error)),
    decreases messages.len(),
{
    let last = messages.len() - 1;
    let init = messages.drop_last();
    if m == last {
        lemma_result_among(messages[m].content, id, b);
    } else {
        if messages[last].role == Role::User {
            assert forall|k: int|
                0 <= k < messages[last].content.len() && (
                #[trigger] messages[last].content[k]) is ToolResult implies messages[
            last].content[k]->tool_use_id != id by {
            }
            lemma_no_result_among(messages[last].content, id);
        }
        assert(init[m] == messages[m]);
        assert forall|j: int, k: int|
            m < j < init.len() && init[j].role == Role::User && 0 <= k < init[j].content.len() && (
            #[trigger] init[j].content[k]) is ToolResult implies init[j].content[k]->tool_use_id
            != id by {
            assert(init[j] == messages[j]);
            assert(messages[j].content[k] is ToolResult);
        }
        results_are_the_last_reports(init, id, m, b, content, is_error);
    }
}

/// A tool call that no message of the user reports on has no result.
pub proof fn unreported_calls_have_no_result(messages: Seq<MessageView>, id: Seq<char>)
    requires
        forall|j: int, k: int|
            0 <= j < messages.len() && messages[j].role == Role::User && 0 <= k
                < messages[j].content.len() && (#[trigger] messages[j].content[k]) is ToolResult
                ==> messages[j].content[k]->tool_use_id != id,
    ensures
        result_of(messages, id) is None,
    decreases messages.len(),
{
    if messages.len() > 0 {
        let last = messages.len() - 1;
        let init = messages.drop_last();
        if messages[last].role == Role::User {
            assert forall|k: int|
                0 <= k < messages[last].content.len() && (
                #[trigger] messages[last].content[k]) is ToolResult implies messages[
            last].content[k]->tool_use_id != id by {
            }
            lemma_no_result_among(messages[last].content, id);
        }
        assert forall|j: int, k: int|
            0 <= j < init.len() && init[j].role == Role::User && 0 <= k < init[j].content.len() && (
            #[trigger] init[j].content[k]) is ToolResult implies init[j].content[k]->tool_use_id
            != id by {
            assert(init[j] == messages[j]);
            assert(messages[j].content[k] is ToolResult);
        }
        unreported_calls_have_no_result(init, id);
    }
}

/// A tool call of the assistant is replayed with the text of its last report as its output,
/// whether that is an error or not, and as failed exactly where it is one.
pub proof fn reported_calls_are_replayed_with_their_output(
    messages: Seq<MessageView>,
    a: int,
    c: int,
    id: Seq<char>,
    name: Seq<char>,
    m: int,
    b: int,
    content: Seq<char>,
    is_error: bool,
)
    requires
        0 <= a < messages.len(),
        messages[a].role == Role::Assistant,
        0 <= c < messages[a].content.len(),
        messages[a].content[c] == (BlockView::ToolUse { id, name }),
        0 <= m < messages.len(),
        messages[m].role == Role::User,
        0 <= b < messages[m].content.len(),
        messages[m].content[b] == (BlockView::ToolResult { tool_use_id: id, content, is_error }),
        forall|k: int|
            b < k < messages[m].content.len() && (#[trigger] messages[m].content[k]) is ToolResult
                ==> messages[m].content[k]->tool_use_id != id,
        forall|j: int, k: int|
            m < j < messages.len() && messages[j].role == Role::User && 0 <= k
                < messages[j].content.len() && (#[trigger] messages[j].content[k]) is ToolResult
                ==> messages[j].content[k]->tool_use_id != id,
    ensures
        replay(messages, messages).contains(
            UpdateView::ToolCall(
                ToolCallView {
                    tool_call_id: id,
                    title: name,
                    kind: kind_of_tool(name),
                    status: if is_error {
                        ToolCallStatus::Failed
                    } else {
                        ToolCallStatus::Completed
                    },
                    raw_output: Some(content),
                },
            ),
        ),
{
    results_are_the_last_reports(messages, id, m, b, content, is_error);
    everything_is_replayed(messages, messages, a);
    let block = messages[a].content[c];
    assert(block_update(block, messages) is Some);
}

/// A tool call of the assistant without a report is replayed as completed, without an output.
pub proof fn unreported_calls_are_replayed_as_completed(
    messages: Seq<MessageView>,
    a: int,
    c: int,
    id: Seq<char>,
    name: Seq<char>,
)
    requires
        0 <= a < messages.len(),
        messages[a].role == Role::Assistant,
        0 <= c < messages[a].content.len(),
        messages[a].content[c] == (BlockView::ToolUse { id, name }),
        forall|j: int, k: int|
            0 <= j < messages.len() && messages[j].role == Role::User && 0 <= k
                < messages[j].content.len() && (#[trigger] messages[j].content[k]) is ToolResult
                ==> messages[j].content[k]->tool_use_id != id,
    ensures
        replay(messages, messages).contains(
            UpdateView::ToolCall(
                ToolCallView {
                    tool_call_id: id,
                    title: name,
                    kind: kind_of_tool(name),
                    status: ToolCallStatus::Completed,
                    raw_output: None,
                },
            ),
        ),
{
    unreported_calls_have_no_result(messages, id);
    everything_is_replayed(messages, messages, a);
    let block = messages[a].content[c];
    assert(block_update(block, messages) is Some);
}

/// A message is replayed by itself, and an empty history gives nothing. A message of the user gives
/// what was typed, if anything was, and nothing of its blocks. A message of the assistant gives its
/// blocks one after the other.
pub proof fn messages_are_replayed_by_their_role(
    message: MessageView,
    first: Seq<BlockView>,
    rest: Seq<BlockView>,
    all: Seq<MessageView>,
)
    ensures
        replay(Seq::<MessageView>::empty(), all) == Seq::<UpdateView>::empty(),
        message.role == Role::User ==> (match message.user_text {
            Some(text) => if text.len() > 0 {
                replay(seq![message], all) == seq![
                    UpdateView::UserMessageChunk(ContentView::Text(text)),
                ]
            } else {
                replay(seq![message], all).len() == 0
            },
            None => replay(seq![message], all).len() == 0,
        }),
        message.role == Role::Assistant && message.content == first + rest ==> replay(
            seq![message],
            all,
        ) == replay(seq![MessageView { content: first, ..message }], all) + replay(
            seq![MessageView { content: rest, ..message }],
            all,
        ),
        message.role == Role::Assistant && message.content.len() == 0 ==> replay(
            seq![message],
            all,
        ).len() == 0,
{
    lemma_replay_one(message, all);
    lemma_replay_one(MessageView { content: first, ..message }, all);
    lemma_replay_one(MessageView { content: rest, ..message }, all);
    lemma_blocks_in_order(first, rest, all);
}

proof fn lemma_replay_one(message: MessageView, all: Seq<MessageView>)
    ensures
        replay(seq![message], all) == message_updates(message, all),
{
    let one = seq![message];
    assert(one.drop_last() =~= seq![]);
    assert(replay(one.drop_last(), all) =~= seq![]);
    assert(replay(one, all) =~= message_updates(message, all));
}

proof fn lemma_blocks_in_order(first: Seq<BlockView>, rest: Seq<BlockView>, all: Seq<MessageView>)
    ensures
        block_updates(first + rest, all) == block_updates(first, all) + block_updates(rest, all),
    decreases rest.len(),
{
    if rest.len() == 0 {
        assert(first + rest =~= first);
    } else {
        lemma_blocks_in_order(first, rest.drop_last(), all);
        assert((first + rest).drop_last() =~= first + rest.drop_last());
    }
    assert(block_updates(first + rest, all) =~= block_updates(first, all) + block_updates(
        rest,
        all,
    ));
}

/// A message of the assistant that is one block gives its words unless they are empty, its
/// thoughts, or one tool call of that id and name; a result or another block gives nothing.
pub proof fn blocks_are_replayed_as_what_they_are(message: MessageView, all: Seq<MessageView>)
    requires
        message.role == Role::Assistant,
        message.content.len() == 1,
    ensures
        ({
            let given = replay(seq![message], all);
            match message.content[0] {
                BlockView::Text { text } => if text.len() > 0 {
                    given == seq![UpdateView::AgentMessageChunk(ContentView::Text(text))]
                } else {
                    given.len() == 0
                },
                BlockView::Thinking { thinking } => given == seq![
                    UpdateView::AgentThoughtChunk(ContentView::Text(thinking)),
                ],
                BlockView::ToolUse { id, name } => given.len() == 1 && (
                given[0] matches UpdateView::ToolCall(call) && call.tool_call_id == id
                    && call.title == name && call.kind == kind_of_tool(name) && (
                match result_of(all, id) {
                    Some((content, is_error)) => call.raw_output == Some(content) && call.status
                        == if is_error {
                        ToolCallStatus::Failed
                    } else {
                        ToolCallStatus::Completed
                    },
                    None => call.raw_output is None && call.status == ToolCallStatus::Completed,
                })),
                _ => given.len() == 0,
            }
        }),
{
    lemma_replay_one(message, all);
    let blocks = message.content;
    assert(blocks.drop_last() =~= seq![]);
    assert(block_updates(blocks.drop_last(), all) =~= seq![]);
    match block_update(blocks.last(), all) {
        Some(update) => {
            assert(block_updates(blocks, all) =~= seq![update]);
        },
        None => {
            assert(block_updates(blocks, all) =~= seq![]);
        },
    }
}


} // verus!
