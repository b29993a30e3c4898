//! The sessions that are open on a connection.
//!
//! A prompt turn in progress is known by a number. A session holds the number of its running turn;
//! when the session lets go of it, whoever holds the trigger of that turn must fire it, and the
//! operations return the number for that.
use vstd::prelude::*;

use crate::modes;
use crate::modes::{AgentMode, Directory, SessionModeState, StoredMode};
use crate::names;
use crate::protocol::RequestError;
use crate::text;

verus! {

/// An open session. `H` is the message history of its agent.
#[derive(Debug)]
pub struct SessionState<H> {
    pub history: H,
    pub cwd: Directory,
    /// The running turn.
    pub cancel: Option<u64>,
    pub mode: AgentMode,
}

/// The contents of a [`SessionState`].
pub struct SessionView<H> {
    pub history: H,
    pub cwd: modes::DirectoryView,
    pub cancel: Option<u64>,
    pub mode: modes::ModeView,
}

impl<H> View for SessionState<H> {
    type V = SessionView<H>;

    open spec fn view(&self) -> SessionView<H> {
        SessionView {
            history: self.history,
            cwd: self.cwd@,
            cancel: self.cancel,
            mode: self.mode@,
        }
    }
}

struct Entry<H> {
    id: String,
    state: SessionState<H>,
}

/// The open sessions of a connection, by id.
pub struct SessionTable<H> {
    entries: Vec<Entry<H>>,
}

impl<H> View for SessionTable<H> {
    type V = Map<Seq<char>, SessionView<H>>;

    closed spec fn view(&self) -> Map<Seq<char>, SessionView<H>> {
        Map::new(
            |id: Seq<char>| exists|i: int| holds_at(self.entries@, id, i),
            |id: Seq<char>| self.entries@[choose|i: int| holds_at(self.entries@, id, i)].state@,
        )
    }
}

spec fn holds_at<H>(entries: Seq<Entry<H>>, id: Seq<char>, i: int) -> bool {
    0 <= i < entries.len() && entries[i].id@ == id
}

/// The running turn of a session, if the session is open and has one.
pub open spec fn running<H>(table: Map<Seq<char>, SessionView<H>>, id: Seq<char>) -> Option<u64> {
    if table.contains_key(id) {
        table[id].cancel
    } else {
        None
    }
}

/// A session that has just been opened.
pub open spec fn fresh<H>(history: H, cwd: modes::DirectoryView, mode: modes::ModeView) -> SessionView<H> {
    SessionView { history, cwd, cancel: None, mode }
}

/// The sessions after a turn has begun in one of them.
pub open spec fn turn_begun<H>(
    table: Map<Seq<char>, SessionView<H>>,
    id: Seq<char>,
    turn: u64,
) -> Map<Seq<char>, SessionView<H>> {
    if table.contains_key(id) {
        table.insert(id, SessionView { cancel: Some(turn), ..table[id] })
    } else {
        table
    }
}

/// The sessions after one of them has let go of its turn, with the history that the turn left.
pub open spec fn turn_ended<H>(
    table: Map<Seq<char>, SessionView<H>>,
    id: Seq<char>,
    history: Option<H>,
) -> Map<Seq<char>, SessionView<H>> {
    if table.contains_key(id) {
        table.insert(
            id,
            SessionView {
                cancel: None,
                history: match history {
                    Some(h) => h,
                    None => table[id].history,
                },
                ..table[id]
            },
        )
    } else {
        table
    }
}

/// How a request to switch modes is answered.
pub open spec fn mode_answer<H>(
    table: Map<Seq<char>, SessionView<H>>,
    id: Seq<char>,
    mode_id: Seq<char>,
) -> Result<(), RequestError> {
    if !table.contains_key(id) {
        Err(RequestError::UnknownSession)
    } else if modes::mode_of_id(mode_id, table[id].cwd) is None {
        Err(RequestError::UnknownModeId)
    } else {
        Ok(())
    }
}

/// The sessions after a request to switch modes. One that is refused changes nothing.
pub open spec fn mode_set<H>(
    table: Map<Seq<char>, SessionView<H>>,
    id: Seq<char>,
    mode_id: Seq<char>,
) -> Map<Seq<char>, SessionView<H>> {
    if mode_answer(table, id, mode_id) is Ok {
        table.insert(
            id,
            SessionView { mode: modes::mode_of_id(mode_id, table[id].cwd)->0, ..table[id] },
        )
    } else {
        table
    }
}

impl<H> SessionTable<H> {
    /// No id occurs twice, and every session that is planning plans into the plan file of its
    /// working directory.
    pub closed spec fn wf(&self) -> bool {
        &&& forall|i: int, j: int|
            #![trigger self.entries@[i], self.entries@[j]]
            0 <= i < j < self.entries@.len() ==> self.entries@[i].id@ != self.entries@[j].id@
        &&& forall|i: int|
            0 <= i < self.entries@.len() ==> modes::plans_in(
                (#[trigger] self.entries@[i]).state.mode@,
                self.entries@[i].state.cwd@,
            )
    }

    proof fn lemma_lookup(&self, i: int)
        requires
            self.wf(),
            0 <= i < self.entries@.len(),
        ensures
            self@.contains_key(self.entries@[i].id@),
            self@[self.entries@[i].id@] == self.entries@[i].state@,
    {
        let id = self.entries@[i].id@;
        assert(holds_at(self.entries@, id, i));
        let j = choose|j: int| holds_at(self.entries@, id, j);
        assert(holds_at(self.entries@, id, j));
        assert(i == j);
    }

    /// A table without sessions.
    pub fn new() -> (r: Self)
        ensures
            r.wf(),
            r@ == Map::<Seq<char>, SessionView<H>>::empty(),
    {
        let r = SessionTable { entries: Vec::new() };
        assert(r@ =~= Map::<Seq<char>, SessionView<H>>::empty());
        r
    }

    fn find(&self, id: &str) -> (r: Option<usize>)
        requires
            self.wf(),
        ensures
            match r {
                Some(i) => i < self.entries@.len() && self.entries@[i as int].id@ == id@
                    && self@.contains_key(id@) && self@[id@] == self.entries@[i as int].state@,
                None => !self@.contains_key(id@),
            },
    {
        let mut i: usize = 0;
        while i < self.entries.len()
            invariant
                self.wf(),
                i <= self.entries@.len(),
                forall|k: int| 0 <= k < i ==> (#[trigger] self.entries@[k]).id@ != id@,
            decreases self.entries@.len() - i,
        {
            if text::str_eq(self.entries[i].id.as_str(), id) {
                proof {
                    self.lemma_lookup(i as int);
                }
                return Some(i);
            }
            i = i + 1;
        }
        None
    }

    /// The state of a session, or `None` where no such session is open.
    pub fn get(&self, id: &str) -> (r: Option<&SessionState<H>>)
        requires
            self.wf(),
        ensures
            match r {
                Some(state) => self@.contains_key(id@) && state@ == self@[id@],
                None => !self@.contains_key(id@),
            },
    {
        match self.find(id) {
            Some(i) => Some(&self.entries[i].state),
            None => None,
        }
    }

    /// Changing the state at one position changes the session there and no other.
    proof fn lemma_changed(before: Self, after: Self, i: int)
        requires
            before.wf(),
            0 <= i < before.entries@.len(),
            after.entries@.len() == before.entries@.len(),
            forall|k: int|
                0 <= k < after.entries@.len() && k != i ==> #[trigger] after.entries@[k]
                    == before.entries@[k],
            after.entries@[i].id@ == before.entries@[i].id@,
            modes::plans_in(after.entries@[i].state.mode@, after.entries@[i].state.cwd@),
        ensures
            after.wf(),
            after@ == before@.insert(before.entries@[i].id@, after.entries@[i].state@),
    {
        let expected = before@.insert(before.entries@[i].id@, after.entries@[i].state@);
        assert forall|j: int, k: int|
            #![trigger after.entries@[j], after.entries@[k]]
            0 <= j < k < after.entries@.len() implies after.entries@[j].id@
            != after.entries@[k].id@ by {
            assert(before.entries@[j].id@ != before.entries@[k].id@);
        }
        assert(after.wf());
        after.lemma_lookup(i);
        assert forall|k: Seq<char>| after@.contains_key(k) == #[trigger] expected.contains_key(
            k,
        ) by {
            if before@.contains_key(k) {
                let j = choose|j: int| holds_at(before.entries@, k, j);
                assert(holds_at(after.entries@, k, j));
            }
            if after@.contains_key(k) {
                let j = choose|j: int| holds_at(after.entries@, k, j);
                assert(holds_at(before.entries@, k, j));
            }
        }
        assert forall|k: Seq<char>| #[trigger] after@.contains_key(k) implies after@[k]
            == expected[k] by {
            let j = choose|j: int| holds_at(after.entries@, k, j);
            assert(holds_at(after.entries@, k, j));
            after.lemma_lookup(j);
            before.lemma_lookup(j);
        }
        assert(after@ =~= expected);
    }

    /// Adding a session under an id that is not taken.
    proof fn lemma_added(before: Self, after: Self)
        requires
            before.wf(),
            after.entries@.len() == before.entries@.len() + 1,
            after.entries@.drop_last() == before.entries@,
            !before@.contains_key(after.entries@.last().id@),
            modes::plans_in(after.entries@.last().state.mode@, after.entries@.last().state.cwd@),
        ensures
            after.wf(),
            after@ == before@.insert(after.entries@.last().id@, after.entries@.last().state@),
    {
        let n = before.entries@.len() as int;
        let id = after.entries@[n].id@;
        let expected = before@.insert(id, after.entries@[n].state@);
        assert forall|j: int| 0 <= j < n implies #[trigger] after.entries@[j] == before.entries@[j]
            && after.entries@[j].id@ != id by {
            assert(after.entries@.drop_last()[j] == after.entries@[j]);
            before.lemma_lookup(j);
        }
        assert forall|j: int, k: int|
            #![trigger after.entries@[j], after.entries@[k]]
            0 <= j < k < after.entries@.len() implies after.entries@[j].id@
            != after.entries@[k].id@ by {
            if k < n {
                assert(before.entries@[j].id@ != before.entries@[k].id@);
            }
        }
        assert(after.wf());
        after.lemma_lookup(n);
        assert forall|k: Seq<char>| after@.contains_key(k) == #[trigger] expected.contains_key(
            k,
        ) by {
            if before@.contains_key(k) {
                let j = choose|j: int| holds_at(before.entries@, k, j);
                assert(holds_at(after.entries@, k, j));
            }
            if after@.contains_key(k) {
                let j = choose|j: int| holds_at(after.entries@, k, j);
                if j < n {
                    assert(holds_at(before.entries@, k, j));
                }
            }
        }
        assert forall|k: Seq<char>| #[trigger] after@.contains_key(k) implies after@[k]
            == expected[k] by {
            let j = choose|j: int| holds_at(after.entries@, k, j);
            assert(holds_at(after.entries@, k, j));
            after.lemma_lookup(j);
            if j < n {
                before.lemma_lookup(j);
            }
        }
        assert(after@ =~= expected);
    }

    /// Puts a session into the table, in the place of one of the same id, and returns the turn
    /// that the latter was running.
    fn put(&mut self, id: String, state: SessionState<H>) -> (r: Option<u64>)
        requires
            old(self).wf(),
            modes::plans_in(state.mode@, state.cwd@),
        ensures
            final(self).wf(),
            final(self)@ == old(self)@.insert(id@, state@),
            r == running(old(self)@, id@),
    {
        let ghost before = *self;
        match self.find(id.as_str()) {
            Some(i) => {
                let fired = self.entries[i].state.cancel;
                self.entries[i].state = state;
                proof {
                    Self::lemma_changed(before, *self, i as int);
                }
                fired
            },
            None => {
                self.entries.push(Entry { id, state });
                proof {
                    assert(self.entries@.drop_last() =~= before.entries@);
                    Self::lemma_added(before, *self);
                }
                None
            },
        }
    }

    /// Opens a session of the given id, in build mode.
    pub fn open(&mut self, id: &str, cwd: &Directory, history: H) -> (r: Opened)
        requires
            old(self).wf(),
        ensures
            final(self).wf(),
            final(self)@ == old(self)@.insert(
                id@,
                fresh(history, cwd@, modes::ModeView::Build),
            ),
            r.session_id@ == id@,
            modes::offers(r.modes, modes::ModeView::Build),
            r.fired == running(old(self)@, id@),
    {
        let mode = AgentMode::Build;
        let modes = modes::make_mode_state(&mode);
        let fired = self.put(
            id.to_owned(),
            SessionState { history, cwd: cwd.clone(), cancel: None, mode },
        );
        Opened { session_id: id.to_owned(), modes, fired }
    }

    /// Opens a session under a new random id, in build mode.
    pub fn create(&mut self, cwd: &Directory, history: H) -> (r: Opened)
        requires
            old(self).wf(),
        ensures
            final(self).wf(),
            names::is_session_id(r.session_id@),
            final(self)@ == old(self)@.insert(
                r.session_id@,
                fresh(history, cwd@, modes::ModeView::Build),
            ),
            modes::offers(r.modes, modes::ModeView::Build),
            r.fired == running(old(self)@, r.session_id@),
    {
        let id = names::new_session_id();
        self.open(id.as_str(), cwd, history)
    }

    /// Opens a stored session, in the mode that it was stored with. Where the storage has none
    /// the request is refused.
    pub fn load<R>(&mut self, id: &str, cwd: &Directory, stored: Option<StoredSession<H, R>>) -> (r:
        Result<Opened, RequestError>)
        requires
            old(self).wf(),
        ensures
            final(self).wf(),
            match stored {
                Some(session) => {
                    let mode = modes::resumed(session.mode, cwd@);
                    &&& r matches Ok(opened)
                    &&& opened.session_id@ == id@
                    &&& modes::offers(opened.modes, mode)
                    &&& opened.fired == running(old(self)@, id@)
                    &&& final(self)@ == old(self)@.insert(id@, fresh(session.messages, cwd@, mode))
                },
                None => r == Err::<Opened, _>(RequestError::SessionNotFound) && final(self)@ == old(
                    self,
                )@,
            },
    {
        match stored {
            Some(session) => {
                let mode = modes::stored_mode_to_agent(&session.mode, cwd);
                let modes = modes::make_mode_state(&mode);
                let fired = self.put(
                    id.to_owned(),
                    SessionState {
                        history: session.messages,
                        cwd: cwd.clone(),
                        cancel: None,
                        mode,
                    },
                );
                Ok(Opened { session_id: id.to_owned(), modes, fired })
            },
            None => Err(RequestError::SessionNotFound),
        }
    }

    /// Begins a prompt turn. Returns the turn that the session was running until then, or refuses
    /// the prompt where the session is not open.
    pub fn begin_turn(&mut self, id: &str, turn: u64) -> (r: Result<Option<u64>, RequestError>)
        requires
            old(self).wf(),
        ensures
            final(self).wf(),
            final(self)@ == turn_begun(old(self)@, id@, turn),
            r == if old(self)@.contains_key(id@) {
                Ok(running(old(self)@, id@))
            } else {
                Err(RequestError::UnknownSession)
            },
    {
        let ghost before = *self;
        match self.find(id) {
            Some(i) => {
                let fired = self.entries[i].state.cancel;
                self.entries[i].state.cancel = Some(turn);
                proof {
                    Self::lemma_changed(before, *self, i as int);
                }
                Ok(fired)
            },
            None => Err(RequestError::UnknownSession),
        }
    }

    /// Ends a prompt turn: the session runs none, and has the history that the turn left, where
    /// there is one. Returns the turn that the session was running.
    pub fn end_turn(&mut self, id: &str, history: Option<H>) -> (r: Option<u64>)
        requires
            old(self).wf(),
        ensures
            final(self).wf(),
            r == running(old(self)@, id@),
            final(self)@ == turn_ended(old(self)@, id@, history),
    {
        let ghost before = *self;
        match self.find(id) {
            Some(i) => {
                let fired = self.entries[i].state.cancel;
                self.entries[i].state.cancel = None;
                if let Some(h) = history {
                    self.entries[i].state.history = h;
                }
                proof {
                    Self::lemma_changed(before, *self, i as int);
                }
                fired
            },
            None => None,
        }
    }

    /// Switches a session to the mode of an id. Refused, with nothing changed, where the session
    /// is not open or no mode has the id.
    pub fn set_mode(&mut self, id: &str, mode_id: &str) -> (r: Result<(), RequestError>)
        requires
            old(self).wf(),
        ensures
            final(self).wf(),
            final(self)@ == mode_set(old(self)@, id@, mode_id@),
            r == mode_answer(old(self)@, id@, mode_id@),
    {
        let ghost before = *self;
        match self.find(id) {
            Some(i) => {
                match modes::mode_for_id(mode_id, &self.entries[i].state.cwd) {
                    Some(mode) => {
                        self.entries[i].state.mode = mode;
                        proof {
                            Self::lemma_changed(before, *self, i as int);
                        }
                        Ok(())
                    },
                    None => Err(RequestError::UnknownModeId),
                }
            },
            None => Err(RequestError::UnknownSession),
        }
    }

    /// Cancels the running turn of a session and returns it. A session that is not open or runs
    /// no turn is left alone.
    pub fn cancel(&mut self, id: &str) -> (r: Option<u64>)
        requires
            old(self).wf(),
        ensures
            final(self).wf(),
            r == running(old(self)@, id@),
            final(self)@ == turn_ended(old(self)@, id@, None),
    {
        self.end_turn(id, None)
    }
}

/// What a client is told of a session that has been opened, and the turn that was running in a
/// session of the same id until then.
#[derive(Debug)]
pub struct Opened {
    pub session_id: String,
    pub modes: SessionModeState,
    pub fired: Option<u64>,
}

/// A session in the storage. `R` is what else its record holds, such as the tokens that it used.
#[derive(Debug)]
pub struct StoredSession<H, R> {
    pub id: String,
    pub title: String,
    pub cwd: String,
    pub model: String,
    pub messages: H,
    pub mode: Option<StoredMode>,
    pub rest: R,
}

impl<H, R> StoredSession<H, R> {
    /// The record of a session after a turn. It is the record that the storage had, or else the
    /// new one under the id of the session, with the model, the history and the mode of the turn.
    /// The rest of it stays as it is.
    pub fn after_turn(
        loaded: Option<StoredSession<H, R>>,
        new: StoredSession<H, R>,
        id: &str,
        model: &str,
        history: H,
        mode: &AgentMode,
    ) -> (r: StoredSession<H, R>)
        ensures
            r.model@ == model@,
            r.messages == history,
            r.mode == Some(modes::stored(mode@)),
            match loaded {
                Some(session) => r.id == session.id && r.title == session.title && r.cwd
                    == session.cwd && r.rest == session.rest,
                None => r.id@ == id@ && r.title == new.title && r.cwd == new.cwd && r.rest
                    == new.rest,
            },
    {
        let (id, title, cwd, rest) = match loaded {
            Some(session) => (session.id, session.title, session.cwd, session.rest),
            None => (id.to_owned(), new.title, new.cwd, new.rest),
        };
        StoredSession {
            id,
            title,
            cwd,
            model: model.to_owned(),
            messages: history,
            mode: Some(modes::agent_mode_to_stored(mode)),
            rest,
        }
    }
}

/// Every open session that is planning plans into the plan file of its working directory.
pub proof fn plans_go_to_the_plan_file<H>(table: SessionTable<H>, id: Seq<char>)
    requires
        table.wf(),
        table@.contains_key(id),
    ensures
        modes::plans_in(table@[id].mode, table@[id].cwd),
{
    let i = choose|i: int| holds_at(table.entries@, id, i);
    assert(holds_at(table.entries@, id, i));
    table.lemma_lookup(i);
}

/// What is done to one session leaves every other as it is.
pub proof fn other_sessions_are_untouched<H>(
    table: Map<Seq<char>, SessionView<H>>,
    id: Seq<char>,
    other: Seq<char>,
    turn: u64,
    history: Option<H>,
    mode_id: Seq<char>,
    state: SessionView<H>,
)
    requires
        id != other,
    ensures
        turn_begun(table, id, turn).contains_key(other) == table.contains_key(other),
        turn_ended(table, id, history).contains_key(other) == table.contains_key(other),
        mode_set(table, id, mode_id).contains_key(other) == table.contains_key(other),
        table.insert(id, state).contains_key(other) == table.contains_key(other),
        table.contains_key(other) ==> {
            &&& turn_begun(table, id, turn)[other] == table[other]
            &&& turn_ended(table, id, history)[other] == table[other]
            &&& mode_set(table, id, mode_id)[other] == table[other]
            &&& table.insert(id, state)[other] == table[other]
        },
{
}

/// A turn that has begun is the one that a cancellation fires, and a second cancellation fires
/// nothing. Neither touches the history, the directory or the mode.
pub proof fn cancelling_fires_the_turn_once<H>(
    table: Map<Seq<char>, SessionView<H>>,
    id: Seq<char>,
    turn: u64,
)
    requires
        table.contains_key(id),
    ensures
        running(turn_begun(table, id, turn), id) == Some(turn),
        running(turn_ended(turn_begun(table, id, turn), id, None), id) is None,
        turn_ended(turn_ended(table, id, None), id, None) == turn_ended(table, id, None),
        turn_ended(turn_begun(table, id, turn), id, None) == turn_ended(table, id, None),
        turn_ended(table, id, None)[id] == (SessionView { cancel: None, ..table[id] }),
{
    assert(turn_ended(turn_ended(table, id, None), id, None) =~= turn_ended(table, id, None));
    assert(turn_ended(turn_begun(table, id, turn), id, None) =~= turn_ended(table, id, None));
}

/// Once a turn has ended, with a history or without, its session runs none: there is nothing left
/// to cancel. The session is in the same directory and mode, and an open session stays open.
pub proof fn nothing_runs_after_the_end<H>(
    table: Map<Seq<char>, SessionView<H>>,
    id: Seq<char>,
    history: Option<H>,
)
    ensures
        running(turn_ended(table, id, history), id) is None,
        turn_ended(table, id, history).dom() == table.dom(),
        table.contains_key(id) ==> {
            &&& turn_ended(table, id, history)[id].mode == table[id].mode
            &&& turn_ended(table, id, history)[id].cwd == table[id].cwd
            &&& turn_ended(table, id, history)[id].history == (match history {
                Some(h) => h,
                None => table[id].history,
            })
        },
{
    assert(turn_ended(table, id, history).dom() =~= table.dom());
}

/// A session that builds and is switched to planning and back is as it was.
pub proof fn planning_and_back<H>(table: Map<Seq<char>, SessionView<H>>, id: Seq<char>)
    requires
        table.contains_key(id),
        table[id].mode == modes::ModeView::Build,
    ensures
        mode_answer(table, id, "plan"@) is Ok,
        mode_set(table, id, "plan"@)[id].mode == modes::ModeView::Plan(
            modes::plan_path(table[id].cwd),
        ),
        mode_answer(mode_set(table, id, "plan"@), id, "build"@) is Ok,
        mode_set(mode_set(table, id, "plan"@), id, "build"@) == table,
{
    reveal_strlit("build");
    reveal_strlit("plan");
    assert("build"@.len() != "plan"@.len());
    assert(mode_set(mode_set(table, id, "plan"@), id, "build"@) =~= table);
}

/// A session can be switched to each of the modes on offer and to no other.
pub proof fn offered_modes_are_accepted<H>(
    table: Map<Seq<char>, SessionView<H>>,
    id: Seq<char>,
    mode_id: Seq<char>,
    state: SessionModeState,
)
    requires
        table.contains_key(id),
        modes::offers(state, table[id].mode),
    ensures
        mode_answer(table, id, mode_id) is Ok <==> exists|i: int|
            0 <= i < state.available_modes@.len() && (#[trigger] state.available_modes@[i]).id@
                == mode_id,
        exists|i: int|
            0 <= i < state.available_modes@.len() && (#[trigger] state.available_modes@[i]).id@
                == state.current_mode_id@,
{
    assert(state.available_modes@[0].id@ == "build"@);
    assert(state.available_modes@[1].id@ == "plan"@);
}

/// A session that is loaded after a turn, in the same directory, has the history that the turn
/// left and is in the mode that the turn ran in.
pub proof fn loading_gives_back_the_turn<H, R>(
    record: StoredSession<H, R>,
    history: H,
    mode: modes::ModeView,
    cwd: modes::DirectoryView,
)
    requires
        modes::plans_in(mode, cwd),
        record.messages == history,
        record.mode == Some(modes::stored(mode)),
    ensures
        fresh(record.messages, cwd, modes::resumed(record.mode, cwd)) == fresh(history, cwd, mode),
{
    modes::resuming_undoes_storing(mode, cwd);
}

/// Beginning a turn makes it the one that an open session runs, and changes nothing else of the
/// session. The number of the turn is the one given.
pub proof fn beginning_a_turn_changes_only_the_turn<H>(
    table: Map<Seq<char>, SessionView<H>>,
    id: Seq<char>,
    turn: u64,
)
    ensures
        turn_begun(table, id, turn).dom() == table.dom(),
        table.contains_key(id) ==> {
            &&& turn_begun(table, id, turn)[id].cancel == Some(turn)
            &&& turn_begun(table, id, turn)[id].history == table[id].history
            &&& turn_begun(table, id, turn)[id].cwd == table[id].cwd
            &&& turn_begun(table, id, turn)[id].mode == table[id].mode
        },
        !table.contains_key(id) ==> turn_begun(table, id, turn) == table,
{
    assert(turn_begun(table, id, turn).dom() =~= table.dom());
}

/// The turn that is let go of is the one that the session ran, and a session that is not open runs
/// none. What is done to a session that is not open changes nothing.
pub proof fn sessions_that_are_not_open_stay_so<H>(
    table: Map<Seq<char>, SessionView<H>>,
    id: Seq<char>,
    turn: u64,
    history: Option<H>,
    mode_id: Seq<char>,
)
    ensures
        table.contains_key(id) ==> running(table, id) == table[id].cancel,
        !table.contains_key(id) ==> {
            &&& running(table, id) is None
            &&& turn_begun(table, id, turn) == table
            &&& turn_ended(table, id, history) == table
            &&& mode_set(table, id, mode_id) == table
        },
{
}

/// A request to switch modes is refused where the session is not open, and else where the id is
/// neither of the two; then nothing changes. Otherwise the session is in the mode of the id, and
/// nothing else of it changes.
pub proof fn switching_changes_only_the_mode<H>(
    table: Map<Seq<char>, SessionView<H>>,
    id: Seq<char>,
    mode_id: Seq<char>,
)
    ensures
        !table.contains_key(id) <==> mode_answer(table, id, mode_id) == Err::<(), _>(
            RequestError::UnknownSession,
        ),
        table.contains_key(id) && mode_id != "build"@ && mode_id != "plan"@ <==> mode_answer(
            table,
            id,
            mode_id,
        ) == Err::<(), _>(RequestError::UnknownModeId),
        mode_answer(table, id, mode_id) is Err ==> mode_set(table, id, mode_id) == table,
        mode_answer(table, id, mode_id) is Ok ==> {
            &&& table.contains_key(id)
            &&& mode_set(table, id, mode_id).dom() == table.dom()
            &&& mode_set(table, id, mode_id)[id].history == table[id].history
            &&& mode_set(table, id, mode_id)[id].cwd == table[id].cwd
            &&& mode_set(table, id, mode_id)[id].cancel == table[id].cancel
            &&& mode_id == "build"@ ==> mode_set(table, id, mode_id)[id].mode is Build
            &&& mode_id == "plan"@ ==> mode_set(table, id, mode_id)[id].mode
                == modes::ModeView::Plan(modes::plan_path(table[id].cwd))
        },
{
    if table.contains_key(id) {
        modes::two_ids_choose_a_mode(mode_id, table[id].cwd);
    }
    if mode_answer(table, id, mode_id) is Ok {
        assert(mode_set(table, id, mode_id).dom() =~= table.dom());
    }
}

/// A session that has just been opened has the history, the directory and the mode that it was
/// opened with, and runs no turn.
pub proof fn opened_sessions_are_as_they_were_opened<H>(
    history: H,
    cwd: modes::DirectoryView,
    mode: modes::ModeView,
)
    ensures
        fresh(history, cwd, mode).history == history,
        fresh(history, cwd, mode).cwd == cwd,
        fresh(history, cwd, mode).mode == mode,
        fresh(history, cwd, mode).cancel is None,
{
}

/// The contents of an open session are those of its parts.
pub proof fn sessions_are_what_they_hold<H>(state: SessionState<H>)
    ensures
        state@.history == state.history,
        state@.cwd == state.cwd@,
        state@.cancel == state.cancel,
        state@.mode == state.mode@,
{
}

} // verus!
