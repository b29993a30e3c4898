//! The two modes of a session: building, and planning into a plan file.
use vstd::prelude::*;
use vstd::string::*;

use crate::text;

verus! {

/// The file that a plan is written to, in the working directory of its session.
pub const PLAN_FILENAME: &'static str = "PLAN.md";

/// The working directory of a session.
#[derive(Debug)]
pub struct Directory {
    pub path: String,
    /// What its platform puts between the parts of a path.
    pub separator: char,
}

/// The contents of a [`Directory`].
pub struct DirectoryView {
    pub path: Seq<char>,
    pub separator: char,
}

impl View for Directory {
    type V = DirectoryView;

    open spec fn view(&self) -> DirectoryView {
        DirectoryView { path: self.path@, separator: self.separator }
    }
}

impl Clone for Directory {
    fn clone(&self) -> (r: Self)
        ensures
            r@ == self@,
    {
        Directory { path: self.path.clone(), separator: self.separator }
    }
}

/// The mode that a session runs in.
#[derive(Debug)]
pub enum AgentMode {
    Build,
    /// Planning, with the path of the plan file.
    Plan(String),
}

/// The mode of a session as it is stored.
#[derive(Clone, Copy, Debug, PartialEq, Eq, Structural)]
pub enum StoredMode {
    Build,
    Plan,
}

/// The contents of an [`AgentMode`].
pub enum ModeView {
    Build,
    Plan(Seq<char>),
}

impl View for AgentMode {
    type V = ModeView;

    open spec fn view(&self) -> ModeView {
        match self {
            AgentMode::Build => ModeView::Build,
            AgentMode::Plan(path) => ModeView::Plan(path@),
        }
    }
}

/// A mode that the client may choose.
#[derive(Debug)]
pub struct SessionMode {
    pub id: String,
    pub name: String,
}

/// The modes on offer and the one that is on.
#[derive(Debug)]
pub struct SessionModeState {
    pub current_mode_id: String,
    pub available_modes: Vec<SessionMode>,
}

/// The path of a file in a directory: the separator of the platform between the two, unless the
/// directory is the empty path or ends with one. A slash is a separator on every platform.
pub open spec fn path_in(dir: DirectoryView, file: Seq<char>) -> Seq<char> {
    if dir.path.len() == 0 || dir.path.last() == '/' || dir.path.last() == dir.separator {
        dir.path + file
    } else {
        dir.path + seq![dir.separator] + file
    }
}

/// The path of the plan file of a session.
pub open spec fn plan_path(cwd: DirectoryView) -> Seq<char> {
    path_in(cwd, PLAN_FILENAME@)
}

/// The id of a mode.
pub open spec fn mode_id(mode: ModeView) -> Seq<char> {
    match mode {
        ModeView::Build => "build"@,
        ModeView::Plan(_) => "plan"@,
    }
}

/// The mode of an id, in a session with the given working directory.
pub open spec fn mode_of_id(id: Seq<char>, cwd: DirectoryView) -> Option<ModeView> {
    if id == "build"@ {
        Some(ModeView::Build)
    } else if id == "plan"@ {
        Some(ModeView::Plan(plan_path(cwd)))
    } else {
        None
    }
}

/// The stored form of a mode.
pub open spec fn stored(mode: ModeView) -> StoredMode {
    match mode {
        ModeView::Build => StoredMode::Build,
        ModeView::Plan(_) => StoredMode::Plan,
    }
}

/// The mode that a stored session resumes in. One that was stored without a mode builds.
pub open spec fn resumed(mode: Option<StoredMode>, cwd: DirectoryView) -> ModeView {
    if mode == Some(StoredMode::Plan) {
        ModeView::Plan(plan_path(cwd))
    } else {
        ModeView::Build
    }
}

/// Whether the plan of a session, if it is planning, goes to the plan file of its working
/// directory.
pub open spec fn plans_in(mode: ModeView, cwd: DirectoryView) -> bool {
    mode matches ModeView::Plan(path) ==> path == plan_path(cwd)
}

/// Whether a mode state offers the two modes, with the given one on.
pub open spec fn offers(state: SessionModeState, mode: ModeView) -> bool {
    &&& state.current_mode_id@ == mode_id(mode)
    &&& state.available_modes@.len() == 2
    &&& state.available_modes@[0].id@ == "build"@
    &&& state.available_modes@[0].name@ == "Build"@
    &&& state.available_modes@[1].id@ == "plan"@
    &&& state.available_modes@[1].name@ == "Plan"@
}

/// The path of the plan file of a session.
fn plan_file(cwd: &Directory) -> (r: String)
    ensures
        r@ == plan_path(cwd@),
{
    let chars = text::chars_of(cwd.path.as_str());
    let mut path = cwd.path.clone();
    if chars.len() > 0 && chars[chars.len() - 1] != '/' && chars[chars.len() - 1]
        != cwd.separator {
        path.push(cwd.separator);
    }
    path.append(PLAN_FILENAME);
    assert(path@ =~= plan_path(cwd@));
    path
}

/// The modes on offer, with the given one on.
pub fn make_mode_state(mode: &AgentMode) -> (r: SessionModeState)
    ensures
        offers(r, mode@),
{
    let current = match mode {
        AgentMode::Build => "build",
        AgentMode::Plan(_) => "plan",
    };
    let mut available_modes: Vec<SessionMode> = Vec::new();
    available_modes.push(SessionMode { id: "build".to_owned(), name: "Build".to_owned() });
    available_modes.push(SessionMode { id: "plan".to_owned(), name: "Plan".to_owned() });
    SessionModeState { current_mode_id: current.to_owned(), available_modes }
}

/// The stored form of a mode.
pub fn agent_mode_to_stored(mode: &AgentMode) -> (r: StoredMode)
    ensures
        r == stored(mode@),
{
    match mode {
        AgentMode::Build => StoredMode::Build,
        AgentMode::Plan(_) => StoredMode::Plan,
    }
}

/// The mode that a stored session resumes in.
pub fn stored_mode_to_agent(mode: &Option<StoredMode>, cwd: &Directory) -> (r: AgentMode)
    ensures
        r@ == resumed(*mode, cwd@),
{
    match mode {
        Some(StoredMode::Plan) => AgentMode::Plan(plan_file(cwd)),
        _ => AgentMode::Build,
    }
}

/// The mode of an id, in a session with the given working directory, or `None` where no mode has
/// that id.
pub fn mode_for_id(id: &str, cwd: &Directory) -> (r: Option<AgentMode>)
    ensures
        match r {
            Some(mode) => mode_of_id(id@, cwd@) == Some(mode@),
            None => mode_of_id(id@, cwd@) is None,
        },
{
    if text::str_eq(id, "build") {
        Some(AgentMode::Build)
    } else if text::str_eq(id, "plan") {
        Some(AgentMode::Plan(plan_file(cwd)))
    } else {
        None
    }
}

impl Clone for AgentMode {
    fn clone(&self) -> (r: Self)
        ensures
            r@ == self@,
    {
        match self {
            AgentMode::Build => AgentMode::Build,
            AgentMode::Plan(path) => AgentMode::Plan(path.clone()),
        }
    }
}

/// A session that is stored and resumed in the same directory is in the mode it was in.
pub proof fn resuming_undoes_storing(mode: ModeView, cwd: DirectoryView)
    requires
        plans_in(mode, cwd),
    ensures
        resumed(Some(stored(mode)), cwd) == mode,
{
}

/// Choosing a mode by the id that stands for it gives that mode.
pub proof fn mode_ids_stand_for_modes(mode: ModeView, cwd: DirectoryView)
    requires
        plans_in(mode, cwd),
    ensures
        mode_of_id(mode_id(mode), cwd) == Some(mode),
{
    reveal_strlit("build");
    reveal_strlit("plan");
    assert("build"@.len() != "plan"@.len());
}

/// The plan file of a session is the file `PLAN.md` in its working directory: the path of the
/// directory, a separator unless that path is empty or ends with one, and the name.
pub proof fn plans_are_written_next_to_the_work(cwd: DirectoryView)
    ensures
        ({
            let ends = cwd.path.len() == 0 || cwd.path[cwd.path.len() - 1] == '/' || cwd.path[
            cwd.path.len() - 1] == cwd.separator;
            &&& ends ==> plan_path(cwd) == cwd.path + "PLAN.md"@
            &&& !ends ==> plan_path(cwd) == cwd.path.push(cwd.separator) + "PLAN.md"@
        }),
{
    assert(cwd.path.push(cwd.separator) =~= cwd.path + seq![cwd.separator]);
}

/// There are two modes to choose, each by its exact id: one builds, and the other plans into the
/// plan file of the directory.
pub proof fn two_ids_choose_a_mode(id: Seq<char>, cwd: DirectoryView)
    ensures
        id == "build"@ ==> mode_of_id(id, cwd) == Some(ModeView::Build),
        id == "plan"@ ==> mode_of_id(id, cwd) == Some(ModeView::Plan(plan_path(cwd))),
        id != "build"@ && id != "plan"@ ==> mode_of_id(id, cwd) is None,
{
    reveal_strlit("build");
    reveal_strlit("plan");
    assert("build"@.len() != "plan"@.len());
}

/// A session that was stored while planning plans again, into the plan file of the directory it is
/// loaded in; any other builds.
pub proof fn sessions_resume_as_they_were_stored(mode: Option<StoredMode>, cwd: DirectoryView)
    ensures
        mode == Some(StoredMode::Plan) <==> resumed(mode, cwd) is Plan,
        resumed(mode, cwd) is Plan ==> resumed(mode, cwd) == ModeView::Plan(plan_path(cwd)),
{
}

/// A session is stored as planning exactly where it plans, and so it is told to the client.
pub proof fn modes_are_stored_and_told_as_they_are(mode: ModeView, state: SessionModeState)
    ensures
        stored(mode) == StoredMode::Plan <==> mode is Plan,
        mode is Plan ==> mode_id(mode) == "plan"@,
        mode is Build ==> mode_id(mode) == "build"@,
        offers(state, mode) ==> {
            &&& mode is Plan ==> state.current_mode_id@ == "plan"@
            &&& mode is Build ==> state.current_mode_id@ == "build"@
            &&& state.available_modes@.len() == 2
            &&& state.available_modes@[0].id@ == "build"@ && state.available_modes@[0].name@
                == "Build"@
            &&& state.available_modes@[1].id@ == "plan"@ && state.available_modes@[1].name@
                == "Plan"@
        },
{
}

/// The contents of a mode and of a directory are those of their parts.
pub proof fn modes_and_directories_are_what_they_hold(mode: AgentMode, dir: Directory)
    ensures
        mode is Build ==> mode@ is Build,
        mode matches AgentMode::Plan(path) ==> mode@ == ModeView::Plan(path@),
        dir@.path == dir.path@,
        dir@.separator == dir.separator,
{
}

} // verus!
