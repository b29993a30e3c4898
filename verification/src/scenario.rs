//! The course of the integration harness: which requests it makes, in which order, and what it
//! makes of the replies.
use vstd::prelude::*;
use vstd::string::*;

use crate::harness;
use crate::history;
use crate::protocol::StopReason;
use crate::text;

verus! {

/// The prompt that follows up on the first one.
pub const FOLLOW_UP: &'static str = "In one sentence, summarise what you just told me.";

/// A prompt that is likely to take longer than the wait before it is cancelled.
pub const LONG_PROMPT: &'static str =
    "Count from 1 to 500, one number per line, with a brief comment on each number.";

/// Which parts of the course are left out.
#[derive(Clone, Copy, Debug, PartialEq, Eq, Structural)]
pub struct ScenarioOptions {
    /// Skip listing and loading the session after the prompt.
    pub no_reload: bool,
    /// Skip the second prompt.
    pub no_second_prompt: bool,
    /// Skip the cancellation.
    pub no_cancel: bool,
}

/// A step of the course.
#[derive(Clone, Copy, Debug, PartialEq, Eq, Structural)]
pub enum Step {
    Initialize,
    NewSession,
    /// Switch the session to planning.
    PlanMode,
    /// Switch the session back to building.
    BuildMode,
    /// Send the prompt.
    Prompt,
    /// Send a second prompt on the same session.
    FollowUp,
    /// List the sessions, among which this one must be.
    List,
    /// Load the session, for which updates that replay its history must arrive.
    Load,
    /// Open another session, send a long prompt and cancel it.
    Cancel,
    Done,
}

/// What came of a step.
#[derive(Debug)]
pub enum Reply {
    /// The request was answered.
    Answered,
    /// A prompt turn ended.
    Stopped(StopReason),
    /// The sessions of these ids were listed.
    Listed(Vec<String>),
    /// The session was loaded, and this many updates arrived for it.
    Replayed(u32),
}

/// Whether a reply is one that a step can have.
pub open spec fn fits(step: Step, reply: Reply) -> bool {
    match step {
        Step::Prompt | Step::FollowUp | Step::Cancel => reply is Stopped,
        Step::List => reply is Listed,
        Step::Load => reply is Replayed,
        _ => reply is Answered,
    }
}

/// The whole course, step by step.
pub open spec fn course(options: ScenarioOptions) -> Seq<Step> {
    let opening = seq![
        Step::Initialize,
        Step::NewSession,
        Step::PlanMode,
        Step::BuildMode,
        Step::Prompt,
    ];
    let second: Seq<Step> = if options.no_second_prompt {
        seq![]
    } else {
        seq![Step::FollowUp]
    };
    let reload: Seq<Step> = if options.no_reload {
        seq![]
    } else {
        seq![Step::List, Step::Load]
    };
    let cancel: Seq<Step> = if options.no_cancel {
        seq![]
    } else {
        seq![Step::Cancel]
    };
    opening + second + reload + cancel + seq![Step::Done]
}

/// The step after another one.
pub open spec fn next_step(step: Step, options: ScenarioOptions) -> Step {
    let ending = if options.no_cancel {
        Step::Done
    } else {
        Step::Cancel
    };
    let reload = if options.no_reload {
        ending
    } else {
        Step::List
    };
    match step {
        Step::Initialize => Step::NewSession,
        Step::NewSession => Step::PlanMode,
        Step::PlanMode => Step::BuildMode,
        Step::BuildMode => Step::Prompt,
        Step::Prompt => if options.no_second_prompt {
            reload
        } else {
            Step::FollowUp
        },
        Step::FollowUp => reload,
        Step::List => Step::Load,
        Step::Load => ending,
        Step::Cancel => Step::Done,
        Step::Done => Step::Done,
    }
}

/// Why the course ends early at a reply, if it does: a prompt turn ended for a reason that it may
/// not end for, the session is not listed, or nothing of its history is replayed when it is
/// loaded. How a cancelled turn ended is never a failure, since
/// it may have been over before it was cancelled.
pub open spec fn failure(step: Step, reply: Reply, session_id: Seq<char>) -> Option<Seq<char>> {
    match (step, reply) {
        (Step::Prompt, Reply::Stopped(stop)) | (Step::FollowUp, Reply::Stopped(stop)) => {
            if harness::acceptable(stop) {
                None
            } else {
                Some("unexpected stop reason: "@ + harness::stop_name(stop))
            }
        },
        (Step::List, Reply::Listed(ids)) => if text::contents(ids@).contains(session_id) {
            None
        } else {
            Some("session not found in session/list"@)
        },
        (Step::Load, Reply::Replayed(arrived)) => if arrived > 0 {
            None
        } else {
            Some("no history replay after session/load"@)
        },
        _ => None,
    }
}

/// Whether a session is among those listed.
pub fn lists_session(ids: &Vec<String>, session_id: &str) -> (r: bool)
    ensures
        r == text::contents(ids@).contains(session_id@),
{
    let ghost all = text::contents(ids@);
    let mut i: usize = 0;
    while i < ids.len()
        invariant
            i <= ids@.len(),
            all == text::contents(ids@),
            forall|k: int| 0 <= k < i ==> #[trigger] all[k] != session_id@,
        decreases ids@.len() - i,
    {
        assert(all[i as int] == ids@[i as int]@);
        if text::str_eq(ids[i].as_str(), session_id) {
            return true;
        }
        i = i + 1;
    }
    false
}

fn step_after(step: Step, options: &ScenarioOptions) -> (r: Step)
    ensures
        r == next_step(step, *options),
{
    let ending = if options.no_cancel {
        Step::Done
    } else {
        Step::Cancel
    };
    let reload = if options.no_reload {
        ending
    } else {
        Step::List
    };
    match step {
        Step::Initialize => Step::NewSession,
        Step::NewSession => Step::PlanMode,
        Step::PlanMode => Step::BuildMode,
        Step::BuildMode => Step::Prompt,
        Step::Prompt => if options.no_second_prompt {
            reload
        } else {
            Step::FollowUp
        },
        Step::FollowUp => reload,
        Step::List => Step::Load,
        Step::Load => ending,
        Step::Cancel => Step::Done,
        Step::Done => Step::Done,
    }
}

/// The next step after a reply, or why the course ends there.
pub fn advance(step: Step, options: &ScenarioOptions, reply: &Reply, session_id: &str) -> (r: Result<
    Step,
    String,
>)
    requires
        fits(step, *reply),
    ensures
        match r {
            Ok(next) => failure(step, *reply, session_id@) is None && next == next_step(
                step,
                *options,
            ),
            Err(message) => failure(step, *reply, session_id@) == Some(message@),
        },
{
    match (step, reply) {
        (Step::Prompt, Reply::Stopped(stop)) | (Step::FollowUp, Reply::Stopped(stop)) => {
            match harness::check_stop_reason(*stop) {
                Ok(()) => Ok(step_after(step, options)),
                Err(message) => Err(message),
            }
        },
        (Step::List, Reply::Listed(ids)) => {
            if lists_session(ids, session_id) {
                Ok(step_after(step, options))
            } else {
                Err("session not found in session/list".to_owned())
            }
        },
        (Step::Load, Reply::Replayed(arrived)) => {
            if *arrived > 0 {
                Ok(step_after(step, options))
            } else {
                Err("no history replay after session/load".to_owned())
            }
        },
        _ => Ok(step_after(step, options)),
    }
}

/// What is printed about the listing: how many sessions there are, and whether this one is among
/// them.
pub fn list_report(ids: &Vec<String>, session_id: &str) -> (r: String)
    ensures
        r@ == harness::tagged(harness::MAGENTA@, "LIST"@) + " total="@ + text::decimal(
            ids@.len(),
        ) + " found_ours="@ + (if text::contents(ids@).contains(session_id@) {
            "true"@
        } else {
            "false"@
        }) + "\n"@,
{
    let found = if lists_session(ids, session_id) {
        "true"
    } else {
        "false"
    };
    harness::tag(harness::MAGENTA, "LIST").concat(" total=").concat(
        text::decimal_string(ids.len() as u64).as_str(),
    ).concat(" found_ours=").concat(found).concat("\n")
}

/// What is printed about the replay of a loaded session, with a note where it is empty.
pub fn replay_report(replay_updates: u32) -> (r: String)
    ensures
        r@ == harness::tagged(harness::MAGENTA@, "LOAD"@) + " replay_updates="@ + text::decimal(
            replay_updates as nat,
        ) + "\n"@ + (if replay_updates == 0 {
            harness::DIM@ + "  note: zero replay updates – session may have been empty"@
                + harness::RESET@ + "\n"@
        } else {
            Seq::empty()
        }),
{
    let mut out = harness::tag(harness::MAGENTA, "LOAD").concat(" replay_updates=").concat(
        text::decimal_string(replay_updates as u64).as_str(),
    ).concat("\n");
    if replay_updates == 0 {
        let note = harness::DIM.to_owned().concat(
            "  note: zero replay updates – session may have been empty",
        ).concat(harness::RESET).concat("\n");
        out.append(note.as_str());
    }
    out
}

/// What is printed about the end of a turn that was cancelled.
pub fn cancel_report(stop: StopReason) -> (r: String)
    ensures
        r@ == if stop == StopReason::Cancelled {
            harness::tagged(harness::GREEN@, "CANCEL"@) + " stop=Cancelled (correct)\n"@
        } else {
            harness::tagged(harness::YELLOW@, "CANCEL"@) + " stop="@ + harness::stop_name(stop)
                + " — cancel arrived after agent finished (acceptable race)\n"@
        },
{
    match stop {
        StopReason::Cancelled => harness::tag(harness::GREEN, "CANCEL").concat(
            " stop=Cancelled (correct)\n",
        ),
        _ => harness::tag(harness::YELLOW, "CANCEL").concat(" stop=").concat(
            harness::name_of_stop(stop),
        ).concat(" — cancel arrived after agent finished (acceptable race)\n"),
    }
}

/// A course in which nothing fails takes its steps one after the other, from the first to the
/// last.
pub proof fn course_is_followed(options: ScenarioOptions, i: int)
    requires
        0 <= i < course(options).len() - 1,
    ensures
        course(options)[0] == Step::Initialize,
        next_step(course(options)[i], options) == course(options)[i + 1],
        course(options)[i] != Step::Done,
        course(options).last() == Step::Done,
{
}

/// Each part of the course is left out exactly where its own option says so.
pub proof fn options_leave_out_their_parts(options: ScenarioOptions)
    ensures
        course(options).contains(Step::FollowUp) <==> !options.no_second_prompt,
        course(options).contains(Step::List) <==> !options.no_reload,
        course(options).contains(Step::Load) <==> !options.no_reload,
        course(options).contains(Step::Cancel) <==> !options.no_cancel,
{
    let c = course(options);
    let second: int = if options.no_second_prompt {
        5
    } else {
        6
    };
    let reload: int = if options.no_reload {
        second
    } else {
        second + 2
    };
    if !options.no_second_prompt {
        assert(c[5] == Step::FollowUp);
    }
    if !options.no_reload {
        assert(c[second] == Step::List);
        assert(c[second + 1] == Step::Load);
    }
    if !options.no_cancel {
        assert(c[reload] == Step::Cancel);
    }
}

/// Loading a session passes exactly where its history holds something to replay, if what is
/// replayed is what arrives.
pub proof fn loading_verifies_the_replay(
    state: harness::HarnessView,
    messages: Seq<history::MessageView>,
    session_id: Seq<char>,
)
    ensures
        ({
            let updates = history::replay(messages, messages);
            let loaded = harness::after_updates(harness::load_begun(state), updates);
            failure(Step::Load, Reply::Replayed(loaded.arrived as u32), session_id) is None
                <==> updates.len() > 0
        }),
{
    harness::arrivals_are_counted(state, history::replay(messages, messages));
}

/// However a cancelled turn ends, the course goes on to its end.
pub proof fn cancellation_never_fails(stop: StopReason, session_id: Seq<char>)
    ensures
        failure(Step::Cancel, Reply::Stopped(stop), session_id) is None,
{
}

/// The steps are taken in a fixed order. The second prompt, the reload and the cancellation are
/// each passed over where their own option says so.
pub proof fn steps_come_in_order(options: ScenarioOptions)
    ensures
        next_step(Step::Initialize, options) == Step::NewSession,
        next_step(Step::NewSession, options) == Step::PlanMode,
        next_step(Step::PlanMode, options) == Step::BuildMode,
        next_step(Step::BuildMode, options) == Step::Prompt,
        !options.no_second_prompt ==> next_step(Step::Prompt, options) == Step::FollowUp,
        options.no_second_prompt ==> next_step(Step::Prompt, options) == next_step(
            Step::FollowUp,
            options,
        ),
        !options.no_reload ==> next_step(Step::FollowUp, options) == Step::List,
        options.no_reload ==> next_step(Step::FollowUp, options) == next_step(Step::Load, options),
        next_step(Step::List, options) == Step::Load,
        !options.no_cancel ==> next_step(Step::Load, options) == Step::Cancel,
        options.no_cancel ==> next_step(Step::Load, options) == Step::Done,
        next_step(Step::Cancel, options) == Step::Done,
        next_step(Step::Done, options) == Step::Done,
{
}

/// A prompt fails where its turn ended for another reason than that the model was done, that its
/// tokens ran out or that it was cancelled, and the message names the reason.
pub proof fn prompts_fail_where_their_turn_ends_otherwise(
    step: Step,
    stop: StopReason,
    session_id: Seq<char>,
)
    requires
        step is Prompt || step is FollowUp,
    ensures
        failure(step, Reply::Stopped(stop), session_id) is None <==> stop is EndTurn
            || stop is MaxTokens || stop is Cancelled,
        failure(step, Reply::Stopped(stop), session_id) matches Some(message) ==> message
            == "unexpected stop reason: "@ + harness::stop_name(stop),
{
}

/// The listing fails where none of the listed ids is that of the session, and only there.
pub proof fn the_session_must_be_listed(ids: Vec<String>, session_id: Seq<char>)
    ensures
        failure(Step::List, Reply::Listed(ids), session_id) is None <==> exists|i: int|
            0 <= i < ids@.len() && (#[trigger] ids@[i])@ == session_id,
        failure(Step::List, Reply::Listed(ids), session_id) matches Some(message) ==> message
            == "session not found in session/list"@,
{
    let all = text::contents(ids@);
    if exists|i: int| 0 <= i < ids@.len() && (#[trigger] ids@[i])@ == session_id {
        let i = choose|i: int| 0 <= i < ids@.len() && (#[trigger] ids@[i])@ == session_id;
        assert(all[i] == session_id);
    }
    if all.contains(session_id) {
        let i = choose|i: int| 0 <= i < all.len() && all[i] == session_id;
        assert(ids@[i]@ == session_id);
    }
}

/// Loading fails where no update arrives for it, and only there; the other steps do not fail by
/// what they are answered.
pub proof fn a_replay_must_arrive(step: Step, reply: Reply, arrived: u32, session_id: Seq<char>)
    ensures
        failure(Step::Load, Reply::Replayed(arrived), session_id) is None <==> arrived > 0,
        step is Initialize || step is NewSession || step is PlanMode || step is BuildMode
            || step is Cancel || step is Done ==> failure(step, reply, session_id) is None,
{
}

/// The steps that send a prompt are answered with its end, the listing with ids, the loading with
/// the number of updates that arrived, and every other step with nothing more.
pub proof fn replies_fit_their_steps(step: Step, reply: Reply)
    ensures
        step is Prompt || step is FollowUp || step is Cancel ==> (fits(step, reply)
            <==> reply is Stopped),
        step is List ==> (fits(step, reply) <==> reply is Listed),
        step is Load ==> (fits(step, reply) <==> reply is Replayed),
        step is Initialize || step is NewSession || step is PlanMode || step is BuildMode
            || step is Done ==> (fits(step, reply) <==> reply is Answered),
{
}

} // verus!
