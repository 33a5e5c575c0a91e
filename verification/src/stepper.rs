//! Stepping a frame from one contact instant to the next.
//!
//! The collision engine foretells the time of its next event. A frame is
//! walked in as many steps as there are such times before the frame's end:
//! at each, the engine is advanced to that very time and its events are
//! drained and answered, one by one, before it is asked again. The caller
//! does the asking and the advancing and reports what it learned; the rule
//! here says what comes next.

use vstd::prelude::*;
use crate::rules::{dispatch, response_for, Event, Response};

verus! {

/// Where the walk through a frame stands.
#[derive(Copy, Clone, Debug, PartialEq, Eq, Structural)]
pub enum Phase {
    /// The engine's next event time is to be held against the frame's end.
    Polling,
    /// The engine stands at an event time and its events are being drained.
    Draining,
}

/// What the caller has learned from the engine.
#[derive(Copy, Clone, Debug, PartialEq, Eq, Structural)]
pub enum News {
    /// The next event time was read; `due` says that it is not later than
    /// the frame's end.
    Bound { due: bool },
    /// The engine handed out an event.
    Contact { event: Event, id1: u64, id2: u64 },
    /// The engine has no more events at its present time.
    Quiet,
}

/// What the caller is to do next.
#[derive(Copy, Clone, Debug, PartialEq, Eq, Structural)]
pub enum Action {
    /// Advance the engine to its next event time, then ask it for an event.
    Advance,
    /// Carry out the response, then ask the engine for another event.
    Respond(Response),
    /// Read the engine's next event time again.
    Poll,
    /// Advance the engine to the frame's end: the frame is walked.
    Finish,
}

/// The phase and the action that follow `news` in `phase`, or `None` where
/// such news cannot come in that phase.
pub open spec fn step(phase: Phase, news: News) -> Option<(Phase, Action)> {
    match (phase, news) {
        (Phase::Polling, News::Bound { due }) => if due {
            Some((Phase::Draining, Action::Advance))
        } else {
            Some((Phase::Polling, Action::Finish))
        },
        (Phase::Draining, News::Contact { event, id1, id2 }) => Some(
            (Phase::Draining, Action::Respond(response_for(event, id1, id2))),
        ),
        (Phase::Draining, News::Quiet) => Some((Phase::Polling, Action::Poll)),
        _ => None,
    }
}

/// The phase reached and the actions given when `trace` comes in from
/// `phase`, or `None` where some news of it cannot come when it does.
pub open spec fn run(phase: Phase, trace: Seq<News>) -> Option<(Phase, Seq<Action>)>
    decreases trace.len(),
{
    if trace.len() == 0 {
        Some((phase, Seq::empty()))
    } else {
        match run(phase, trace.drop_last()) {
            Some((reached, actions)) => match step(reached, trace.last()) {
                Some((next, action)) => Some((next, actions.push(action))),
                None => None,
            },
            None => None,
        }
    }
}

/// Decides what follows `news` in `phase`.
pub fn advance(phase: Phase, news: News) -> (next: Option<(Phase, Action)>)
    ensures
        next == step(phase, news),
{
    match phase {
        Phase::Polling => match news {
            News::Bound { due } => if due {
                Some((Phase::Draining, Action::Advance))
            } else {
                Some((Phase::Polling, Action::Finish))
            },
            _ => None,
        },
        Phase::Draining => match news {
            News::Contact { event, id1, id2 } => Some(
                (Phase::Draining, Action::Respond(dispatch(event, id1, id2))),
            ),
            News::Quiet => Some((Phase::Polling, Action::Poll)),
            News::Bound { .. } => None,
        },
    }
}

/// However many event times a frame spans, none is passed over and no event
/// is answered twice or left out: every piece of news gets one action, every
/// event time that is due gets its advance, every event gets its response,
/// and the walk ends only on a time that is not due.
pub proof fn lemma_walk_answers_all(phase: Phase, trace: Seq<News>)
    requires
        run(phase, trace) is Some,
    ensures
        run(phase, trace).unwrap().1.len() == trace.len(),
        forall|k: int| 0 <= k < trace.len() ==> (trace[k] == News::Bound { due: true }
            <==> #[trigger] run(phase, trace).unwrap().1[k] == Action::Advance),
        forall|k: int| 0 <= k < trace.len() ==> (trace[k] == News::Bound { due: false }
            <==> #[trigger] run(phase, trace).unwrap().1[k] == Action::Finish),
        forall|k: int| 0 <= k < trace.len() ==> (trace[k] matches News::Contact { event, id1, id2 }
            ==> #[trigger] run(phase, trace).unwrap().1[k] == Action::Respond(response_for(event, id1, id2))),
        forall|k: int| 0 <= k < trace.len() ==> (trace[k] is Contact
            <==> #[trigger] run(phase, trace).unwrap().1[k] is Respond),
    decreases trace.len(),
{
    if trace.len() > 0 {
        let front = trace.drop_last();
        lemma_walk_answers_all(phase, front);
        let actions = run(phase, trace).unwrap().1;
        let earlier = run(phase, front).unwrap().1;
        assert forall|k: int| 0 <= k < trace.len() - 1 implies actions[k] == earlier[k] && trace[k] == front[k] by {}
    }
}

} // verus!
