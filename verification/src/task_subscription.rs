//! The streaming execution engine: a per-invocation state machine that turns
//! an external process run into an ordered sequence of progress events.
//!
//! One instance covers one invocation and is not reusable. The surrounding
//! driver owns the child process and its two piped output streams; it reports
//! what it observed as an [`ActionEvent`] and performs, between steps,
//! whatever the current state asks of it: attempt the spawn in `Ready`, race
//! line reads on the open streams in `InProgress` (delivering each received
//! line to its own output channel), collect the exit status in
//! `AwaitingExit`, and stop in `Done`.

use crate::command_actions::clone_opt_string;
use crate::command_actions::GrunnerAction;
use vstd::prelude::*;

verus! {

/// The verdict of a completed invocation, derived from the child's exit
/// status. A non-zero exit is a normal business outcome, not an error.
#[derive(Debug, Clone, Copy, PartialEq, Eq, Structural)]
pub enum ActionResult {
    Success,
    Fail,
}

/// One element of the progress-event stream a subscriber observes.
#[derive(Debug, Clone, Copy, PartialEq, Eq, Structural)]
pub enum ActionProgress {
    Starting,
    Continuing,
    Completed(ActionResult),
    Error,
}

/// Which of the child's two output streams an event concerns.
#[derive(Debug, Clone, Copy, PartialEq, Eq, Structural)]
pub enum StreamId {
    Stdout,
    Stderr,
}

/// What the driver observed since the previous step.
#[derive(Debug, Clone, Copy, PartialEq, Eq, Structural)]
pub enum ActionEvent {
    /// The process was spawned, with both output streams piped.
    Spawned,
    /// The process could not be spawned.
    SpawnFailed,
    /// A complete, non-empty line arrived on the given stream.
    LineRead(StreamId),
    /// The given stream reached end of stream (a zero-length read).
    StreamClosed(StreamId),
    /// A read on either stream failed.
    ReadFailed,
    /// The child exited; `true` means exit status zero.
    Exited(bool),
}

/// The orchestrator's state over one invocation.
#[derive(Debug, Clone, Copy, PartialEq, Eq, Structural)]
pub enum ActionState {
    /// Nothing spawned yet.
    Ready,
    /// The process runs; the flags say which output streams are still open.
    InProgress { out_open: bool, err_open: bool },
    /// Both streams are drained; the exit status is still outstanding.
    AwaitingExit,
    /// Terminal: the stream has ended and the instance is spent.
    Done,
}

impl ActionState {
    /// What one step does: the progress event to emit, if any, and the next
    /// state. An event that does not belong to the current state changes
    /// nothing.
    pub open spec fn advance_spec(self, event: ActionEvent) -> (Option<ActionProgress>, ActionState) {
        match self {
            ActionState::Ready => match event {
                ActionEvent::Spawned => (
                    Some(ActionProgress::Starting),
                    ActionState::InProgress { out_open: true, err_open: true },
                ),
                ActionEvent::SpawnFailed => (Some(ActionProgress::Error), ActionState::Done),
                _ => (None, self),
            },
            ActionState::InProgress { out_open, err_open } => match event {
                ActionEvent::LineRead(_) => (Some(ActionProgress::Continuing), self),
                ActionEvent::StreamClosed(sid) => {
                    let oo = match sid {
                        StreamId::Stdout => false,
                        StreamId::Stderr => out_open,
                    };
                    let eo = match sid {
                        StreamId::Stdout => err_open,
                        StreamId::Stderr => false,
                    };
                    if oo || eo {
                        (None, ActionState::InProgress { out_open: oo, err_open: eo })
                    } else {
                        (None, ActionState::AwaitingExit)
                    }
                },
                ActionEvent::ReadFailed => (Some(ActionProgress::Error), ActionState::Done),
                _ => (None, self),
            },
            ActionState::AwaitingExit => match event {
                ActionEvent::Exited(ok) => (
                    Some(
                        ActionProgress::Completed(
                            if ok {
                                ActionResult::Success
                            } else {
                                ActionResult::Fail
                            },
                        ),
                    ),
                    ActionState::Done,
                ),
                _ => (None, self),
            },
            ActionState::Done => (None, self),
        }
    }

    /// Performs one step of the state machine.
    pub fn advance(self, event: ActionEvent) -> (r: (Option<ActionProgress>, ActionState))
        ensures
            r == self.advance_spec(event),
    {
        match self {
            ActionState::Ready => match event {
                ActionEvent::Spawned => (
                    Some(ActionProgress::Starting),
                    ActionState::InProgress { out_open: true, err_open: true },
                ),
                ActionEvent::SpawnFailed => (Some(ActionProgress::Error), ActionState::Done),
                _ => (None, self),
            },
            ActionState::InProgress { out_open, err_open } => match event {
                ActionEvent::LineRead(_) => (Some(ActionProgress::Continuing), self),
                ActionEvent::StreamClosed(sid) => {
                    let oo = match sid {
                        StreamId::Stdout => false,
                        StreamId::Stderr => out_open,
                    };
                    let eo = match sid {
                        StreamId::Stdout => err_open,
                        StreamId::Stderr => false,
                    };
                    if oo || eo {
                        (None, ActionState::InProgress { out_open: oo, err_open: eo })
                    } else {
                        (None, ActionState::AwaitingExit)
                    }
                },
                ActionEvent::ReadFailed => (Some(ActionProgress::Error), ActionState::Done),
                _ => (None, self),
            },
            ActionState::AwaitingExit => match event {
                ActionEvent::Exited(ok) => (
                    Some(
                        ActionProgress::Completed(
                            if ok {
                                ActionResult::Success
                            } else {
                                ActionResult::Fail
                            },
                        ),
                    ),
                    ActionState::Done,
                ),
                _ => (None, self),
            },
            ActionState::Done => (None, self),
        }
    }
}

/// An optional event as a (zero- or one-element) piece of the stream.
pub open spec fn opt_seq(e: Option<ActionProgress>) -> Seq<ActionProgress> {
    match e {
        Some(p) => seq![p],
        None => Seq::empty(),
    }
}

/// The events a whole run emits and where it ends: the machine stepped from
/// `s` over the driver's observations in order.
pub open spec fn run_trace(s: ActionState, events: Seq<ActionEvent>) -> (
    Seq<ActionProgress>,
    ActionState,
)
    decreases events.len(),
{
    if events.len() == 0 {
        (Seq::empty(), s)
    } else {
        let step = s.advance_spec(events[0]);
        let rest = run_trace(step.1, events.drop_first());
        (opt_seq(step.0) + rest.0, rest.1)
    }
}

/// A progress event that ends the stream.
pub open spec fn is_terminal(p: ActionProgress) -> bool {
    p is Completed || p is Error
}

/// A well-formed progress stream: `Starting` can stand only first; a
/// terminal event (`Completed` or `Error`) can stand only last; everything
/// strictly between is `Continuing`; and a stream that does not open with
/// `Starting` is a lone `Error` (a failed spawn).
pub open spec fn trace_wf(tr: Seq<ActionProgress>) -> bool {
    &&& forall|i: int| 0 <= i < tr.len() && is_terminal(tr[i]) ==> i == tr.len() - 1
    &&& forall|i: int| 0 <= i < tr.len() && tr[i] is Starting ==> i == 0
    &&& forall|i: int| 1 <= i < tr.len() - 1 ==> tr[i] is Continuing
    &&& (tr.len() > 0 && !(tr[0] is Starting)) ==> (tr.len() == 1 && tr[0] is Error)
}

/// How each state constrains the events already emitted.
pub open spec fn state_trace_inv(s: ActionState, tr: Seq<ActionProgress>) -> bool {
    match s {
        ActionState::Ready => tr.len() == 0,
        ActionState::InProgress { .. } => tr.len() >= 1 && tr[0] is Starting && (forall|i: int|
            1 <= i < tr.len() ==> tr[i] is Continuing),
        ActionState::AwaitingExit => tr.len() >= 1 && tr[0] is Starting && (forall|i: int|
            1 <= i < tr.len() ==> tr[i] is Continuing),
        ActionState::Done => tr.len() >= 1 && is_terminal(tr.last()) && (forall|i: int|
            0 <= i < tr.len() - 1 ==> if i == 0 {
                tr[i] is Starting
            } else {
                tr[i] is Continuing
            }) && (!(tr[0] is Starting) ==> tr.len() == 1 && tr[0] is Error),
    }
}

pub proof fn lemma_step_preserves_inv(s: ActionState, tr: Seq<ActionProgress>, e: ActionEvent)
    requires
        state_trace_inv(s, tr),
    ensures
        state_trace_inv(s.advance_spec(e).1, tr + opt_seq(s.advance_spec(e).0)),
{
    let step = s.advance_spec(e);
    let tr2 = tr + opt_seq(step.0);
    match step.0 {
        Some(p) => {
            assert(tr2.len() == tr.len() + 1);
            assert(tr2.last() == p);
            assert(forall|i: int| 0 <= i < tr.len() ==> tr2[i] == tr[i]);
        },
        None => {
            assert(tr2 =~= tr);
        },
    }
}

pub proof fn lemma_run_preserves_inv(
    s: ActionState,
    tr: Seq<ActionProgress>,
    events: Seq<ActionEvent>,
)
    requires
        state_trace_inv(s, tr),
    ensures
        state_trace_inv(run_trace(s, events).1, tr + run_trace(s, events).0),
    decreases events.len(),
{
    if events.len() == 0 {
        assert(tr + run_trace(s, events).0 =~= tr);
    } else {
        let step = s.advance_spec(events[0]);
        let rest = run_trace(step.1, events.drop_first());
        lemma_step_preserves_inv(s, tr, events[0]);
        lemma_run_preserves_inv(step.1, tr + opt_seq(step.0), events.drop_first());
        assert((tr + opt_seq(step.0)) + rest.0 =~= tr + run_trace(s, events).0);
    }
}

pub proof fn lemma_inv_implies_wf(s: ActionState, tr: Seq<ActionProgress>)
    requires
        state_trace_inv(s, tr),
    ensures
        trace_wf(tr),
{
}

/// Law (ordering guarantee): whatever the driver reports, a run from `Ready`
/// emits a well-formed stream: `Starting` only first, zero or more
/// `Continuing` events after it, at most one terminal event (`Completed` or
/// `Error`) and only in last position — so no event, in particular no
/// `Completed`, ever follows a terminal event.
pub proof fn lemma_run_trace_wf(events: Seq<ActionEvent>)
    ensures
        trace_wf(run_trace(ActionState::Ready, events).0),
{
    let tr = run_trace(ActionState::Ready, events).0;
    lemma_run_preserves_inv(ActionState::Ready, Seq::empty(), events);
    assert(Seq::<ActionProgress>::empty() + tr =~= tr);
    lemma_inv_implies_wf(run_trace(ActionState::Ready, events).1, tr);
}

/// Law: the machine is not reusable: from `Done` no event is ever emitted
/// and the state never leaves `Done`.
pub proof fn lemma_done_absorbs(events: Seq<ActionEvent>)
    ensures
        run_trace(ActionState::Done, events).0 == Seq::<ActionProgress>::empty(),
        run_trace(ActionState::Done, events).1 == ActionState::Done,
    decreases events.len(),
{
    if events.len() == 0 {
    } else {
        lemma_done_absorbs(events.drop_first());
        assert(run_trace(ActionState::Done, events).0 =~= Seq::<ActionProgress>::empty());
    }
}

/// Law: what each progress event corresponds to, exactly. `Starting` is
/// emitted for a successful spawn and nothing else; `Continuing` for one
/// delivered line while in progress, one event per line; `Completed` for the
/// observed exit status once both streams are drained, with `Success` for
/// exit status zero and `Fail` otherwise.
pub proof fn lemma_event_emission(s: ActionState, e: ActionEvent)
    ensures
        s.advance_spec(e).0 == Some(ActionProgress::Starting) <==> (s is Ready
            && e is Spawned),
        s.advance_spec(e).0 == Some(ActionProgress::Continuing) <==> (s is InProgress
            && e is LineRead),
        forall|ok: bool|
            s.advance_spec(e).0 == Some(
                ActionProgress::Completed(
                    if ok {
                        ActionResult::Success
                    } else {
                        ActionResult::Fail
                    },
                ),
            ) <==> (s is AwaitingExit && e == ActionEvent::Exited(ok)),
{
}

/// The audio cue configured for a finished run: `success_sound` when it
/// succeeded, `fail_sound` when it did not.
pub fn completion_sound(action: &GrunnerAction, result: ActionResult) -> (r: Option<String>)
    ensures
        result is Success ==> r.deep_view() == action@.success_sound,
        result is Fail ==> r.deep_view() == action@.fail_sound,
{
    match result {
        ActionResult::Success => clone_opt_string(&action.success_sound),
        ActionResult::Fail => clone_opt_string(&action.fail_sound),
    }
}

} // verus!
