//! The decisions of a latest-value worker: it waits for the newest request,
//! runs the work on it, one run at a time, publishes the output, and stops
//! once either side of its channels is gone. Requests that arrive while it
//! works are superseded by the newest one. A run that returns no output
//! publishes nothing, so the previous output stays visible, and its request
//! is reported done at once; a change to "no request" starts no run.
use vstd::prelude::*;

verus! {

/// Where the worker is in its loop.
#[derive(Clone, Copy, Debug, PartialEq, Eq, Structural)]
pub enum WorkerState {
    /// Waiting for the request to change.
    Idle,
    /// Running the work on the current request.
    Running,
    /// Publishing the output of the finished work.
    Publishing,
    /// Stopped for good.
    Stopped,
}

/// What happened since the last step.
#[derive(Clone, Copy, Debug, PartialEq, Eq, Structural)]
pub enum WorkerEvent {
    /// Every sender of requests is gone.
    RequestsClosed,
    /// The request changed; `has_request` tells whether there is one now.
    RequestChanged { has_request: bool },
    /// The work on the current request finished; `has_output` tells whether
    /// it returned an output.
    WorkFinished { has_output: bool },
    /// The output was sent; `delivered` tells whether a receiver was still
    /// there.
    OutputSent { delivered: bool },
}

/// What the worker does next.
#[derive(Clone, Copy, Debug, PartialEq, Eq, Structural)]
pub enum WorkerAction {
    /// Wait for the next change of the request.
    WaitForRequest,
    /// Mark the worker busy and run the work on the current request.
    RunRequest,
    /// Mark the worker idle and publish the output.
    PublishOutput,
    /// Mark the worker idle; publish nothing, report the request as done and
    /// wait for the next change.
    SkipOutput,
    /// Report the request as done and wait for the next change.
    FinishRequest,
    /// Leave the loop.
    Stop,
    /// The event does not arise in this state; nothing to do.
    Ignore,
}

/// The next state and action after `event` in `state`.
pub open spec fn step_of(state: WorkerState, event: WorkerEvent) -> (WorkerState, WorkerAction) {
    match (state, event) {
        (WorkerState::Stopped, _) => (WorkerState::Stopped, WorkerAction::Stop),
        (WorkerState::Idle, WorkerEvent::RequestsClosed) => (WorkerState::Stopped, WorkerAction::Stop),
        (WorkerState::Idle, WorkerEvent::RequestChanged { has_request }) => if has_request {
            (WorkerState::Running, WorkerAction::RunRequest)
        } else {
            (WorkerState::Idle, WorkerAction::WaitForRequest)
        },
        (WorkerState::Running, WorkerEvent::WorkFinished { has_output }) => if has_output {
            (WorkerState::Publishing, WorkerAction::PublishOutput)
        } else {
            (WorkerState::Idle, WorkerAction::SkipOutput)
        },
        (WorkerState::Publishing, WorkerEvent::OutputSent { delivered }) => if delivered {
            (WorkerState::Idle, WorkerAction::FinishRequest)
        } else {
            (WorkerState::Stopped, WorkerAction::Stop)
        },
        _ => (state, WorkerAction::Ignore),
    }
}

/// One step of the worker loop.
pub fn worker_step(state: WorkerState, event: WorkerEvent) -> (r: (WorkerState, WorkerAction))
    ensures
        r == step_of(state, event),
{
    match (state, event) {
        (WorkerState::Stopped, _) => (WorkerState::Stopped, WorkerAction::Stop),
        (WorkerState::Idle, WorkerEvent::RequestsClosed) => (WorkerState::Stopped, WorkerAction::Stop),
        (WorkerState::Idle, WorkerEvent::RequestChanged { has_request }) => if has_request {
            (WorkerState::Running, WorkerAction::RunRequest)
        } else {
            (WorkerState::Idle, WorkerAction::WaitForRequest)
        },
        (WorkerState::Running, WorkerEvent::WorkFinished { has_output }) => if has_output {
            (WorkerState::Publishing, WorkerAction::PublishOutput)
        } else {
            (WorkerState::Idle, WorkerAction::SkipOutput)
        },
        (WorkerState::Publishing, WorkerEvent::OutputSent { delivered }) => if delivered {
            (WorkerState::Idle, WorkerAction::FinishRequest)
        } else {
            (WorkerState::Stopped, WorkerAction::Stop)
        },
        _ => (state, WorkerAction::Ignore),
    }
}

/// Whether the worker reports itself busy in `state`.
pub open spec fn busy(state: WorkerState) -> bool {
    state == WorkerState::Running
}

/// Whether the worker is busy: exactly while the work runs.
pub fn is_busy(state: WorkerState) -> (b: bool)
    ensures
        b == busy(state),
{
    match state {
        WorkerState::Running => true,
        _ => false,
    }
}

/// A stopped worker stays stopped and does nothing but stop.
pub proof fn law_stop_is_final(event: WorkerEvent)
    ensures
        step_of(WorkerState::Stopped, event) == (WorkerState::Stopped, WorkerAction::Stop),
{
}

/// The worker is busy only between starting a request and finishing its
/// work: a step makes it busy exactly when it starts a request.
pub proof fn law_busy_only_while_running(state: WorkerState, event: WorkerEvent)
    ensures
        !busy(state) ==> (busy(step_of(state, event).0) <==> step_of(state, event).1
            == WorkerAction::RunRequest),
        busy(state) && event is WorkFinished ==> !busy(step_of(state, event).0),
{
}

/// A change to "no request" publishes nothing: the worker stays idle and the
/// previous output stays visible.
pub proof fn law_no_request_keeps_output(state: WorkerState)
    requires
        state == WorkerState::Idle,
    ensures
        step_of(state, WorkerEvent::RequestChanged { has_request: false }) == (
            WorkerState::Idle,
            WorkerAction::WaitForRequest,
        ),
{
}

/// A run that returns no output publishes nothing: the previous output stays
/// visible and the worker waits for the next request.
pub proof fn law_no_output_keeps_previous()
    ensures
        step_of(WorkerState::Running, WorkerEvent::WorkFinished { has_output: false }) == (
            WorkerState::Idle,
            WorkerAction::SkipOutput,
        ),
{
}

/// How many times `a` occurs in `actions`.
pub open spec fn occurrences(actions: Seq<WorkerAction>, a: WorkerAction) -> nat
    decreases actions.len(),
{
    if actions.len() == 0 {
        0
    } else {
        (if actions[0] == a {
            1nat
        } else {
            0nat
        }) + occurrences(actions.drop_first(), a)
    }
}

/// The actions the worker takes, in order, when `events` happen from
/// `state` on.
pub open spec fn trace(state: WorkerState, events: Seq<WorkerEvent>) -> Seq<WorkerAction>
    decreases events.len(),
{
    if events.len() == 0 {
        Seq::empty()
    } else {
        let (next, action) = step_of(state, events[0]);
        seq![action] + trace(next, events.drop_first())
    }
}

/// The state the worker is in after `events` from `state` on.
pub open spec fn state_after(state: WorkerState, events: Seq<WorkerEvent>) -> WorkerState
    decreases events.len(),
{
    if events.len() == 0 {
        state
    } else {
        state_after(step_of(state, events[0]).0, events.drop_first())
    }
}

/// 1 when the state is `s`, else 0.
pub open spec fn in_state(state: WorkerState, s: WorkerState) -> nat {
    if state == s {
        1
    } else {
        0
    }
}

proof fn lemma_trace_counts(state: WorkerState, events: Seq<WorkerEvent>)
    ensures
        ({
            let acts = trace(state, events);
            let end = state_after(state, events);
            let runs = occurrences(acts, WorkerAction::RunRequest) as int;
            let publishes = occurrences(acts, WorkerAction::PublishOutput) as int;
            let skips = occurrences(acts, WorkerAction::SkipOutput) as int;
            let finishes = occurrences(acts, WorkerAction::FinishRequest) as int;
            &&& runs + in_state(state, WorkerState::Running) == publishes + skips + in_state(
                end,
                WorkerState::Running,
            )
            &&& finishes + in_state(end, WorkerState::Publishing) <= publishes + in_state(
                state,
                WorkerState::Publishing,
            )
            &&& publishes + in_state(state, WorkerState::Publishing) + in_state(
                state,
                WorkerState::Stopped,
            ) <= finishes + in_state(end, WorkerState::Publishing) + in_state(
                end,
                WorkerState::Stopped,
            )
        }),
    decreases events.len(),
{
    if events.len() > 0 {
        let (next, action) = step_of(state, events[0]);
        let rest = events.drop_first();
        lemma_trace_counts(next, rest);
        let acts = trace(state, events);
        assert(acts.drop_first() =~= trace(next, rest));
        assert(acts[0] == action);
        assert(state_after(state, events) == state_after(next, rest));
        let run = WorkerAction::RunRequest;
        let publish = WorkerAction::PublishOutput;
        let skip = WorkerAction::SkipOutput;
        let finish = WorkerAction::FinishRequest;
        assert(occurrences(acts, run) == (if action == run { 1nat } else { 0nat }) + occurrences(
            trace(next, rest),
            run,
        ));
        assert(occurrences(acts, publish) == (if action == publish { 1nat } else { 0nat })
            + occurrences(trace(next, rest), publish));
        assert(occurrences(acts, skip) == (if action == skip { 1nat } else { 0nat }) + occurrences(
            trace(next, rest),
            skip,
        ));
        assert(occurrences(acts, finish) == (if action == finish { 1nat } else { 0nat })
            + occurrences(trace(next, rest), finish));
    } else {
        assert(trace(state, events) =~= Seq::<WorkerAction>::empty());
    }
}

/// Over any run of the worker from idle, with a run "completed" when its
/// work has returned, and a request "reported done" by a finish or a skip:
/// runs never overlap and each one completes at most once (the number of
/// runs started is the number completed, plus one while a run is in
/// progress); a completed run with an output has it published before its
/// request is reported done; and each completed run is reported done exactly
/// once, but for the one whose output is being published and the one whose
/// output no receiver took when the worker stopped.
pub proof fn law_runs_publish_then_finish(events: Seq<WorkerEvent>)
    ensures
        ({
            let acts = trace(WorkerState::Idle, events);
            let end = state_after(WorkerState::Idle, events);
            let runs = occurrences(acts, WorkerAction::RunRequest) as int;
            let publishes = occurrences(acts, WorkerAction::PublishOutput) as int;
            let skips = occurrences(acts, WorkerAction::SkipOutput) as int;
            let finishes = occurrences(acts, WorkerAction::FinishRequest) as int;
            let completed = publishes + skips;
            let done = finishes + skips;
            &&& runs == completed + in_state(end, WorkerState::Running)
            &&& finishes + in_state(end, WorkerState::Publishing) <= publishes
            &&& done + in_state(end, WorkerState::Publishing) <= completed
            &&& completed <= done + in_state(end, WorkerState::Publishing) + in_state(
                end,
                WorkerState::Stopped,
            )
            &&& end != WorkerState::Stopped ==> completed == done + in_state(
                end,
                WorkerState::Publishing,
            )
        }),
{
    lemma_trace_counts(WorkerState::Idle, events);
}

} // verus!
