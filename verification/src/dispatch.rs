//! The dispatch loop as a state machine. Its driver receives from the
//! channel and runs the sandbox; the machine says, after each outcome, what
//! the driver does next. An invocation is begun only while none is under way.

use vstd::prelude::*;
use crate::channel::{outcome_model, ChannelError};
use crate::event::{Event, EventModel};

verus! {

/// Why an invocation of the sandbox failed.
#[derive(Debug, PartialEq, Eq)]
pub enum SandboxError {
    /// The guest trapped; the text describes how.
    ExecutionFailed(String),
}

impl View for SandboxError {
    type V = Seq<char>;

    open spec fn view(&self) -> Seq<char> {
        match self {
            SandboxError::ExecutionFailed(detail) => detail@,
        }
    }
}

/// Where the loop stands.
#[derive(Clone, Copy, Debug, PartialEq, Eq, Structural)]
pub enum DispatchState {
    /// Suspended on the channel.
    Waiting,
    /// Awaiting the sandbox.
    Invoking,
}

/// What the driver reports to the machine.
#[derive(Debug, PartialEq, Eq)]
pub enum Input {
    /// What the receive returned.
    Received(Result<Event, ChannelError>),
    /// How the invocation ended.
    Invoked(Result<(), SandboxError>),
}

/// What the driver does next.
#[derive(Debug, PartialEq, Eq)]
pub enum Action {
    /// Receive from the channel.
    Receive,
    /// Call the sandbox's entry point with this argument.
    Invoke { argument: String },
}

/// What the driver puts in the log.
#[derive(Debug, PartialEq, Eq)]
pub enum Notice {
    /// The consumer fell behind and missed this many events.
    Missed(u64),
    /// The invocation failed; the text describes how.
    InvocationFailed(String),
}

/// The machine's answer to an input.
#[derive(Debug, PartialEq, Eq)]
pub struct Step {
    pub state: DispatchState,
    pub action: Action,
    pub notice: Option<Notice>,
}

pub enum InputModel {
    Received(Result<EventModel, ChannelError>),
    Invoked(Result<(), Seq<char>>),
}

pub enum ActionModel {
    Receive,
    Invoke { argument: Seq<char> },
}

pub enum NoticeModel {
    Missed(u64),
    InvocationFailed(Seq<char>),
}

pub struct StepModel {
    pub state: DispatchState,
    pub action: ActionModel,
    pub notice: Option<NoticeModel>,
}

impl View for Input {
    type V = InputModel;

    open spec fn view(&self) -> InputModel {
        match self {
            Input::Received(outcome) => InputModel::Received(outcome_model(*outcome)),
            Input::Invoked(Ok(_)) => InputModel::Invoked(Ok(())),
            Input::Invoked(Err(e)) => InputModel::Invoked(Err(e@)),
        }
    }
}

impl View for Action {
    type V = ActionModel;

    open spec fn view(&self) -> ActionModel {
        match self {
            Action::Receive => ActionModel::Receive,
            Action::Invoke { argument } => ActionModel::Invoke { argument: argument@ },
        }
    }
}

impl View for Notice {
    type V = NoticeModel;

    open spec fn view(&self) -> NoticeModel {
        match self {
            Notice::Missed(n) => NoticeModel::Missed(*n),
            Notice::InvocationFailed(detail) => NoticeModel::InvocationFailed(detail@),
        }
    }
}

impl View for Step {
    type V = StepModel;

    open spec fn view(&self) -> StepModel {
        StepModel {
            state: self.state,
            action: self.action@,
            notice: match self.notice {
                Some(n) => Some(n@),
                None => None,
            },
        }
    }
}

/// The view of a step that may be missing.
pub open spec fn step_model(step: Option<Step>) -> Option<StepModel> {
    match step {
        Some(s) => Some(s@),
        None => None,
    }
}

/// The machine's rule. While waiting, an event starts an invocation with
/// the event's URL; a report of loss is logged and the loop receives
/// again; an empty channel means receiving again. While invoking, the end
/// of the invocation, good or bad, sends the loop back to receiving, a
/// failure being logged. An input that does not fit the state has no step.
pub open spec fn step_spec(state: DispatchState, input: InputModel) -> Option<StepModel> {
    match (state, input) {
        (DispatchState::Waiting, InputModel::Received(Ok(event))) => Some(
            StepModel {
                state: DispatchState::Invoking,
                action: ActionModel::Invoke { argument: event.url() },
                notice: None,
            },
        ),
        (DispatchState::Waiting, InputModel::Received(Err(ChannelError::Lagged(n)))) => Some(
            StepModel {
                state: DispatchState::Waiting,
                action: ActionModel::Receive,
                notice: Some(NoticeModel::Missed(n)),
            },
        ),
        (DispatchState::Waiting, InputModel::Received(Err(ChannelError::Empty))) => Some(
            StepModel {
                state: DispatchState::Waiting,
                action: ActionModel::Receive,
                notice: None,
            },
        ),
        (DispatchState::Invoking, InputModel::Invoked(Ok(_))) => Some(
            StepModel {
                state: DispatchState::Waiting,
                action: ActionModel::Receive,
                notice: None,
            },
        ),
        (DispatchState::Invoking, InputModel::Invoked(Err(detail))) => Some(
            StepModel {
                state: DispatchState::Waiting,
                action: ActionModel::Receive,
                notice: Some(NoticeModel::InvocationFailed(detail)),
            },
        ),
        _ => None,
    }
}

/// The state in which the loop starts, and its first action.
pub fn start() -> (first: (DispatchState, Action))
    ensures
        first.0 == DispatchState::Waiting,
        first.1 == Action::Receive,
{
    (DispatchState::Waiting, Action::Receive)
}

/// Answers one input: the next state, what the driver does next and what
/// it logs. `None` where the input does not fit the state, which changes
/// nothing.
pub fn step(state: DispatchState, input: Input) -> (next: Option<Step>)
    ensures
        step_model(next) == step_spec(state, input@),
{
    match state {
        DispatchState::Waiting => match input {
            Input::Received(Ok(Event::PageView { url })) => Some(
                Step {
                    state: DispatchState::Invoking,
                    action: Action::Invoke { argument: url },
                    notice: None,
                },
            ),
            Input::Received(Err(ChannelError::Lagged(n))) => Some(
                Step {
                    state: DispatchState::Waiting,
                    action: Action::Receive,
                    notice: Some(Notice::Missed(n)),
                },
            ),
            Input::Received(Err(ChannelError::Empty)) => Some(
                Step { state: DispatchState::Waiting, action: Action::Receive, notice: None },
            ),
            Input::Invoked(_) => None,
        },
        DispatchState::Invoking => match input {
            Input::Invoked(Ok(_)) => Some(
                Step { state: DispatchState::Waiting, action: Action::Receive, notice: None },
            ),
            Input::Invoked(Err(SandboxError::ExecutionFailed(detail))) => Some(
                Step {
                    state: DispatchState::Waiting,
                    action: Action::Receive,
                    notice: Some(Notice::InvocationFailed(detail)),
                },
            ),
            Input::Received(_) => None,
        },
    }
}

/// What a run of the loop has done so far.
pub struct Trace {
    /// Where the loop stands.
    pub state: DispatchState,
    /// The URLs of the events received, in order.
    pub received: Seq<Seq<char>>,
    /// The arguments of the invocations begun, in order.
    pub invoked: Seq<Seq<char>>,
    /// How many invocations have ended.
    pub finished: nat,
}

/// How many invocations are under way in a state.
pub open spec fn in_flight(state: DispatchState) -> nat {
    match state {
        DispatchState::Waiting => 0,
        DispatchState::Invoking => 1,
    }
}

/// The trace after one more input, where the input fits the state.
pub open spec fn extend(trace: Trace, input: InputModel) -> Option<Trace> {
    match step_spec(trace.state, input) {
        None => None,
        Some(step) => Some(
            Trace {
                state: step.state,
                received: match input {
                    InputModel::Received(Ok(event)) => trace.received.push(event.url()),
                    _ => trace.received,
                },
                invoked: match step.action {
                    ActionModel::Invoke { argument } => trace.invoked.push(argument),
                    ActionModel::Receive => trace.invoked,
                },
                finished: match input {
                    InputModel::Invoked(_) => trace.finished + 1,
                    _ => trace.finished,
                },
            },
        ),
    }
}

/// The trace of a loop that started waiting and was given `inputs` in
/// order; `None` where one of them did not fit the state it met.
pub open spec fn run(inputs: Seq<InputModel>) -> Option<Trace>
    decreases inputs.len(),
{
    if inputs.len() == 0 {
        Some(
            Trace {
                state: DispatchState::Waiting,
                received: Seq::empty(),
                invoked: Seq::empty(),
                finished: 0,
            },
        )
    } else {
        match run(inputs.drop_last()) {
            None => None,
            Some(trace) => extend(trace, inputs.last()),
        }
    }
}

/// Invocations are serialized and follow the events. At every point of
/// every run, the invocations begun are those for the events received, one
/// each and in the order of receipt, and the number of invocations begun
/// and not yet ended is the state's own: none while waiting, one while
/// invoking, never two.
pub proof fn law_invocations_serialized(inputs: Seq<InputModel>)
    requires
        run(inputs) is Some,
    ensures
        run(inputs).unwrap().invoked == run(inputs).unwrap().received,
        run(inputs).unwrap().invoked.len() - run(inputs).unwrap().finished == in_flight(
            run(inputs).unwrap().state,
        ),
        run(inputs).unwrap().invoked.len() - run(inputs).unwrap().finished <= 1,
    decreases inputs.len(),
{
    if inputs.len() > 0 {
        law_invocations_serialized(inputs.drop_last());
    }
}

/// A failed invocation does not stop the loop: it is logged, and the loop
/// receives again, as after one that succeeded.
pub proof fn law_failure_does_not_stop_the_loop(detail: Seq<char>)
    ensures
        step_spec(DispatchState::Invoking, InputModel::Invoked(Err(detail))) == Some(
            StepModel {
                state: DispatchState::Waiting,
                action: ActionModel::Receive,
                notice: Some(NoticeModel::InvocationFailed(detail)),
            },
        ),
        step_spec(DispatchState::Invoking, InputModel::Invoked(Ok(()))) matches Some(s)
            && s.state == DispatchState::Waiting && s.action == ActionModel::Receive,
{
}

} // verus!
