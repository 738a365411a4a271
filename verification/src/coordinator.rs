//! The trigger coordinator: one push-to-talk state that every trigger source
//! goes through.
//!
//! A hotkey press asks for a toggle, an edge of the low-level hook asks for a
//! start or a stop. The coordinator decides what the request leads to. Its
//! caller holds it behind one lock, performs what was decided, and reports a
//! capture that has opened.

use vstd::prelude::*;
use crate::auth::ClientStatus;
use crate::error::PttError;

verus! {

/// Whether a recording is in progress.
#[derive(Clone, Copy, Debug, PartialEq, Eq, Structural)]
pub enum PttState {
    Idle,
    Active,
}

/// What a trigger source reports.
#[derive(Clone, Copy, Debug, PartialEq, Eq, Structural)]
pub enum Trigger {
    /// A registered hotkey was pressed.
    HotkeyPress,
    /// The hook's key combination went from released to held.
    HookDown,
    /// The hook's key combination went from held to released.
    HookUp,
}

/// What a trigger asks the coordinator for.
#[derive(Clone, Copy, Debug, PartialEq, Eq, Structural)]
pub enum Command {
    Start,
    Stop,
}

/// What a start request leads to.
#[derive(Clone, Copy, Debug, PartialEq, Eq, Structural)]
pub enum StartDecision {
    /// A recording is in progress already: nothing is to be done.
    AlreadyActive,
    /// A capture session is to be opened.
    OpenCapture,
}

/// What a stop request leads to.
#[derive(Clone, Debug, PartialEq, Eq)]
pub enum StopDecision {
    /// No recording is in progress: nothing is to be done.
    AlreadyIdle,
    /// The capture session is to be stopped and its payload uploaded under
    /// `token`.
    CloseCapture { token: String },
}

/// The device that a name from the user interface selects: the word
/// `Default` selects the host's default device, any other name the device of
/// that name.
pub fn selected_device(name: String) -> (selection: Option<String>)
    ensures
        selection == if name@ == "Default"@ {
            None
        } else {
            Some(name)
        },
{
    let word = String::from_str("Default");
    if name == word {
        None
    } else {
        Some(name)
    }
}

/// The decision on a start request in state `state` with authorization
/// `status`. A recording in progress makes the request a no-op, before the
/// authorization is looked at; without a recording, a missing status refuses
/// the request with `NotReady` and a banned one with `AccessDenied`.
pub open spec fn start_decision(state: PttState, status: Option<ClientStatus>) -> Result<
    StartDecision,
    PttError,
> {
    match state {
        PttState::Active => Ok(StartDecision::AlreadyActive),
        PttState::Idle => match status {
            None => Err(PttError::NotReady),
            Some(client) => if client.banned() {
                Err(PttError::AccessDenied)
            } else {
                Ok(StartDecision::OpenCapture)
            },
        },
    }
}

/// The decision on a stop request. Without a recording the request is a
/// no-op; with one, a missing status refuses the request with `NotReady`, and
/// any status, banned or not, lets the recording end.
pub open spec fn stop_decision(state: PttState, status: Option<ClientStatus>) -> Result<
    StopDecision,
    PttError,
> {
    match state {
        PttState::Idle => Ok(StopDecision::AlreadyIdle),
        PttState::Active => match status {
            None => Err(PttError::NotReady),
            Some(client) => Ok(StopDecision::CloseCapture { token: client.token }),
        },
    }
}

/// The state after a stop request: idle once a capture is to be closed,
/// unchanged otherwise.
pub open spec fn state_after_stop(state: PttState, status: Option<ClientStatus>) -> PttState {
    match stop_decision(state, status) {
        Ok(StopDecision::CloseCapture { .. }) => PttState::Idle,
        _ => state,
    }
}

/// The command that a trigger stands for in state `state`: a hotkey press
/// toggles, a down-edge starts, an up-edge stops.
pub open spec fn command_for(state: PttState, trigger: Trigger) -> Command {
    match trigger {
        Trigger::HotkeyPress => match state {
            PttState::Idle => Command::Start,
            PttState::Active => Command::Stop,
        },
        Trigger::HookDown => Command::Start,
        Trigger::HookUp => Command::Stop,
    }
}

/// The owner of the push-to-talk state.
#[derive(Debug)]
pub struct TriggerCoordinator {
    state: PttState,
}

impl View for TriggerCoordinator {
    type V = PttState;

    closed spec fn view(&self) -> PttState {
        self.state
    }
}

impl TriggerCoordinator {
    /// A coordinator with no recording in progress.
    pub fn new() -> (coordinator: TriggerCoordinator)
        ensures
            coordinator@ == PttState::Idle,
    {
        TriggerCoordinator { state: PttState::Idle }
    }

    /// The current state.
    pub fn state(&self) -> (state: PttState)
        ensures
            state == self@,
    {
        self.state
    }

    /// The command that `trigger` stands for now.
    pub fn command(&self, trigger: Trigger) -> (command: Command)
        ensures
            command == command_for(self@, trigger),
    {
        match trigger {
            Trigger::HotkeyPress => match self.state {
                PttState::Idle => Command::Start,
                PttState::Active => Command::Stop,
            },
            Trigger::HookDown => Command::Start,
            Trigger::HookUp => Command::Stop,
        }
    }

    /// Decides on a start request. The state is not changed: it becomes
    /// `Active` when the caller reports the opened capture with
    /// `capture_started`.
    pub fn start_recording(&self, status: Option<&ClientStatus>) -> (decision: Result<
        StartDecision,
        PttError,
    >)
        ensures
            decision == start_decision(
                self@,
                match status {
                    Some(client) => Some(*client),
                    None => None,
                },
            ),
    {
        match self.state {
            PttState::Active => Ok(StartDecision::AlreadyActive),
            PttState::Idle => match status {
                None => Err(PttError::NotReady),
                Some(client) => if client.is_banned() {
                    Err(PttError::AccessDenied)
                } else {
                    Ok(StartDecision::OpenCapture)
                },
            },
        }
    }

    /// Records that the capture which `start_recording` asked for has opened.
    pub fn capture_started(&mut self)
        ensures
            final(self)@ == PttState::Active,
    {
        self.state = PttState::Active;
    }

    /// Decides on a stop request, and leaves the `Active` state where the
    /// capture is to be closed.
    pub fn stop_recording(&mut self, status: Option<&ClientStatus>) -> (decision: Result<
        StopDecision,
        PttError,
    >)
        ensures
            decision == stop_decision(
                old(self)@,
                match status {
                    Some(client) => Some(*client),
                    None => None,
                },
            ),
            final(self)@ == state_after_stop(
                old(self)@,
                match status {
                    Some(client) => Some(*client),
                    None => None,
                },
            ),
    {
        match self.state {
            PttState::Idle => Ok(StopDecision::AlreadyIdle),
            PttState::Active => match status {
                None => Err(PttError::NotReady),
                Some(client) => {
                    self.state = PttState::Idle;
                    Ok(StopDecision::CloseCapture { token: client.token.clone() })
                },
            },
        }
    }
}

/// A start request during a recording is a no-op: it is answered with
/// `AlreadyActive` whatever the authorization says, and no capture is opened.
pub proof fn lemma_start_while_active(status: Option<ClientStatus>)
    ensures
        start_decision(PttState::Active, status) == Ok::<StartDecision, PttError>(
            StartDecision::AlreadyActive,
        ),
{
}

/// A stop request without a recording is a no-op: it is answered with
/// `AlreadyIdle` whatever the authorization says, and the state stays `Idle`.
pub proof fn lemma_stop_while_idle(status: Option<ClientStatus>)
    ensures
        stop_decision(PttState::Idle, status) == Ok::<StopDecision, PttError>(
            StopDecision::AlreadyIdle,
        ),
        state_after_stop(PttState::Idle, status) == PttState::Idle,
{
}

/// The authorization checks change nothing: a refused stop leaves the state
/// as it was.
pub proof fn lemma_refusal_keeps_state(state: PttState, status: Option<ClientStatus>)
    requires
        stop_decision(state, status) is Err,
    ensures
        state_after_stop(state, status) == state,
{
}

/// One request as the coordinator's caller lives it: a start, with whether
/// the capture then opened, or a stop.
pub enum Request {
    Start { status: Option<ClientStatus>, opened: bool },
    Stop { status: Option<ClientStatus> },
}

/// The push-to-talk state together with the number of open capture sessions.
pub struct Run {
    pub state: PttState,
    pub sessions: int,
}

impl Run {
    /// No recording, no session.
    pub open spec fn start() -> Run {
        Run { state: PttState::Idle, sessions: 0 }
    }

    /// The run after one request. A start that is told to open a capture
    /// counts a session once the capture has opened, and makes the state
    /// `Active`; a stop that is told to close the capture counts it off.
    pub open spec fn step(self, request: Request) -> Run {
        match request {
            Request::Start { status, opened } => match start_decision(self.state, status) {
                Ok(StartDecision::OpenCapture) => if opened {
                    Run { state: PttState::Active, sessions: self.sessions + 1 }
                } else {
                    self
                },
                _ => self,
            },
            Request::Stop { status } => Run {
                state: state_after_stop(self.state, status),
                sessions: match stop_decision(self.state, status) {
                    Ok(StopDecision::CloseCapture { .. }) => self.sessions - 1,
                    _ => self.sessions,
                },
            },
        }
    }

    /// The run after a sequence of requests, served one after the other.
    pub open spec fn after(self, requests: Seq<Request>) -> Run
        decreases requests.len(),
    {
        if requests.len() == 0 {
            self
        } else {
            self.after(requests.drop_last()).step(requests.last())
        }
    }
}

/// However many requests arrive, from whichever sources and in whatever
/// order, at most one capture session is open at any time: exactly one
/// while the state is `Active`, none while it is `Idle`.
pub proof fn lemma_at_most_one_session(requests: Seq<Request>)
    ensures
        Run::start().after(requests).sessions == match Run::start().after(requests).state {
            PttState::Active => 1int,
            PttState::Idle => 0int,
        },
    decreases requests.len(),
{
    if requests.len() > 0 {
        lemma_at_most_one_session(requests.drop_last());
    }
}

} // verus!
