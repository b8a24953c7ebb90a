//! The capture session: what the manager of the input stream does next.
//!
//! The manager looks for a device, streams from it until the stream ends,
//! waits, and looks again, for as long as the process lives. What it does is
//! decided here, from the state it is in and from what happened; doing it
//! is left to the caller, who reports back what came of it.

use crate::config::Negotiation;
use vstd::prelude::*;

verus! {

/// The seconds to wait after a session could not be started.
pub const NEGOTIATION_BACKOFF_SECS: u64 = 5;

/// The seconds to wait after a stream that was running ended.
pub const RESTART_BACKOFF_SECS: u64 = 1;

/// Where the manager stands.
#[derive(Debug, Clone, Copy, PartialEq, Eq, Structural)]
pub enum SessionState {
    /// Not started yet.
    Idle,
    /// Looking for a device and a configuration.
    Negotiating,
    /// Capturing at `sample_rate`.
    Streaming { sample_rate: u32 },
    /// Waiting `backoff_secs` seconds before it looks again.
    Failed { backoff_secs: u64 },
}

/// What happened.
#[derive(Debug, Clone, Copy, PartialEq, Eq, Structural)]
pub enum SessionEvent {
    /// The manager was started.
    Started,
    /// A device was found whose stream runs at `sample_rate`.
    Negotiated { sample_rate: u32 },
    /// No device was found, or its stream could not be built.
    NegotiationFailed,
    /// The stream was built and could not be started.
    PlayFailed,
    /// The stream ended: the hardware reported an error, or a block could
    /// not be handed on.
    StreamEnded,
    /// The wait is over.
    BackoffElapsed,
}

/// What the manager does next.
#[derive(Debug, Clone, Copy, PartialEq, Eq, Structural)]
pub enum SessionAction {
    /// Look for a device and a configuration, and build the stream.
    Negotiate,
    /// Start the stream and wait for it to end. Where `update_rate` holds,
    /// first change the rate of the buffer to `sample_rate`.
    Stream { sample_rate: u32, update_rate: bool },
    /// Wait for `seconds` seconds.
    Backoff { seconds: u64 },
    /// Nothing: the event does not belong to the state.
    Ignore,
}

/// The state after `event` in `state`.
pub open spec fn next_state(state: SessionState, event: SessionEvent) -> SessionState {
    match (state, event) {
        (SessionState::Idle, SessionEvent::Started) => SessionState::Negotiating,
        (SessionState::Negotiating, SessionEvent::Negotiated { sample_rate }) => {
            SessionState::Streaming { sample_rate }
        },
        (SessionState::Negotiating, SessionEvent::NegotiationFailed) => SessionState::Failed {
            backoff_secs: NEGOTIATION_BACKOFF_SECS,
        },
        (SessionState::Streaming { .. }, SessionEvent::PlayFailed) => SessionState::Failed {
            backoff_secs: NEGOTIATION_BACKOFF_SECS,
        },
        (SessionState::Streaming { .. }, SessionEvent::StreamEnded) => SessionState::Failed {
            backoff_secs: RESTART_BACKOFF_SECS,
        },
        (SessionState::Failed { .. }, SessionEvent::BackoffElapsed) => SessionState::Negotiating,
        _ => state,
    }
}

/// What the manager does on `event` in `state`, with a buffer that runs at
/// `buffer_rate`.
pub open spec fn action_for(state: SessionState, event: SessionEvent, buffer_rate: u32)
    -> SessionAction {
    match (state, event) {
        (SessionState::Idle, SessionEvent::Started) => SessionAction::Negotiate,
        (SessionState::Negotiating, SessionEvent::Negotiated { sample_rate }) => {
            SessionAction::Stream { sample_rate, update_rate: sample_rate != buffer_rate }
        },
        (SessionState::Negotiating, SessionEvent::NegotiationFailed) => SessionAction::Backoff {
            seconds: NEGOTIATION_BACKOFF_SECS,
        },
        (SessionState::Streaming { .. }, SessionEvent::PlayFailed) => SessionAction::Backoff {
            seconds: NEGOTIATION_BACKOFF_SECS,
        },
        (SessionState::Streaming { .. }, SessionEvent::StreamEnded) => SessionAction::Backoff {
            seconds: RESTART_BACKOFF_SECS,
        },
        (SessionState::Failed { .. }, SessionEvent::BackoffElapsed) => SessionAction::Negotiate,
        _ => SessionAction::Ignore,
    }
}

/// The state after `event` in `state`, and what to do on the way.
pub fn step(state: SessionState, event: SessionEvent, buffer_rate: u32) -> (r: (
    SessionState,
    SessionAction,
))
    ensures
        r.0 == next_state(state, event),
        r.1 == action_for(state, event, buffer_rate),
{
    match state {
        SessionState::Idle => match event {
            SessionEvent::Started => (SessionState::Negotiating, SessionAction::Negotiate),
            _ => (state, SessionAction::Ignore),
        },
        SessionState::Negotiating => match event {
            SessionEvent::Negotiated { sample_rate } => (
                SessionState::Streaming { sample_rate },
                SessionAction::Stream { sample_rate, update_rate: sample_rate != buffer_rate },
            ),
            SessionEvent::NegotiationFailed => (
                SessionState::Failed { backoff_secs: NEGOTIATION_BACKOFF_SECS },
                SessionAction::Backoff { seconds: NEGOTIATION_BACKOFF_SECS },
            ),
            _ => (state, SessionAction::Ignore),
        },
        SessionState::Streaming { .. } => match event {
            SessionEvent::PlayFailed => (
                SessionState::Failed { backoff_secs: NEGOTIATION_BACKOFF_SECS },
                SessionAction::Backoff { seconds: NEGOTIATION_BACKOFF_SECS },
            ),
            SessionEvent::StreamEnded => (
                SessionState::Failed { backoff_secs: RESTART_BACKOFF_SECS },
                SessionAction::Backoff { seconds: RESTART_BACKOFF_SECS },
            ),
            _ => (state, SessionAction::Ignore),
        },
        SessionState::Failed { .. } => match event {
            SessionEvent::BackoffElapsed => (SessionState::Negotiating, SessionAction::Negotiate),
            _ => (state, SessionAction::Ignore),
        },
    }
}

/// The event that the outcome of a search for a device amounts to: only a
/// device that was found starts a session.
pub open spec fn event_of(outcome: Negotiation) -> SessionEvent {
    match outcome {
        Negotiation::Found { device, config } => SessionEvent::Negotiated {
            sample_rate: config.sample_rate,
        },
        _ => SessionEvent::NegotiationFailed,
    }
}

/// The event that the outcome of a search for a device amounts to.
pub fn negotiation_event(outcome: Negotiation) -> (r: SessionEvent)
    ensures
        r == event_of(outcome),
{
    match outcome {
        Negotiation::Found { device, config } => SessionEvent::Negotiated {
            sample_rate: config.sample_rate,
        },
        _ => SessionEvent::NegotiationFailed,
    }
}

/// Whether a block that the hardware delivered ends the session: it does
/// where the block could not be handed on.
pub fn block_event(handed_on: bool) -> (r: Option<SessionEvent>)
    ensures
        handed_on ==> r is None,
        !handed_on ==> r == Some(SessionEvent::StreamEnded),
{
    if handed_on {
        None
    } else {
        Some(SessionEvent::StreamEnded)
    }
}

/// The state after `rounds` rounds in which the search fails and the wait
/// passes, starting in `state`.
pub open spec fn after_failed_rounds(state: SessionState, rounds: nat) -> SessionState
    decreases rounds,
{
    if rounds == 0 {
        state
    } else {
        next_state(
            next_state(
                after_failed_rounds(state, (rounds - 1) as nat),
                SessionEvent::NegotiationFailed,
            ),
            SessionEvent::BackoffElapsed,
        )
    }
}

/// No state is final: from each state some event leads to another.
pub proof fn lemma_no_terminal_state(state: SessionState)
    ensures
        exists|event: SessionEvent| next_state(state, event) != state,
{
    match state {
        SessionState::Idle => {
            assert(next_state(state, SessionEvent::Started) != state);
        },
        SessionState::Negotiating => {
            assert(next_state(state, SessionEvent::NegotiationFailed) != state);
        },
        SessionState::Streaming { .. } => {
            assert(next_state(state, SessionEvent::StreamEnded) != state);
        },
        SessionState::Failed { .. } => {
            assert(next_state(state, SessionEvent::BackoffElapsed) != state);
        },
    }
}

/// A failure is never the end: the manager waits as long as the state
/// says, five seconds or one, and when the wait is over it looks for a device
/// again.
pub proof fn lemma_failure_is_retried(state: SessionState, event: SessionEvent, buffer_rate: u32)
    requires
        !(state is Failed),
        next_state(state, event) is Failed,
    ensures
        action_for(state, event, buffer_rate) == (SessionAction::Backoff {
            seconds: next_state(state, event)->backoff_secs,
        }),
        next_state(state, event)->backoff_secs == NEGOTIATION_BACKOFF_SECS || next_state(
            state,
            event,
        )->backoff_secs == RESTART_BACKOFF_SECS,
        next_state(next_state(state, event), SessionEvent::BackoffElapsed)
            == SessionState::Negotiating,
        action_for(next_state(state, event), SessionEvent::BackoffElapsed, buffer_rate)
            == SessionAction::Negotiate,
{
}

/// However often the search fails, the manager is back at searching after
/// each wait, and each failure is answered with the same wait of five
/// seconds.
pub proof fn lemma_retries_forever(rounds: nat)
    ensures
        after_failed_rounds(SessionState::Negotiating, rounds) == SessionState::Negotiating,
        action_for(
            after_failed_rounds(SessionState::Negotiating, rounds),
            SessionEvent::NegotiationFailed,
            0,
        ) == (SessionAction::Backoff { seconds: 5 }),
    decreases rounds,
{
    if rounds > 0 {
        lemma_retries_forever((rounds - 1) as nat);
    }
}

/// The buffer is brought to the rate of the stream before the stream
/// starts: the one step that enters `Streaming` asks for the change
/// whenever the rates differ.
pub proof fn lemma_rate_is_updated_before_streaming(
    state: SessionState,
    event: SessionEvent,
    buffer_rate: u32,
)
    requires
        !(state is Streaming),
        next_state(state, event) is Streaming,
    ensures
        action_for(state, event, buffer_rate) == (SessionAction::Stream {
            sample_rate: next_state(state, event)->sample_rate,
            update_rate: next_state(state, event)->sample_rate != buffer_rate,
        }),
{
}

} // verus!
