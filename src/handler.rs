//! Lifecycle of a peer's stream handler: which events keep it running and
//! which close it.
use vstd::prelude::*;
use crate::frame::FrameError;

verus! {

/// State of a stream handler.
#[derive(Debug, Clone, Copy, PartialEq, Eq, Structural)]
pub enum HandlerState {
    Idle,
    Running,
    Closed,
}

/// What the loops of a handler report.
#[derive(Debug, Clone, Copy, PartialEq, Eq, Structural)]
pub enum HandlerEvent {
    /// The transport is connected and both loops start.
    Started,
    /// The broadcast subscriber fell behind and missed this many packets.
    Lagged(u64),
    /// The broadcast or aggregation channel is gone.
    ChannelClosed,
    /// Reading from or writing to the transport failed, or it reached its end.
    TransportFailed,
    /// The inbound stream cannot be decoded any further.
    Corrupted(FrameError),
}

/// What the handler does after an event.
#[derive(Debug, Clone, Copy, PartialEq, Eq, Structural)]
pub enum HandlerAction {
    /// Keep both loops going.
    Continue,
    /// Record that this many packets were skipped, and keep going.
    Warn(u64),
    /// Stop both loops.
    Stop,
}

/// The state and action that follow `ev` in state `s`.
pub open spec fn next_spec(s: HandlerState, ev: HandlerEvent) -> (HandlerState, HandlerAction) {
    match s {
        HandlerState::Closed => (HandlerState::Closed, HandlerAction::Stop),
        HandlerState::Idle => match ev {
            HandlerEvent::Started => (HandlerState::Running, HandlerAction::Continue),
            _ => (HandlerState::Closed, HandlerAction::Stop),
        },
        HandlerState::Running => match ev {
            HandlerEvent::Started => (HandlerState::Running, HandlerAction::Continue),
            HandlerEvent::Lagged(n) => (HandlerState::Running, HandlerAction::Warn(n)),
            _ => (HandlerState::Closed, HandlerAction::Stop),
        },
    }
}

/// Advances a handler: a lag is recoverable, any other failure closes it,
/// and a closed handler stays closed.
pub fn next_state(s: HandlerState, ev: HandlerEvent) -> (r: (HandlerState, HandlerAction))
    ensures
        r == next_spec(s, ev),
{
    match s {
        HandlerState::Closed => (HandlerState::Closed, HandlerAction::Stop),
        HandlerState::Idle => match ev {
            HandlerEvent::Started => (HandlerState::Running, HandlerAction::Continue),
            _ => (HandlerState::Closed, HandlerAction::Stop),
        },
        HandlerState::Running => match ev {
            HandlerEvent::Started => (HandlerState::Running, HandlerAction::Continue),
            HandlerEvent::Lagged(n) => (HandlerState::Running, HandlerAction::Warn(n)),
            _ => (HandlerState::Closed, HandlerAction::Stop),
        },
    }
}

/// A closed handler never runs again, whatever it is told.
pub proof fn lemma_closed_is_final(ev: HandlerEvent)
    ensures
        next_spec(HandlerState::Closed, ev) == (HandlerState::Closed, HandlerAction::Stop),
{
}

} // verus!
