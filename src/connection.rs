//! The life of one peer connection: `Connecting`, `Open`, `MessageLoop`,
//! `Closed`. Each event the transport reports gives the next state and the
//! one thing for the caller to do.

use vstd::prelude::*;

verus! {

/// Who opened the connection.
#[derive(Debug, Clone, Copy, PartialEq, Eq, Structural)]
pub enum Direction {
    /// A peer dialled this node.
    Inbound,
    /// This node dialled a configured peer.
    Outbound,
}

/// Where a connection stands.
#[derive(Debug, Clone, Copy, PartialEq, Eq, Structural)]
pub enum ConnState {
    Connecting,
    Open,
    MessageLoop,
    Closed,
}

/// What the transport reports.
#[derive(Debug, Clone, Copy, PartialEq, Eq, Structural)]
pub enum ConnEvent {
    /// The socket is up (accepted or dialled).
    Connected,
    /// Dialling failed.
    ConnectFailed,
    /// The chain snapshot went out.
    SnapshotSent,
    /// A frame arrived and decoded.
    FrameDecoded,
    /// A frame arrived that does not decode.
    FrameUndecodable,
    /// The transport failed or the peer closed it.
    TransportClosed,
}

/// What the caller does next.
#[derive(Debug, Clone, Copy, PartialEq, Eq, Structural)]
pub enum ConnAction {
    /// Send the current chain to the peer.
    SendChain,
    /// Wait for the next frame.
    AwaitFrame,
    /// Apply the decoded message to the node's state.
    ApplyMessage,
    /// Log the frame and drop it; the connection stays.
    DropFrame,
    /// Remove the connection from the registry, wait the fixed delay, dial again.
    Redial,
    /// Remove the connection from the registry for good.
    Deregister,
    /// Nothing to do.
    Ignore,
}

/// The next state and action for `event` in `state`.
pub open spec fn transition(dir: Direction, state: ConnState, event: ConnEvent) -> (ConnState, ConnAction) {
    match (state, event) {
        (ConnState::Connecting, ConnEvent::Connected) => (ConnState::Open, ConnAction::SendChain),
        (ConnState::Connecting, ConnEvent::ConnectFailed) => match dir {
            Direction::Outbound => (ConnState::Connecting, ConnAction::Redial),
            Direction::Inbound => (ConnState::Closed, ConnAction::Deregister),
        },
        (ConnState::Open, ConnEvent::SnapshotSent) => (ConnState::MessageLoop, ConnAction::AwaitFrame),
        (ConnState::MessageLoop, ConnEvent::FrameDecoded) => (ConnState::MessageLoop, ConnAction::ApplyMessage),
        (ConnState::MessageLoop, ConnEvent::FrameUndecodable) => (ConnState::MessageLoop, ConnAction::DropFrame),
        (ConnState::Open, ConnEvent::TransportClosed) | (ConnState::MessageLoop, ConnEvent::TransportClosed) => match dir {
            Direction::Outbound => (ConnState::Connecting, ConnAction::Redial),
            Direction::Inbound => (ConnState::Closed, ConnAction::Deregister),
        },
        _ => (state, ConnAction::Ignore),
    }
}

/// A closed connection stays closed, whatever is reported.
pub proof fn lemma_closed_is_terminal(dir: Direction, event: ConnEvent)
    ensures
        transition(dir, ConnState::Closed, event).0 == ConnState::Closed,
{
}

/// A connection this node dialled is never given up: it only ever goes back
/// to dialling.
pub proof fn lemma_outbound_never_closes(state: ConnState, event: ConnEvent)
    requires
        state != ConnState::Closed,
    ensures
        transition(Direction::Outbound, state, event).0 != ConnState::Closed,
{
}

/// A frame that does not decode is dropped without ending the connection.
pub proof fn lemma_bad_frame_keeps_connection(dir: Direction)
    ensures
        transition(dir, ConnState::MessageLoop, ConnEvent::FrameUndecodable) == (
        ConnState::MessageLoop,
        ConnAction::DropFrame,
        ),
{
}

/// One peer connection.
#[derive(Debug)]
pub struct Connection {
    pub direction: Direction,
    pub state: ConnState,
}

impl Connection {
    /// A connection about to be set up.
    pub fn new(direction: Direction) -> (r: Connection)
        ensures
            r.direction == direction,
            r.state == ConnState::Connecting,
    {
        Connection { direction, state: ConnState::Connecting }
    }

    /// Moves on `event` and says what to do.
    pub fn step(&mut self, event: ConnEvent) -> (r: ConnAction)
        ensures
            final(self).direction == old(self).direction,
            (final(self).state, r) == transition(old(self).direction, old(self).state, event),
    {
        let (next, action) = match (self.state, event) {
            (ConnState::Connecting, ConnEvent::Connected) => (ConnState::Open, ConnAction::SendChain),
            (ConnState::Connecting, ConnEvent::ConnectFailed) => match self.direction {
                Direction::Outbound => (ConnState::Connecting, ConnAction::Redial),
                Direction::Inbound => (ConnState::Closed, ConnAction::Deregister),
            },
            (ConnState::Open, ConnEvent::SnapshotSent) => (ConnState::MessageLoop, ConnAction::AwaitFrame),
            (ConnState::MessageLoop, ConnEvent::FrameDecoded) => (ConnState::MessageLoop, ConnAction::ApplyMessage),
            (ConnState::MessageLoop, ConnEvent::FrameUndecodable) => (ConnState::MessageLoop, ConnAction::DropFrame),
            (ConnState::Open, ConnEvent::TransportClosed) | (ConnState::MessageLoop, ConnEvent::TransportClosed) => {
                match self.direction {
                    Direction::Outbound => (ConnState::Connecting, ConnAction::Redial),
                    Direction::Inbound => (ConnState::Closed, ConnAction::Deregister),
                }
            },
            _ => (self.state, ConnAction::Ignore),
        };
        self.state = next;
        action
    }
}

} // verus!
