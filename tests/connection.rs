use polytorus::connection::{ConnAction, ConnEvent, ConnState, Connection, Direction};

#[test]
fn inbound_connection_runs_to_closed() {
    let mut c = Connection::new(Direction::Inbound);
    assert_eq!(c.step(ConnEvent::Connected), ConnAction::SendChain);
    assert_eq!(c.state, ConnState::Open);
    assert_eq!(c.step(ConnEvent::SnapshotSent), ConnAction::AwaitFrame);
    assert_eq!(c.step(ConnEvent::FrameDecoded), ConnAction::ApplyMessage);
    assert_eq!(c.step(ConnEvent::FrameUndecodable), ConnAction::DropFrame);
    assert_eq!(c.state, ConnState::MessageLoop);
    assert_eq!(c.step(ConnEvent::TransportClosed), ConnAction::Deregister);
    assert_eq!(c.state, ConnState::Closed);
    assert_eq!(c.step(ConnEvent::Connected), ConnAction::Ignore);
    assert_eq!(c.state, ConnState::Closed);
}

#[test]
fn outbound_connection_redials() {
    let mut c = Connection::new(Direction::Outbound);
    assert_eq!(c.step(ConnEvent::ConnectFailed), ConnAction::Redial);
    assert_eq!(c.state, ConnState::Connecting);
    c.step(ConnEvent::Connected);
    c.step(ConnEvent::SnapshotSent);
    assert_eq!(c.step(ConnEvent::TransportClosed), ConnAction::Redial);
    assert_eq!(c.state, ConnState::Connecting);
}

#[test]
fn out_of_order_events_are_ignored() {
    let mut c = Connection::new(Direction::Inbound);
    assert_eq!(c.step(ConnEvent::FrameDecoded), ConnAction::Ignore);
    assert_eq!(c.state, ConnState::Connecting);
}
