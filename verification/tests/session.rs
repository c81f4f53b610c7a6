use tt::error::SessionError;
use tt::event::ServerEvent;
use tt::message::{ClientMessage, Key};
use tt::registry::ConnectedClient;
use tt::session::{receiver_step, ReceiverStep};

fn client() -> ConnectedClient {
    ConnectedClient { id: 5 }
}

#[test]
fn a_message_goes_to_the_bus_as_an_event_of_its_client() {
    let messages = vec![
        ClientMessage::Connect(vec!["a.txt".to_string()]),
        ClientMessage::RequestRefresh,
        ClientMessage::SendInput(Key::Char('x')),
        ClientMessage::Resize((80, 24)),
    ];
    for message in messages {
        assert_eq!(
            receiver_step(client(), Ok(Some(message.clone()))),
            ReceiverStep::Forward(ServerEvent::ClientMessageReceived(client(), message))
        );
    }
}

#[test]
fn disconnect_is_the_last_message_that_is_forwarded() {
    assert_eq!(
        receiver_step(client(), Ok(Some(ClientMessage::Disconnect))),
        ReceiverStep::ForwardAndEnd(ServerEvent::ClientMessageReceived(
            client(),
            ClientMessage::Disconnect
        ))
    );
}

#[test]
fn no_message_yet_is_a_reason_to_wait() {
    assert_eq!(receiver_step(client(), Ok(None)), ReceiverStep::Wait);
}

#[test]
fn a_failed_connection_drops_its_client() {
    assert_eq!(
        receiver_step(client(), Err(SessionError::MalformedFrame)),
        ReceiverStep::DropClient
    );
    assert_eq!(receiver_step(client(), Err(SessionError::IOError)), ReceiverStep::DropClient);
}

#[test]
fn a_message_out_of_phase_is_passed_over() {
    assert_eq!(receiver_step(client(), Err(SessionError::ProtocolViolation)), ReceiverStep::Wait);
}

#[test]
fn a_broken_invariant_stops_the_daemon() {
    assert_eq!(
        receiver_step(client(), Err(SessionError::StateInvariantViolation)),
        ReceiverStep::Abort
    );
}
