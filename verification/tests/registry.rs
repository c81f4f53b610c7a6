use tt::error::SessionError;
use tt::message::ServerMessage;
use tt::registry::{ClientRegistry, ConnectedClient, Delivery};
use tt::render::render;
use tt::state::TermTextState;

fn client(id: u64) -> ConnectedClient {
    ConnectedClient { id }
}

fn received_by(plan: &[Delivery], who: ConnectedClient) -> Vec<ServerMessage> {
    let mut received = Vec::new();
    for delivery in plan {
        if delivery.client == who {
            received.push(delivery.message.clone());
        }
    }
    received
}

#[test]
fn new_registry_has_no_members() {
    let registry = ClientRegistry::new();
    assert_eq!(registry.len(), 0);
    assert_eq!(registry.members(), vec![]);
    assert!(!registry.contains(client(1)));
}

#[test]
fn add_registers_each_client_once() {
    let mut registry = ClientRegistry::new();
    assert!(registry.add(client(4)));
    assert!(registry.add(client(7)));
    assert!(!registry.add(client(4)));
    assert_eq!(registry.len(), 2);
    assert_eq!(registry.members(), vec![client(4), client(7)]);
    assert!(registry.contains(client(4)));
    assert!(registry.contains(client(7)));
    assert!(!registry.contains(client(5)));
}

#[test]
fn remove_takes_out_exactly_that_client() {
    let mut registry = ClientRegistry::new();
    for id in [1, 2, 3, 4] {
        registry.add(client(id));
    }
    assert_eq!(registry.remove(client(2)), Ok(()));
    assert_eq!(registry.members(), vec![client(1), client(4), client(3)]);
    assert_eq!(registry.remove(client(3)), Ok(()));
    assert_eq!(registry.members(), vec![client(1), client(4)]);
    assert_eq!(registry.remove(client(1)), Ok(()));
    assert_eq!(registry.remove(client(4)), Ok(()));
    assert_eq!(registry.len(), 0);
}

#[test]
fn remove_of_a_stranger_is_a_state_invariant_violation() {
    let mut registry = ClientRegistry::new();
    assert_eq!(registry.remove(client(1)), Err(SessionError::StateInvariantViolation));
    registry.add(client(1));
    assert_eq!(registry.remove(client(2)), Err(SessionError::StateInvariantViolation));
    assert_eq!(registry.members(), vec![client(1)]);
    assert_eq!(registry.remove(client(1)), Ok(()));
    assert_eq!(registry.remove(client(1)), Err(SessionError::StateInvariantViolation));
}

#[test]
fn broadcast_sends_one_message_to_every_member() {
    let mut registry = ClientRegistry::new();
    registry.add(client(1));
    registry.add(client(2));
    registry.add(client(3));
    let plan = registry.broadcast(&ServerMessage::Shutdown);
    assert_eq!(
        plan,
        vec![
            Delivery { client: client(1), message: ServerMessage::Shutdown },
            Delivery { client: client(2), message: ServerMessage::Shutdown },
            Delivery { client: client(3), message: ServerMessage::Shutdown },
        ]
    );
}

#[test]
fn broadcast_without_members_sends_nothing() {
    let registry = ClientRegistry::new();
    assert_eq!(registry.broadcast(&ServerMessage::Cursor((1, 2))), vec![]);
    assert_eq!(registry.send_update(&vec![ServerMessage::Shutdown]), vec![]);
}

#[test]
fn send_update_reaches_both_clients_with_the_same_sequence() {
    let mut state = TermTextState::default();
    state.size = (80, 24);
    state.create_buffer("/tmp/a.txt").data.push_str("hello");
    let messages = render(&state);
    assert_eq!(messages.len(), 3);

    let mut registry = ClientRegistry::new();
    registry.add(client(10));
    registry.add(client(20));
    let plan = registry.send_update(&messages);

    assert_eq!(plan.len(), 6);
    assert_eq!(received_by(&plan, client(10)), messages);
    assert_eq!(received_by(&plan, client(20)), messages);
    assert_eq!(received_by(&plan, client(30)), vec![]);
}

#[test]
fn send_update_goes_message_by_message() {
    let mut registry = ClientRegistry::new();
    registry.add(client(1));
    registry.add(client(2));
    let messages = vec![ServerMessage::Log("a".to_string()), ServerMessage::Cursor((3, 4))];
    assert_eq!(
        registry.send_update(&messages),
        vec![
            Delivery { client: client(1), message: ServerMessage::Log("a".to_string()) },
            Delivery { client: client(2), message: ServerMessage::Log("a".to_string()) },
            Delivery { client: client(1), message: ServerMessage::Cursor((3, 4)) },
            Delivery { client: client(2), message: ServerMessage::Cursor((3, 4)) },
        ]
    );
}

#[test]
fn a_failed_send_takes_nothing_from_the_other_client() {
    let mut registry = ClientRegistry::new();
    registry.add(client(1));
    registry.add(client(2));
    let messages = vec![
        ServerMessage::Update((0, 0), (80, 24), vec!["     1 | x".to_string()]),
        ServerMessage::Update((0, 23), (80, 1), vec!["tt: Normal".to_string()]),
        ServerMessage::Cursor((10, 0)),
    ];
    let plan = registry.send_update(&messages);
    // Client 1's connection is broken: every send to it fails.
    let mut arrived = Vec::new();
    let mut failures = 0;
    for delivery in &plan {
        if delivery.client == client(1) {
            failures += 1;
        } else {
            arrived.push(delivery.message.clone());
        }
    }
    assert_eq!(failures, 3);
    assert_eq!(arrived, messages);
}
