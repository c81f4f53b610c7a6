use tt::error::SessionError;
use tt::event::{file_opened, handle_server_event, Effect, ServerEvent};
use tt::message::{ClientMessage, Key, ServerMessage};
use tt::registry::{ClientRegistry, ConnectedClient};
use tt::render::render;
use tt::state::{BufferMode, TermTextState};

fn client(id: u64) -> ConnectedClient {
    ConnectedClient { id }
}

fn state_with_buffer(path: &str, text: &str) -> TermTextState {
    let mut state = TermTextState::default();
    state.size = (80, 24);
    state.create_buffer(path).data.push_str(text);
    state
}

fn received(state: &mut TermTextState, message: ClientMessage) -> Vec<Effect> {
    handle_server_event(state, ServerEvent::ClientMessageReceived(client(1), message)).unwrap()
}

#[test]
fn issue_command_open_triggers_open_file() {
    let mut state = state_with_buffer("/tmp/a.txt", "text");
    let effects =
        handle_server_event(&mut state, ServerEvent::IssueCommand("open foo.txt".to_string()));
    assert_eq!(
        effects,
        Ok(vec![Effect::Trigger(ServerEvent::OpenFile("foo.txt".to_string()))])
    );
    assert_eq!(state, state_with_buffer("/tmp/a.txt", "text"));
}

#[test]
fn issue_command_bogus_does_nothing() {
    let mut state = state_with_buffer("/tmp/a.txt", "text");
    let effects = handle_server_event(&mut state, ServerEvent::IssueCommand("bogus".to_string()));
    assert_eq!(effects, Ok(vec![]));
    assert_eq!(state, state_with_buffer("/tmp/a.txt", "text"));
}

#[test]
fn issue_command_open_without_a_path_does_nothing() {
    let mut state = state_with_buffer("/tmp/a.txt", "text");
    let effects = handle_server_event(&mut state, ServerEvent::IssueCommand("open".to_string()));
    assert_eq!(effects, Ok(vec![]));
    assert_eq!(state, state_with_buffer("/tmp/a.txt", "text"));
}

#[test]
fn issue_command_close_triggers_close_file() {
    let mut state = state_with_buffer("/tmp/a.txt", "text");
    let effects = handle_server_event(&mut state, ServerEvent::IssueCommand("close".to_string()));
    assert_eq!(effects, Ok(vec![Effect::Trigger(ServerEvent::CloseFile)]));
    assert_eq!(state.buffers.len(), 1);
}

#[test]
fn issue_command_write_uses_the_path_of_the_buffer() {
    let mut state = state_with_buffer("/tmp/a.txt", "text");
    let effects = handle_server_event(&mut state, ServerEvent::IssueCommand("write".to_string()));
    assert_eq!(
        effects,
        Ok(vec![Effect::Trigger(ServerEvent::WriteFile("/tmp/a.txt".to_string()))])
    );
    assert_eq!(state, state_with_buffer("/tmp/a.txt", "text"));
}

#[test]
fn issue_command_write_with_a_path_renames_the_buffer() {
    let mut state = state_with_buffer("/tmp/a.txt", "text");
    let effects =
        handle_server_event(&mut state, ServerEvent::IssueCommand("write /tmp/b.txt".to_string()));
    assert_eq!(
        effects,
        Ok(vec![Effect::Trigger(ServerEvent::WriteFile("/tmp/b.txt".to_string()))])
    );
    assert_eq!(state, state_with_buffer("/tmp/b.txt", "text"));
}

#[test]
fn issue_command_write_without_a_buffer_does_nothing() {
    let mut state = TermTextState::default();
    let effects =
        handle_server_event(&mut state, ServerEvent::IssueCommand("write /tmp/b.txt".to_string()));
    assert_eq!(effects, Ok(vec![]));
    assert_eq!(state, TermTextState::default());
}

#[test]
fn issue_command_write_without_any_path_does_nothing() {
    let mut state = TermTextState::default();
    state.buffers.push(tt::state::Buffer::default());
    let effects = handle_server_event(&mut state, ServerEvent::IssueCommand("write".to_string()));
    assert_eq!(effects, Ok(vec![]));
    assert_eq!(state.buffers[0].path, None);
}

#[test]
fn open_file_asks_for_the_file() {
    let mut state = TermTextState::default();
    let effects = handle_server_event(&mut state, ServerEvent::OpenFile("foo.txt".to_string()));
    assert_eq!(effects, Ok(vec![Effect::LoadFile("foo.txt".to_string())]));
    assert_eq!(state, TermTextState::default());
}

#[test]
fn file_opened_creates_an_empty_buffer_in_front() {
    let mut state = state_with_buffer("/tmp/a.txt", "text");
    let effects = file_opened(&mut state, "/tmp/b.txt", "on disk".to_string());
    assert_eq!(state.buffers.len(), 2);
    assert_eq!(state.buffers[0].path.as_deref(), Some("/tmp/b.txt"));
    assert_eq!(state.buffers[0].data, "");
    assert_eq!(state.buffers[1].data, "text");
    assert_eq!(effects, vec![Effect::Broadcast(render(&state))]);
}

#[test]
fn file_opened_twice_keeps_one_buffer_and_reloads_it() {
    let mut state = TermTextState::default();
    state.size = (80, 24);
    file_opened(&mut state, "/tmp/a.txt", "first".to_string());
    state.buffers[0].data.push_str("typed");
    let effects = file_opened(&mut state, "/tmp/a.txt", "second".to_string());
    assert_eq!(state.buffers.len(), 1);
    assert_eq!(state.buffers[0].data, "second");
    assert_eq!(
        effects,
        vec![Effect::Broadcast(vec![
            ServerMessage::Update((0, 0), (80, 24), vec!["     1 | second".to_string()]),
            ServerMessage::Update(
                (0, 23),
                (80, 1),
                vec!["tt: Normal \"/tmp/a.txt\"".to_string()]
            ),
            ServerMessage::Cursor((15, 0)),
        ])]
    );
}

#[test]
fn file_opened_reloads_a_buffer_where_it_stands() {
    let mut state = state_with_buffer("/tmp/a.txt", "a");
    state.create_buffer("/tmp/b.txt").data.push_str("b");
    file_opened(&mut state, "/tmp/a.txt", "new".to_string());
    assert_eq!(state.buffers.len(), 2);
    assert_eq!(state.buffers[0].data, "b");
    assert_eq!(state.buffers[1].data, "new");
}

#[test]
fn write_file_hands_out_the_text_of_the_current_buffer() {
    let mut state = state_with_buffer("/tmp/a.txt", "line\n");
    let effects = handle_server_event(&mut state, ServerEvent::WriteFile("/tmp/out".to_string()));
    assert_eq!(
        effects,
        Ok(vec![Effect::StoreFile("/tmp/out".to_string(), "line\n".to_string())])
    );
    assert_eq!(state, state_with_buffer("/tmp/a.txt", "line\n"));
}

#[test]
fn write_file_without_a_buffer_is_an_io_error() {
    let mut state = TermTextState::default();
    let effects = handle_server_event(&mut state, ServerEvent::WriteFile("/tmp/out".to_string()));
    assert_eq!(effects, Err(SessionError::IOError));
    assert_eq!(state, TermTextState::default());
}

#[test]
fn close_file_removes_the_front_buffer_and_renders() {
    let mut state = state_with_buffer("/tmp/a.txt", "a");
    state.create_buffer("/tmp/b.txt");
    let effects = handle_server_event(&mut state, ServerEvent::CloseFile).unwrap();
    assert_eq!(state.buffers.len(), 1);
    assert_eq!(state.buffers[0].path.as_deref(), Some("/tmp/a.txt"));
    assert_eq!(effects, vec![Effect::Broadcast(render(&state))]);
}

#[test]
fn close_file_without_a_buffer_still_renders() {
    let mut state = TermTextState::default();
    state.size = (10, 5);
    let effects = handle_server_event(&mut state, ServerEvent::CloseFile).unwrap();
    assert!(state.buffers.is_empty());
    assert_eq!(
        effects,
        vec![Effect::Broadcast(vec![
            ServerMessage::Update((0, 4), (10, 1), vec!["tt: Normal".to_string()]),
            ServerMessage::Cursor((9, 0)),
        ])]
    );
}

#[test]
fn connect_with_a_path_triggers_its_opening_then_renders() {
    let mut state = TermTextState::default();
    let effects = received(
        &mut state,
        ClientMessage::Connect(vec!["first.txt".to_string(), "second.txt".to_string()]),
    );
    assert_eq!(
        effects,
        vec![
            Effect::Trigger(ServerEvent::OpenFile("first.txt".to_string())),
            Effect::Broadcast(render(&TermTextState::default())),
        ]
    );
    assert_eq!(state, TermTextState::default());
}

#[test]
fn connect_without_paths_only_renders() {
    let mut state = TermTextState::default();
    let effects = received(&mut state, ClientMessage::Connect(vec![]));
    assert_eq!(effects, vec![Effect::Broadcast(render(&TermTextState::default()))]);
}

#[test]
fn request_refresh_renders_and_changes_nothing() {
    let mut state = state_with_buffer("/tmp/a.txt", "text");
    let effects = received(&mut state, ClientMessage::RequestRefresh);
    assert_eq!(state, state_with_buffer("/tmp/a.txt", "text"));
    assert_eq!(effects, vec![Effect::Broadcast(render(&state))]);
}

#[test]
fn resize_records_the_size_and_renders() {
    let mut state = state_with_buffer("/tmp/a.txt", "text");
    let effects = received(&mut state, ClientMessage::Resize((120, 40)));
    assert_eq!(state.size, (120, 40));
    assert_eq!(
        effects,
        vec![Effect::Broadcast(vec![
            ServerMessage::Update((0, 0), (120, 40), vec!["     1 | text".to_string()]),
            ServerMessage::Update(
                (0, 39),
                (120, 1),
                vec!["tt: Normal \"/tmp/a.txt\"".to_string()]
            ),
            ServerMessage::Cursor((13, 0)),
        ])]
    );
}

#[test]
fn send_input_applies_the_key_and_renders() {
    let mut state = state_with_buffer("/tmp/a.txt", "ab");
    received(&mut state, ClientMessage::SendInput(Key::Char('i')));
    let effects = received(&mut state, ClientMessage::SendInput(Key::Char('c')));
    assert_eq!(state.buffers[0].data, "abc");
    assert_eq!(effects, vec![Effect::Broadcast(render(&state))]);
}

#[test]
fn send_input_newline_in_command_mode_triggers_the_command() {
    let mut state = state_with_buffer("/tmp/a.txt", "ab");
    for c in ":close".chars() {
        received(&mut state, ClientMessage::SendInput(Key::Char(c)));
    }
    assert_eq!(state.mode, BufferMode::Command);
    let effects = received(&mut state, ClientMessage::SendInput(Key::Char('\n')));
    assert_eq!(state.mode, BufferMode::Normal);
    assert_eq!(
        effects,
        vec![
            Effect::Trigger(ServerEvent::IssueCommand("close".to_string())),
            Effect::Broadcast(render(&state)),
        ]
    );
    assert_eq!(state.buffers.len(), 1);
}

#[test]
fn disconnect_resets_mode_and_command_whatever_the_mode() {
    for keys in [vec![], vec![Key::Char('i')], vec![Key::Char(':'), Key::Char('w')]] {
        let mut state = state_with_buffer("/tmp/a.txt", "ab");
        for key in keys {
            received(&mut state, ClientMessage::SendInput(key));
        }
        let effects = handle_server_event(
            &mut state,
            ServerEvent::ClientMessageReceived(client(7), ClientMessage::Disconnect),
        );
        assert_eq!(effects, Ok(vec![Effect::Disconnect(client(7))]));
        assert_eq!(state.mode, BufferMode::Normal);
        assert_eq!(state.command, None);
        assert_eq!(state.buffers[0].data, "ab");
    }
}

#[test]
fn disconnect_removes_exactly_the_disconnecting_client() {
    let mut registry = ClientRegistry::new();
    registry.add(client(1));
    registry.add(client(2));
    registry.add(client(3));
    let mut state = TermTextState::default();
    let effects = handle_server_event(
        &mut state,
        ServerEvent::ClientMessageReceived(client(2), ClientMessage::Disconnect),
    )
    .unwrap();
    for effect in effects {
        match effect {
            Effect::Disconnect(who) => assert_eq!(registry.remove(who), Ok(())),
            other => panic!("unexpected effect {:?}", other),
        }
    }
    assert!(registry.contains(client(1)));
    assert!(!registry.contains(client(2)));
    assert!(registry.contains(client(3)));
    assert_eq!(registry.len(), 2);
}

#[test]
fn events_triggered_by_a_command_are_not_handled_in_line() {
    let mut state = state_with_buffer("/tmp/a.txt", "ab");
    let effects =
        handle_server_event(&mut state, ServerEvent::IssueCommand("close".to_string())).unwrap();
    // The buffer is still open: closing waits for its turn on the bus.
    assert_eq!(state.buffers.len(), 1);
    let mut bus = Vec::new();
    for effect in effects {
        if let Effect::Trigger(event) = effect {
            bus.push(event);
        }
    }
    assert_eq!(bus, vec![ServerEvent::CloseFile]);
    for event in bus {
        handle_server_event(&mut state, event).unwrap();
    }
    assert!(state.buffers.is_empty());
}
