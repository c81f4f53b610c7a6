//! The client's decisions: what it does about a keystroke, a message from
//! the daemon, and a change of the terminal's size. To read the keyboard,
//! to talk to the daemon and to draw are the caller's.

use crate::message::{
    ClientMessage,
    ClientMessageView,
    Key,
    Position,
    ServerMessage,
    ServerMessageView,
    Size,
};
use crate::screen::{rows_of, update_rows, Row, RowView};
use vstd::prelude::*;

verus! {

/// What happens to a client.
#[derive(Debug, PartialEq, Eq)]
pub enum ClientEvent {
    /// A key was pressed.
    Key(Key),
    /// The daemon sent a message.
    ServerMessageReceived(ServerMessage),
    /// The terminal has a new size.
    Resize(Size),
}

/// What a `ClientEvent` holds, as mathematical values.
pub enum ClientEventView {
    Key(Key),
    ServerMessageReceived(ServerMessageView),
    Resize(Size),
}

impl View for ClientEvent {
    type V = ClientEventView;

    open spec fn view(&self) -> ClientEventView {
        match *self {
            ClientEvent::Key(key) => ClientEventView::Key(key),
            ClientEvent::ServerMessageReceived(message) => ClientEventView::ServerMessageReceived(
                message@,
            ),
            ClientEvent::Resize(size) => ClientEventView::Resize(size),
        }
    }
}

/// What a client does about an event.
#[derive(Debug, PartialEq, Eq)]
pub enum ClientAction {
    /// Send the message to the daemon.
    Send(ClientMessage),
    /// Fill the rows of the terminal.
    Draw(Vec<Row>),
    /// Put the cursor at the position.
    MoveCursor(Position),
    /// Leave.
    Quit,
}

/// What a `ClientAction` holds, as mathematical values.
pub enum ClientActionView {
    Send(ClientMessageView),
    Draw(Seq<RowView>),
    MoveCursor(Position),
    Quit,
}

impl View for ClientAction {
    type V = ClientActionView;

    open spec fn view(&self) -> ClientActionView {
        match *self {
            ClientAction::Send(message) => ClientActionView::Send(message@),
            ClientAction::Draw(rows) => ClientActionView::Draw(rows.deep_view()),
            ClientAction::MoveCursor(position) => ClientActionView::MoveCursor(position),
            ClientAction::Quit => ClientActionView::Quit,
        }
    }
}

impl DeepView for ClientAction {
    type V = ClientActionView;

    open spec fn deep_view(&self) -> ClientActionView {
        self@
    }
}

/// What a client does about an event, in order.
///
/// Ctrl-c takes leave of the daemon and ends the client; every other key
/// goes to the daemon as input. A new size goes to the daemon. An update
/// is drawn, clipped to its size, and a cursor message moves the cursor.
/// Other messages of the daemon ask for nothing.
pub open spec fn client_actions(event: ClientEventView) -> Seq<ClientActionView> {
    match event {
        ClientEventView::Key(key) => if key == Key::Ctrl('c') {
            seq![ClientActionView::Send(ClientMessageView::Disconnect), ClientActionView::Quit]
        } else {
            seq![ClientActionView::Send(ClientMessageView::SendInput(key))]
        },
        ClientEventView::ServerMessageReceived(ServerMessageView::Update(pos, size, lines)) => {
            seq![ClientActionView::Draw(rows_of(pos, size, lines))]
        },
        ClientEventView::ServerMessageReceived(ServerMessageView::Cursor(pos)) => {
            seq![ClientActionView::MoveCursor(pos)]
        },
        ClientEventView::ServerMessageReceived(_) => Seq::empty(),
        ClientEventView::Resize(size) => seq![
            ClientActionView::Send(ClientMessageView::Resize(size)),
        ],
    }
}

/// Decides what a client does about an event.
pub fn handle_client_event(event: ClientEvent) -> (actions: Vec<ClientAction>)
    ensures
        actions.deep_view() == client_actions(event@),
{
    let mut actions: Vec<ClientAction> = Vec::new();
    match event {
        ClientEvent::Key(key) => {
            if key == Key::Ctrl('c') {
                actions.push(ClientAction::Send(ClientMessage::Disconnect));
                actions.push(ClientAction::Quit);
            } else {
                actions.push(ClientAction::Send(ClientMessage::SendInput(key)));
            }
        },
        ClientEvent::ServerMessageReceived(message) => {
            match message {
                ServerMessage::Update(pos, size, lines) => {
                    actions.push(ClientAction::Draw(update_rows(pos, size, &lines)));
                },
                ServerMessage::Cursor(pos) => {
                    actions.push(ClientAction::MoveCursor(pos));
                },
                _ => {},
            }
        },
        ClientEvent::Resize(size) => {
            actions.push(ClientAction::Send(ClientMessage::Resize(size)));
        },
    }
    actions
}

} // verus!
