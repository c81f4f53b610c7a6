//! The values that travel between a client and the daemon.

use vstd::prelude::*;

verus! {

/// A screen coordinate: column, then row.
pub type Position = (u16, u16);

/// Screen dimensions: width, then height.
pub type Size = (u16, u16);

/// One abstract input event, as a terminal reports it.
#[derive(Hash, PartialEq, Eq, Debug, Clone, Copy, Structural)]
pub enum Key {
    Backspace,
    Left,
    Right,
    Up,
    Down,
    Home,
    End,
    PageUp,
    PageDown,
    BackTab,
    Delete,
    Insert,
    F(u8),
    Char(char),
    Alt(char),
    Ctrl(char),
    Null,
    Esc,
}

/// A request from a client to the daemon.
#[derive(Hash, PartialEq, Eq, Debug)]
pub enum ClientMessage {
    /// Opens the session; holds the paths to open on startup.
    Connect(Vec<String>),
    RequestRefresh,
    SendInput(Key),
    Resize(Size),
    Disconnect,
}

/// What a `ClientMessage` holds, as mathematical values.
pub enum ClientMessageView {
    Connect(Seq<Seq<char>>),
    RequestRefresh,
    SendInput(Key),
    Resize(Size),
    Disconnect,
}

impl View for ClientMessage {
    type V = ClientMessageView;

    open spec fn view(&self) -> ClientMessageView {
        match *self {
            ClientMessage::Connect(args) => ClientMessageView::Connect(args.deep_view()),
            ClientMessage::RequestRefresh => ClientMessageView::RequestRefresh,
            ClientMessage::SendInput(key) => ClientMessageView::SendInput(key),
            ClientMessage::Resize(size) => ClientMessageView::Resize(size),
            ClientMessage::Disconnect => ClientMessageView::Disconnect,
        }
    }
}

impl DeepView for ClientMessage {
    type V = ClientMessageView;

    open spec fn deep_view(&self) -> ClientMessageView {
        self@
    }
}

/// A response or push from the daemon to a client.
#[derive(Hash, PartialEq, Eq, Debug)]
pub enum ServerMessage {
    Log(String),
    /// A block of text lines to draw at a position, within a size.
    Update(Position, Size, Vec<String>),
    Cursor(Position),
    Shutdown,
}

/// What a `ServerMessage` holds, as mathematical values.
pub enum ServerMessageView {
    Log(Seq<char>),
    Update(Position, Size, Seq<Seq<char>>),
    Cursor(Position),
    Shutdown,
}

impl View for ServerMessage {
    type V = ServerMessageView;

    open spec fn view(&self) -> ServerMessageView {
        match *self {
            ServerMessage::Log(text) => ServerMessageView::Log(text@),
            ServerMessage::Update(pos, size, lines) => ServerMessageView::Update(
                pos,
                size,
                lines.deep_view(),
            ),
            ServerMessage::Cursor(pos) => ServerMessageView::Cursor(pos),
            ServerMessage::Shutdown => ServerMessageView::Shutdown,
        }
    }
}

impl DeepView for ServerMessage {
    type V = ServerMessageView;

    open spec fn deep_view(&self) -> ServerMessageView {
        self@
    }
}

/// Copies a list of strings, item by item.
fn clone_strings(items: &Vec<String>) -> (copy: Vec<String>)
    ensures
        copy.deep_view() == items.deep_view(),
{
    let mut copy: Vec<String> = Vec::new();
    let mut i: usize = 0;
    while i < items.len()
        invariant
            i <= items.len(),
            copy.len() == i,
            forall|k: int| 0 <= k < i ==> copy[k]@ == items[k]@,
        decreases items.len() - i,
    {
        copy.push(items[i].clone());
        i += 1;
    }
    copy
}

impl Clone for ClientMessage {
    fn clone(&self) -> (copy: Self)
        ensures
            copy@ == self@,
    {
        match self {
            ClientMessage::Connect(args) => ClientMessage::Connect(clone_strings(args)),
            ClientMessage::RequestRefresh => ClientMessage::RequestRefresh,
            ClientMessage::SendInput(key) => ClientMessage::SendInput(*key),
            ClientMessage::Resize(size) => ClientMessage::Resize(*size),
            ClientMessage::Disconnect => ClientMessage::Disconnect,
        }
    }
}

impl Clone for ServerMessage {
    fn clone(&self) -> (copy: Self)
        ensures
            copy@ == self@,
    {
        match self {
            ServerMessage::Log(text) => ServerMessage::Log(text.clone()),
            ServerMessage::Update(pos, size, lines) => ServerMessage::Update(
                *pos,
                *size,
                clone_strings(lines),
            ),
            ServerMessage::Cursor(pos) => ServerMessage::Cursor(*pos),
            ServerMessage::Shutdown => ServerMessage::Shutdown,
        }
    }
}

} // verus!
