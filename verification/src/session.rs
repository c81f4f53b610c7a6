//! The life of one client's session, as the daemon's receiver for that
//! client sees it: from each attempt to receive a message to what the
//! receiver does next.
//!
//! A client is registered as long as its receiver runs. The receiver ends,
//! and the client leaves the registry, when the client takes its leave or
//! its connection fails.

use crate::error::{Consequence, SessionError};
use crate::event::{ServerEvent, ServerEventView};
use crate::message::{ClientMessage, ClientMessageView};
use crate::registry::ConnectedClient;
use vstd::prelude::*;

verus! {

/// What a receiver does after an attempt to receive.
#[derive(Debug, PartialEq, Eq)]
pub enum ReceiverStep {
    /// Put the event on the bus and go on receiving.
    Forward(ServerEvent),
    /// Put the event on the bus and end: the client has taken its leave,
    /// and the event loop will take it from the registry.
    ForwardAndEnd(ServerEvent),
    /// Nothing has arrived: sleep for a short, bounded while, then try
    /// again.
    Wait,
    /// The connection is lost: take the client from the registry and end.
    /// The other clients and the event loop go on.
    DropClient,
    /// The daemon's own state cannot be trusted: stop the daemon.
    Abort,
}

/// What a `ReceiverStep` holds, as mathematical values.
pub enum ReceiverStepView {
    Forward(ServerEventView),
    ForwardAndEnd(ServerEventView),
    Wait,
    DropClient,
    Abort,
}

impl View for ReceiverStep {
    type V = ReceiverStepView;

    open spec fn view(&self) -> ReceiverStepView {
        match *self {
            ReceiverStep::Forward(event) => ReceiverStepView::Forward(event@),
            ReceiverStep::ForwardAndEnd(event) => ReceiverStepView::ForwardAndEnd(event@),
            ReceiverStep::Wait => ReceiverStepView::Wait,
            ReceiverStep::DropClient => ReceiverStepView::DropClient,
            ReceiverStep::Abort => ReceiverStepView::Abort,
        }
    }
}

/// What was received, in the form in which contracts state it.
pub open spec fn received_view(received: Result<Option<ClientMessage>, SessionError>) -> Result<
    Option<ClientMessageView>,
    SessionError,
> {
    match received {
        Ok(Some(message)) => Ok(Some(message@)),
        Ok(None) => Ok(None),
        Err(e) => Err(e),
    }
}

/// What the receiver of `client` does after an attempt to receive.
///
/// A message goes to the bus as an event of that client; `Disconnect` is
/// the last that the receiver forwards. No message yet is a reason to
/// wait. A failed receive ends the session of this client, and of this
/// client only: whether the frame was malformed or the connection failed,
/// the client is dropped. Only an error that stops the daemon is more, and
/// one that asks to be ignored is less.
pub open spec fn receiver_step_of(
    client: ConnectedClient,
    received: Result<Option<ClientMessageView>, SessionError>,
) -> ReceiverStepView {
    match received {
        Ok(Some(message)) => {
            let event = ServerEventView::ClientMessageReceived(client, message);
            if message is Disconnect {
                ReceiverStepView::ForwardAndEnd(event)
            } else {
                ReceiverStepView::Forward(event)
            }
        },
        Ok(None) => ReceiverStepView::Wait,
        Err(e) => match e.consequence_of() {
            Consequence::Abort => ReceiverStepView::Abort,
            Consequence::Ignore => ReceiverStepView::Wait,
            Consequence::DropClient | Consequence::FailOperation => ReceiverStepView::DropClient,
        },
    }
}

/// Decides what the receiver of `client` does after an attempt to receive.
pub fn receiver_step(
    client: ConnectedClient,
    received: Result<Option<ClientMessage>, SessionError>,
) -> (step: ReceiverStep)
    ensures
        step@ == receiver_step_of(client, received_view(received)),
{
    match received {
        Ok(Some(message)) => {
            let leaves = match &message {
                ClientMessage::Disconnect => true,
                _ => false,
            };
            let event = ServerEvent::ClientMessageReceived(client, message);
            if leaves {
                ReceiverStep::ForwardAndEnd(event)
            } else {
                ReceiverStep::Forward(event)
            }
        },
        Ok(None) => ReceiverStep::Wait,
        Err(e) => match e.consequence() {
            Consequence::Abort => ReceiverStep::Abort,
            Consequence::Ignore => ReceiverStep::Wait,
            Consequence::DropClient | Consequence::FailOperation => ReceiverStep::DropClient,
        },
    }
}

} // verus!
