//! The session layer of a split client/daemon text editor: the messages the
//! two sides exchange, the framing that carries them, the editor state and
//! the rules by which keystrokes and events change it.

pub mod client;
pub mod codec;
pub mod command;
pub mod error;
pub mod event;
pub mod input;
pub mod message;
pub mod registry;
pub mod render;
pub mod screen;
pub mod session;
pub mod state;
pub mod text;
pub mod transport;
