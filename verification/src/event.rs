//! The event loop's decisions: what one event does to the editor state,
//! and what the daemon has to do about it.
//!
//! The loop itself, which waits on the bus and performs the effects, is the
//! caller's. Events are handled one at a time, in the order of their
//! arrival. An event that handling triggers is an effect like any other:
//! it goes to the end of the bus and is not handled in line.

use crate::command::{command_of, parse_command, Command, CommandView};
use crate::error::SessionError;
use crate::input::{handle_input, issued_command, key_effect, lemma_key_effect_keeps_invariants};
use crate::message::{
    ClientMessage,
    ClientMessageView,
    ServerMessage,
    ServerMessageView,
};
use crate::registry::{lemma_without_member, without_member, ConnectedClient};
use crate::render::{render, rendered};
use crate::state::{
    fresh_buffer,
    has_path,
    lemma_path_index,
    lemma_path_index_is,
    lemma_with_buffer_idempotent,
    path_index,
    with_buffer,
    BufferMode,
    BufferView,
    StateView,
    TermTextState,
};
use vstd::prelude::*;

verus! {

/// What the event loop is asked to handle.
#[derive(Debug, PartialEq, Eq)]
pub enum ServerEvent {
    /// A client sent a message.
    ClientMessageReceived(ConnectedClient, ClientMessage),
    /// Open the file at a path.
    OpenFile(String),
    /// Write the current buffer to a path.
    WriteFile(String),
    /// Close the current buffer.
    CloseFile,
    /// Run a command line.
    IssueCommand(String),
}

/// What a `ServerEvent` holds, as mathematical values.
pub enum ServerEventView {
    ClientMessageReceived(ConnectedClient, ClientMessageView),
    OpenFile(Seq<char>),
    WriteFile(Seq<char>),
    CloseFile,
    IssueCommand(Seq<char>),
}

impl View for ServerEvent {
    type V = ServerEventView;

    open spec fn view(&self) -> ServerEventView {
        match *self {
            ServerEvent::ClientMessageReceived(client, message) => {
                ServerEventView::ClientMessageReceived(client, message@)
            },
            ServerEvent::OpenFile(path) => ServerEventView::OpenFile(path@),
            ServerEvent::WriteFile(path) => ServerEventView::WriteFile(path@),
            ServerEvent::CloseFile => ServerEventView::CloseFile,
            ServerEvent::IssueCommand(text) => ServerEventView::IssueCommand(text@),
        }
    }
}

/// What the daemon has to do after an event was handled.
#[derive(Debug, PartialEq, Eq)]
pub enum Effect {
    /// Put the event at the end of the bus.
    Trigger(ServerEvent),
    /// Send the messages, in order, to every registered client.
    Broadcast(Vec<ServerMessage>),
    /// Remove the client from the registry.
    Disconnect(ConnectedClient),
    /// Resolve the path, create the file if there is none, read it, and
    /// hand path and content to `file_opened`.
    LoadFile(String),
    /// Write the text to the file at the path, which is created or
    /// truncated as needed.
    StoreFile(String, String),
}

/// What an `Effect` holds, as mathematical values.
pub enum EffectView {
    Trigger(ServerEventView),
    Broadcast(Seq<ServerMessageView>),
    Disconnect(ConnectedClient),
    LoadFile(Seq<char>),
    StoreFile(Seq<char>, Seq<char>),
}

impl View for Effect {
    type V = EffectView;

    open spec fn view(&self) -> EffectView {
        match *self {
            Effect::Trigger(event) => EffectView::Trigger(event@),
            Effect::Broadcast(messages) => EffectView::Broadcast(messages.deep_view()),
            Effect::Disconnect(client) => EffectView::Disconnect(client),
            Effect::LoadFile(path) => EffectView::LoadFile(path@),
            Effect::StoreFile(path, text) => EffectView::StoreFile(path@, text@),
        }
    }
}

impl DeepView for Effect {
    type V = EffectView;

    open spec fn deep_view(&self) -> EffectView {
        self@
    }
}

/// The state with the path of the current buffer replaced. Without a
/// current buffer the state stays as it is.
pub open spec fn with_current_path(state: StateView, path: Seq<char>) -> StateView {
    if state.buffers.len() > 0 {
        StateView {
            buffers: state.buffers.update(0, BufferView { path: Some(path), ..state.buffers[0] }),
            ..state
        }
    } else {
        state
    }
}

/// The state after a command.
pub open spec fn command_state(state: StateView, command: Option<CommandView>) -> StateView {
    match command {
        Some(CommandView::Write(Some(path))) => with_current_path(state, path),
        _ => state,
    }
}

/// The events that a command triggers.
///
/// `open` triggers the opening of its path, `close` the closing of the
/// current buffer. `write` triggers a write to the path of the current
/// buffer, as the command may just have set it; without a current buffer,
/// or where that has no path, it triggers nothing. No command triggers
/// nothing.
pub open spec fn command_effects(state: StateView, command: Option<CommandView>) -> Seq<
    EffectView,
> {
    match command {
        Some(CommandView::Open(path)) => seq![EffectView::Trigger(ServerEventView::OpenFile(path))],
        Some(CommandView::Write(_)) => {
            let after = command_state(state, command);
            if after.buffers.len() > 0 && after.buffers[0].path is Some {
                seq![EffectView::Trigger(ServerEventView::WriteFile(after.buffers[0].path->0))]
            } else {
                Seq::empty()
            }
        },
        Some(CommandView::Close) => seq![EffectView::Trigger(ServerEventView::CloseFile)],
        None => Seq::empty(),
    }
}

/// The state after a client's message.
pub open spec fn message_state(state: StateView, message: ClientMessageView) -> StateView {
    match message {
        ClientMessageView::SendInput(key) => key_effect(state, key),
        ClientMessageView::Resize(size) => StateView { size, ..state },
        ClientMessageView::Disconnect => StateView {
            mode: BufferMode::Normal,
            command: None,
            ..state
        },
        _ => state,
    }
}

/// A broadcast of the display of `state`.
pub open spec fn update_of(state: StateView) -> Seq<EffectView> {
    seq![EffectView::Broadcast(rendered(state))]
}

/// What the daemon has to do after a client's message.
///
/// Every message but `Disconnect` ends in a broadcast of the display as
/// it then is. Before it, `Connect` triggers the opening of the first path
/// it names, and a keystroke that issues the command line triggers its
/// command. `Disconnect` takes the client from the registry, and nothing
/// is rendered.
pub open spec fn message_effects(
    state: StateView,
    client: ConnectedClient,
    message: ClientMessageView,
) -> Seq<EffectView> {
    let after = message_state(state, message);
    match message {
        ClientMessageView::Connect(args) => (if args.len() > 0 {
            seq![EffectView::Trigger(ServerEventView::OpenFile(args[0]))]
        } else {
            Seq::empty()
        }) + update_of(after),
        ClientMessageView::SendInput(key) => (match issued_command(state, key) {
            Some(text) => seq![EffectView::Trigger(ServerEventView::IssueCommand(text))],
            None => Seq::empty(),
        }) + update_of(after),
        ClientMessageView::Disconnect => seq![EffectView::Disconnect(client)],
        _ => update_of(after),
    }
}

/// The state after an event.
pub open spec fn event_state(state: StateView, event: ServerEventView) -> StateView {
    match event {
        ServerEventView::ClientMessageReceived(_, message) => message_state(state, message),
        ServerEventView::CloseFile => if state.buffers.len() > 0 {
            StateView { buffers: state.buffers.drop_first(), ..state }
        } else {
            state
        },
        ServerEventView::IssueCommand(text) => command_state(state, command_of(text)),
        _ => state,
    }
}

/// What the daemon has to do after an event, or why the event failed.
///
/// Opening a file begins with reading it. Writing hands out the text of
/// the current buffer, and fails with `IOError` where no buffer is open.
/// Closing ends in a broadcast of the display.
pub open spec fn event_effects(state: StateView, event: ServerEventView) -> Result<
    Seq<EffectView>,
    SessionError,
> {
    match event {
        ServerEventView::ClientMessageReceived(client, message) => Ok(
            message_effects(state, client, message),
        ),
        ServerEventView::OpenFile(path) => Ok(seq![EffectView::LoadFile(path)]),
        ServerEventView::WriteFile(path) => if state.buffers.len() > 0 {
            Ok(seq![EffectView::StoreFile(path, state.buffers[0].data)])
        } else {
            Err(SessionError::IOError)
        },
        ServerEventView::CloseFile => Ok(update_of(event_state(state, event))),
        ServerEventView::IssueCommand(text) => Ok(command_effects(state, command_of(text))),
    }
}

/// The state after the file at `path` was read as `data`: a buffer that
/// holds the path takes the data in place of its text; where none does, a
/// new, empty buffer for the path becomes the current one.
pub open spec fn opened_state(state: StateView, path: Seq<char>, data: Seq<char>) -> StateView {
    if has_path(state.buffers, path) {
        let i = path_index(state.buffers, path);
        StateView {
            buffers: state.buffers.update(i, BufferView { data, ..state.buffers[i] }),
            ..state
        }
    } else {
        StateView { buffers: seq![fresh_buffer(path)] + state.buffers, ..state }
    }
}

/// The result of handling, in the form in which contracts state it.
pub open spec fn effects_view(result: Result<Vec<Effect>, SessionError>) -> Result<
    Seq<EffectView>,
    SessionError,
> {
    match result {
        Ok(effects) => Ok(effects.deep_view()),
        Err(e) => Err(e),
    }
}

/// Handles a command line.
fn handle_command(state: &mut TermTextState, text: &str) -> (effects: Vec<Effect>)
    ensures
        final(state)@ == command_state(old(state)@, command_of(text@)),
        effects.deep_view() == command_effects(old(state)@, command_of(text@)),
{
    let mut effects: Vec<Effect> = Vec::new();
    match parse_command(text) {
        Some(Command::Open(path)) => {
            effects.push(Effect::Trigger(ServerEvent::OpenFile(path)));
        },
        Some(Command::Write(argument)) => {
            match state.current_buffer_mut() {
                Some(buffer) => {
                    match argument {
                        Some(path) => {
                            buffer.path = Some(path);
                        },
                        None => {},
                    }
                    match &buffer.path {
                        Some(path) => {
                            effects.push(Effect::Trigger(ServerEvent::WriteFile(path.clone())));
                        },
                        None => {},
                    }
                },
                None => {},
            }
        },
        Some(Command::Close) => {
            effects.push(Effect::Trigger(ServerEvent::CloseFile));
        },
        None => {},
    }
    proof {
        assert(state@.buffers =~= command_state(old(state)@, command_of(text@)).buffers);
    }
    effects
}

/// Handles a message from a client.
fn handle_message(
    state: &mut TermTextState,
    client: ConnectedClient,
    message: ClientMessage,
) -> (effects: Vec<Effect>)
    requires
        old(state)@.wf(),
    ensures
        final(state)@ == message_state(old(state)@, message@),
        effects.deep_view() == message_effects(old(state)@, client, message@),
{
    let mut effects: Vec<Effect> = Vec::new();
    match message {
        ClientMessage::Connect(args) => {
            if args.len() > 0 {
                effects.push(Effect::Trigger(ServerEvent::OpenFile(args[0].clone())));
            }
            effects.push(Effect::Broadcast(render(state)));
        },
        ClientMessage::RequestRefresh => {
            effects.push(Effect::Broadcast(render(state)));
        },
        ClientMessage::SendInput(key) => {
            match handle_input(state, key) {
                Some(text) => {
                    effects.push(Effect::Trigger(ServerEvent::IssueCommand(text)));
                },
                None => {},
            }
            effects.push(Effect::Broadcast(render(state)));
        },
        ClientMessage::Resize(size) => {
            state.size = size;
            effects.push(Effect::Broadcast(render(state)));
        },
        ClientMessage::Disconnect => {
            state.mode = BufferMode::Normal;
            state.command = None;
            effects.push(Effect::Disconnect(client));
        },
    }
    effects
}

/// Handles one event: changes the state as the event asks and returns what
/// the daemon has to do then, in order.
///
/// Fails with `IOError`, and changes nothing, on a `WriteFile` while no
/// buffer is open.
pub fn handle_server_event(state: &mut TermTextState, event: ServerEvent) -> (result: Result<
    Vec<Effect>,
    SessionError,
>)
    requires
        old(state)@.wf(),
    ensures
        final(state)@ == event_state(old(state)@, event@),
        effects_view(result) == event_effects(old(state)@, event@),
        final(state)@.wf(),
        old(state)@.distinct_paths() && !takes_held_path(old(state)@, event@)
            ==> final(state)@.distinct_paths(),
{
    proof {
        lemma_event_keeps_wf(state@, event@);
        if state@.distinct_paths() && !takes_held_path(state@, event@) {
            lemma_event_keeps_distinct_paths(state@, event@);
        }
    }
    match event {
        ServerEvent::ClientMessageReceived(client, message) => Ok(
            handle_message(state, client, message),
        ),
        ServerEvent::OpenFile(path) => {
            let mut effects: Vec<Effect> = Vec::new();
            effects.push(Effect::LoadFile(path));
            assert(effects.deep_view() =~= seq![EffectView::LoadFile(path@)]);
            Ok(effects)
        },
        ServerEvent::WriteFile(path) => {
            match state.current_buffer() {
                Some(buffer) => {
                    let mut effects: Vec<Effect> = Vec::new();
                    effects.push(Effect::StoreFile(path, buffer.data.clone()));
                    assert(effects.deep_view() =~= seq![
                        EffectView::StoreFile(path@, state@.buffers[0].data),
                    ]);
                    Ok(effects)
                },
                None => Err(SessionError::IOError),
            }
        },
        ServerEvent::CloseFile => {
            state.close_current_buffer();
            let mut effects: Vec<Effect> = Vec::new();
            effects.push(Effect::Broadcast(render(state)));
            assert(effects.deep_view() =~= update_of(state@));
            Ok(effects)
        },
        ServerEvent::IssueCommand(text) => Ok(handle_command(state, text.as_str())),
    }
}

/// Takes in the file that a `LoadFile` effect asked for: `path` is its
/// resolved path, `data` its content. A buffer that holds the path is
/// reloaded, and what was typed into it is lost; where none does, a new,
/// empty buffer for the path becomes the current one. Returns the
/// broadcast of the display as it then is.
pub fn file_opened(state: &mut TermTextState, path: &str, data: String) -> (effects: Vec<Effect>)
    ensures
        final(state)@ == opened_state(old(state)@, path@, data@),
        effects.deep_view() == update_of(opened_state(old(state)@, path@, data@)),
        old(state)@.wf() ==> final(state)@.wf(),
        old(state)@.distinct_paths() ==> final(state)@.distinct_paths(),
{
    proof {
        if state@.distinct_paths() {
            lemma_opened_state(state@, path@, data@, data@);
        }
    }
    match state.buffer_by_path(path) {
        Some(buffer) => {
            buffer.data = data;
        },
        None => {
            state.create_buffer(path);
        },
    }
    proof {
        assert(state@.buffers =~= opened_state(old(state)@, path@, data@).buffers);
    }
    let mut effects: Vec<Effect> = Vec::new();
    effects.push(Effect::Broadcast(render(state)));
    effects
}

/// Handling an event keeps the state well formed.
pub proof fn lemma_event_keeps_wf(state: StateView, event: ServerEventView)
    requires
        state.wf(),
    ensures
        event_state(state, event).wf(),
{
    match event {
        ServerEventView::ClientMessageReceived(_, ClientMessageView::SendInput(key)) => {
            lemma_key_effect_keeps_invariants(state, key);
        },
        _ => {},
    }
}

/// The path that a command line sets for the current buffer, while another
/// buffer holds it: the one way in which an event makes two buffers share
/// a path.
pub open spec fn takes_held_path(state: StateView, event: ServerEventView) -> bool {
    &&& event matches ServerEventView::IssueCommand(text)
    &&& command_of(text) matches Some(CommandView::Write(Some(path)))
    &&& exists|i: int|
        1 <= i < state.buffers.len() && #[trigger] state.buffers[i].path == Some(path)
}

/// No event makes two buffers share a path, but for a `write` command that
/// gives the current buffer the path of another.
pub proof fn lemma_event_keeps_distinct_paths(state: StateView, event: ServerEventView)
    requires
        state.wf(),
        state.distinct_paths(),
        !takes_held_path(state, event),
    ensures
        event_state(state, event).distinct_paths(),
{
    match event {
        ServerEventView::ClientMessageReceived(_, ClientMessageView::SendInput(key)) => {
            lemma_key_effect_keeps_invariants(state, key);
        },
        _ => {},
    }
}

/// A command line that spells no command changes nothing and triggers
/// nothing.
pub proof fn lemma_no_command_no_effect(state: StateView, text: Seq<char>)
    requires
        command_of(text) is None,
    ensures
        event_state(state, ServerEventView::IssueCommand(text)) == state,
        event_effects(state, ServerEventView::IssueCommand(text)) == Ok::<
            Seq<EffectView>,
            SessionError,
        >(Seq::empty()),
{
}

/// Opening a file keeps the state well formed and no two buffers share a
/// path after it. The path is open afterwards, and opening it once more
/// adds no buffer: exactly one buffer holds it.
pub proof fn lemma_opened_state(
    state: StateView,
    path: Seq<char>,
    data: Seq<char>,
    again: Seq<char>,
)
    requires
        state.distinct_paths(),
    ensures
        state.wf() ==> opened_state(state, path, data).wf(),
        opened_state(state, path, data).distinct_paths(),
        has_path(opened_state(state, path, data).buffers, path),
        opened_state(state, path, data).buffers.len() == with_buffer(state.buffers, path).len(),
        opened_state(opened_state(state, path, data), path, again).buffers.len() == opened_state(
            state,
            path,
            data,
        ).buffers.len(),
        forall|i: int|
            0 <= i < opened_state(state, path, data).buffers.len() ==> (opened_state(
                state,
                path,
                data,
            ).buffers[i].path == Some(path) <==> i == path_index(
                opened_state(state, path, data).buffers,
                path,
            )),
{
    let after = opened_state(state, path, data);
    lemma_path_index(state.buffers, path);
    lemma_with_buffer_idempotent(state.buffers, path);
    if has_path(state.buffers, path) {
        let i = path_index(state.buffers, path);
        lemma_path_index_is(after.buffers, path, i);
    }
    lemma_path_index(after.buffers, path);
}

/// A client that disconnects leaves the editor in `Normal` mode without a
/// command line, whatever the mode was, and leaves the registry: it alone,
/// and nothing is rendered.
pub proof fn lemma_disconnect(
    state: StateView,
    members: Seq<ConnectedClient>,
    client: ConnectedClient,
)
    requires
        members.no_duplicates(),
        members.contains(client),
    ensures
        ({
            let event = ServerEventView::ClientMessageReceived(
                client,
                ClientMessageView::Disconnect,
            );
            let left = without_member(members, members.index_of(client));
            &&& event_state(state, event).mode == BufferMode::Normal
            &&& event_state(state, event).command is None
            &&& event_state(state, event).buffers == state.buffers
            &&& event_state(state, event).size == state.size
            &&& event_effects(state, event) == Ok::<Seq<EffectView>, SessionError>(
                seq![EffectView::Disconnect(client)],
            )
            &&& left.no_duplicates()
            &&& left.len() == members.len() - 1
            &&& forall|c: ConnectedClient|
                left.contains(c) <==> members.contains(c) && c != client
        }),
{
    let i = members.index_of(client);
    lemma_without_member(members, i);
}

} // verus!
