//! The modal input state machine: what a keystroke does to the editor
//! state in each mode.

use crate::message::Key;
use crate::state::{BufferMode, BufferView, StateView, TermTextState};
use vstd::prelude::*;

verus! {

/// `text` without its last character; an empty text stays empty.
pub open spec fn without_last(text: Seq<char>) -> Seq<char> {
    if text.len() > 0 {
        text.drop_last()
    } else {
        text
    }
}

/// The state with the text of the current buffer replaced. Without a
/// current buffer there is nothing to edit, and the state stays as it is.
pub open spec fn with_current_data(state: StateView, data: Seq<char>) -> StateView {
    if state.buffers.len() > 0 {
        StateView {
            buffers: state.buffers.update(0, BufferView { data, ..state.buffers[0] }),
            ..state
        }
    } else {
        state
    }
}

/// The text of the current buffer; empty without one.
pub open spec fn current_data(state: StateView) -> Seq<char> {
    if state.buffers.len() > 0 {
        state.buffers[0].data
    } else {
        Seq::empty()
    }
}

/// The state that `key` leads to.
///
/// | mode    | key         | effect                                   |
/// |---------|-------------|------------------------------------------|
/// | Normal  | `i`         | to Insert                                |
/// | Normal  | `:`         | to Command, with an empty command line   |
/// | any     | Esc         | to Normal, the command line dropped      |
/// | Insert  | Backspace   | the current buffer loses its last char   |
/// | Insert  | a character | appended to the current buffer           |
/// | Command | newline     | to Normal, the command line issued       |
/// | Command | tab         | nothing                                  |
/// | Command | a character | appended to the command line             |
/// | Command | Backspace   | the command line loses its last char     |
///
/// Every other key changes nothing.
pub open spec fn key_effect(state: StateView, key: Key) -> StateView {
    match (state.mode, key) {
        (_, Key::Esc) => StateView { mode: BufferMode::Normal, command: None, ..state },
        (BufferMode::Normal, Key::Char(c)) => if c == 'i' {
            StateView { mode: BufferMode::Insert, ..state }
        } else if c == ':' {
            StateView { mode: BufferMode::Command, command: Some(Seq::empty()), ..state }
        } else {
            state
        },
        (BufferMode::Insert, Key::Backspace) => with_current_data(
            state,
            without_last(current_data(state)),
        ),
        (BufferMode::Insert, Key::Char(c)) => with_current_data(
            state,
            current_data(state).push(c),
        ),
        (BufferMode::Command, Key::Char(c)) => if c == '\n' {
            StateView { mode: BufferMode::Normal, command: None, ..state }
        } else if c == '\t' {
            state
        } else {
            StateView { command: Some(state.command->0.push(c)), ..state }
        },
        (BufferMode::Command, Key::Backspace) => StateView {
            command: Some(without_last(state.command->0)),
            ..state
        },
        _ => state,
    }
}

/// The command line that `key` issues: the one in progress, when the key is
/// a newline in `Command` mode.
pub open spec fn issued_command(state: StateView, key: Key) -> Option<Seq<char>> {
    if state.mode == BufferMode::Command && key == Key::Char('\n') {
        Some(state.command->0)
    } else {
        None
    }
}

/// A keystroke keeps the state well formed, and opens or closes no buffer
/// and touches no path.
pub proof fn lemma_key_effect_keeps_invariants(state: StateView, key: Key)
    requires
        state.wf(),
    ensures
        key_effect(state, key).wf(),
        key_effect(state, key).size == state.size,
        key_effect(state, key).buffers.len() == state.buffers.len(),
        forall|i: int|
            0 <= i < state.buffers.len() ==> key_effect(state, key).buffers[i].path
                == state.buffers[i].path,
        state.distinct_paths() ==> key_effect(state, key).distinct_paths(),
{
}

/// Typing into a buffer: from `Normal` mode, `i`, then a character, then
/// Esc leave the editor in `Normal` mode with that character appended to
/// the current buffer.
pub proof fn lemma_insert_one_char(state: StateView, c: char)
    requires
        state.wf(),
        state.mode == BufferMode::Normal,
        state.buffers.len() > 0,
    ensures
        ({
            let typed = key_effect(
                key_effect(key_effect(state, Key::Char('i')), Key::Char(c)),
                Key::Esc,
            );
            &&& typed.mode == BufferMode::Normal
            &&& typed.command is None
            &&& current_data(typed) == current_data(state).push(c)
            &&& typed.buffers.len() == state.buffers.len()
        }),
{
}

/// Applies one keystroke to the state. Returns the command line where the
/// keystroke issued it.
pub fn handle_input(state: &mut TermTextState, key: Key) -> (issued: Option<String>)
    requires
        old(state)@.wf(),
    ensures
        final(state)@ == key_effect(old(state)@, key),
        issued.deep_view() == issued_command(old(state)@, key),
        final(state)@.wf(),
        old(state)@.distinct_paths() ==> final(state)@.distinct_paths(),
{
    proof {
        lemma_key_effect_keeps_invariants(state@, key);
    }
    let mut issued: Option<String> = None;
    match (state.mode, key) {
        (_, Key::Esc) => {
            state.mode = BufferMode::Normal;
            state.command = None;
        },
        (BufferMode::Normal, Key::Char('i')) => {
            state.mode = BufferMode::Insert;
        },
        (BufferMode::Normal, Key::Char(':')) => {
            state.mode = BufferMode::Command;
            state.command = Some(String::new());
        },
        (BufferMode::Insert, Key::Backspace) => {
            match state.current_buffer_mut() {
                Some(buffer) => {
                    buffer.data.pop();
                },
                None => {},
            }
        },
        (BufferMode::Insert, Key::Char(c)) => {
            match state.current_buffer_mut() {
                Some(buffer) => {
                    buffer.data.push(c);
                },
                None => {},
            }
        },
        (BufferMode::Command, Key::Char(c)) => {
            if c == '\n' {
                state.mode = BufferMode::Normal;
                issued = state.command.take();
            } else if c != '\t' {
                match state.command.as_mut() {
                    Some(command) => {
                        command.push(c);
                    },
                    None => {},
                }
            }
        },
        (BufferMode::Command, Key::Backspace) => {
            match state.command.as_mut() {
                Some(command) => {
                    command.pop();
                },
                None => {},
            }
        },
        _ => {},
    }
    assert(state@.buffers =~= key_effect(old(state)@, key).buffers);
    issued
}

} // verus!
