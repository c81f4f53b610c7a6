//! The daemon's document model: the open buffers, the editing mode, the
//! command line in progress and the terminal size last reported.

use crate::message::{Position, Size};
use vstd::prelude::*;

verus! {

/// The editing mode, which decides what a keystroke means.
#[derive(Debug, PartialEq, Eq, Clone, Copy, Hash, Structural)]
pub enum BufferMode {
    Normal,
    Insert,
    Command,
}

impl Default for BufferMode {
    fn default() -> (mode: Self)
        ensures
            mode == BufferMode::Normal,
    {
        BufferMode::Normal
    }
}

/// One open file's content in memory.
#[derive(Debug, PartialEq, Eq)]
pub struct Buffer {
    /// The canonical path of the file, where the buffer has one.
    pub path: Option<String>,
    /// The whole text.
    pub data: String,
    /// The cursor position last recorded.
    pub pos: Position,
}

/// What a `Buffer` holds, as mathematical values.
pub struct BufferView {
    pub path: Option<Seq<char>>,
    pub data: Seq<char>,
    pub pos: Position,
}

impl View for Buffer {
    type V = BufferView;

    open spec fn view(&self) -> BufferView {
        BufferView { path: self.path.deep_view(), data: self.data@, pos: self.pos }
    }
}

impl DeepView for Buffer {
    type V = BufferView;

    open spec fn deep_view(&self) -> BufferView {
        self@
    }
}

impl Default for Buffer {
    fn default() -> (buffer: Self)
        ensures
            buffer@ == (BufferView { path: None, data: Seq::empty(), pos: (0, 0) }),
    {
        Buffer { path: None, data: String::new(), pos: (0, 0) }
    }
}

/// The buffer that opening `path` for the first time creates: empty, with
/// the cursor at the origin.
pub open spec fn fresh_buffer(path: Seq<char>) -> BufferView {
    BufferView { path: Some(path), data: Seq::empty(), pos: (0, 0) }
}

/// The index of the first of `buffers` that holds `path`, or the number of
/// buffers where none does.
pub open spec fn path_index(buffers: Seq<BufferView>, path: Seq<char>) -> int
    decreases buffers.len(),
{
    if buffers.len() == 0 {
        0
    } else if buffers[0].path == Some(path) {
        0
    } else {
        1 + path_index(buffers.drop_first(), path)
    }
}

/// Whether one of `buffers` holds `path`.
pub open spec fn has_path(buffers: Seq<BufferView>, path: Seq<char>) -> bool {
    exists|i: int| 0 <= i < buffers.len() && #[trigger] buffers[i].path == Some(path)
}

/// No two of `buffers` hold the same path.
pub open spec fn distinct_paths(buffers: Seq<BufferView>) -> bool {
    forall|i: int, j: int|
        0 <= i < j < buffers.len() && buffers[i].path is Some ==> #[trigger] buffers[i].path
            != #[trigger] buffers[j].path
}

/// The buffers after `path` was opened: as they were where one of them
/// holds the path already, else with a fresh buffer in front.
pub open spec fn with_buffer(buffers: Seq<BufferView>, path: Seq<char>) -> Seq<BufferView> {
    if has_path(buffers, path) {
        buffers
    } else {
        seq![fresh_buffer(path)] + buffers
    }
}

/// `path_index` finds a buffer that holds the path where there is one, and
/// the first such.
pub proof fn lemma_path_index(buffers: Seq<BufferView>, path: Seq<char>)
    ensures
        0 <= path_index(buffers, path) <= buffers.len(),
        has_path(buffers, path) <==> path_index(buffers, path) < buffers.len(),
        has_path(buffers, path) ==> buffers[path_index(buffers, path)].path == Some(path),
        forall|j: int| 0 <= j < path_index(buffers, path) ==> buffers[j].path != Some(path),
    decreases buffers.len(),
{
    if buffers.len() > 0 && buffers[0].path != Some(path) {
        let rest = buffers.drop_first();
        lemma_path_index(rest, path);
        assert forall|j: int| 0 <= j < path_index(buffers, path) implies buffers[j].path != Some(
            path,
        ) by {
            if j > 0 {
                assert(rest[j - 1] == buffers[j]);
            }
        }
    }
    if has_path(buffers, path) {
        let i = choose|i: int| 0 <= i < buffers.len() && #[trigger] buffers[i].path == Some(path);
        assert(path_index(buffers, path) <= i);
    }
}

/// An index whose buffer holds the path, with none before it that does, is
/// the one `path_index` gives.
pub proof fn lemma_path_index_is(buffers: Seq<BufferView>, path: Seq<char>, i: int)
    requires
        0 <= i <= buffers.len(),
        i < buffers.len() ==> buffers[i].path == Some(path),
        forall|j: int| 0 <= j < i ==> buffers[j].path != Some(path),
    ensures
        path_index(buffers, path) == i,
{
    lemma_path_index(buffers, path);
}

/// Opening a path that is open already changes nothing: after the first
/// opening, a second one of the same path leaves the buffers as they are,
/// and where no two buffers shared a path before, none do after, so that
/// exactly one buffer holds the path.
pub proof fn lemma_with_buffer_idempotent(buffers: Seq<BufferView>, path: Seq<char>)
    ensures
        has_path(with_buffer(buffers, path), path),
        with_buffer(with_buffer(buffers, path), path) == with_buffer(buffers, path),
        distinct_paths(buffers) ==> distinct_paths(with_buffer(buffers, path)),
        distinct_paths(buffers) ==> forall|i: int|
            0 <= i < with_buffer(buffers, path).len() ==> (with_buffer(buffers, path)[i].path
                == Some(path) <==> i == path_index(with_buffer(buffers, path), path)),
{
    let opened = with_buffer(buffers, path);
    lemma_path_index(buffers, path);
    if !has_path(buffers, path) {
        lemma_path_index_is(opened, path, 0);
    }
    lemma_path_index(opened, path);
}

/// The daemon's whole document model.
#[derive(Debug, PartialEq, Eq)]
pub struct TermTextState {
    /// The current editing mode.
    pub mode: BufferMode,
    /// The open buffers. The first is the current one.
    pub buffers: Vec<Buffer>,
    /// The command line being typed: there is one exactly in `Command` mode.
    pub command: Option<String>,
    /// The terminal size that a client reported last.
    pub size: Size,
}

/// What a `TermTextState` holds, as mathematical values.
pub struct StateView {
    pub mode: BufferMode,
    pub buffers: Seq<BufferView>,
    pub command: Option<Seq<char>>,
    pub size: Size,
}

impl StateView {
    /// A command line is in progress exactly in `Command` mode.
    pub open spec fn wf(self) -> bool {
        self.command is Some <==> self.mode == BufferMode::Command
    }

    /// No two buffers hold the same path.
    pub open spec fn distinct_paths(self) -> bool {
        distinct_paths(self.buffers)
    }
}

impl View for TermTextState {
    type V = StateView;

    open spec fn view(&self) -> StateView {
        StateView {
            mode: self.mode,
            buffers: self.buffers.deep_view(),
            command: self.command.deep_view(),
            size: self.size,
        }
    }
}

impl Default for TermTextState {
    fn default() -> (state: Self)
        ensures
            state@ == (StateView {
                mode: BufferMode::Normal,
                buffers: Seq::empty(),
                command: None,
                size: (0, 0),
            }),
            state@.wf(),
            state@.distinct_paths(),
    {
        let state = TermTextState {
            mode: BufferMode::Normal,
            buffers: Vec::new(),
            command: None,
            size: (0, 0),
        };
        assert(state.buffers.deep_view() =~= Seq::empty());
        state
    }
}

impl TermTextState {
    /// Whether a command line is in progress exactly in `Command` mode, as
    /// the state machine for input expects.
    pub fn is_wf(&self) -> (ok: bool)
        ensures
            ok == self@.wf(),
    {
        match self.mode {
            BufferMode::Command => self.command.is_some(),
            _ => self.command.is_none(),
        }
    }

    /// The position of the first buffer that holds `path`, or the number of
    /// buffers where none does.
    fn find_path(&self, path: &str) -> (i: usize)
        ensures
            i == path_index(self@.buffers, path@),
            i <= self.buffers.len(),
            i < self.buffers.len() <==> has_path(self@.buffers, path@),
    {
        proof {
            lemma_path_index(self@.buffers, path@);
        }
        let mut i: usize = 0;
        while i < self.buffers.len()
            invariant
                i <= self.buffers.len(),
                forall|j: int| 0 <= j < i ==> self@.buffers[j].path != Some(path@),
            decreases self.buffers.len() - i,
        {
            let found = match &self.buffers[i].path {
                Some(held) => held.as_str().eq(path),
                None => false,
            };
            if found {
                proof {
                    lemma_path_index_is(self@.buffers, path@, i as int);
                }
                return i;
            }
            i += 1;
        }
        proof {
            lemma_path_index_is(self@.buffers, path@, i as int);
        }
        i
    }

    /// Whether a buffer for `path` is open.
    pub fn buffer_exists_by_path(&mut self, path: &str) -> (exists: bool)
        ensures
            exists == has_path(old(self)@.buffers, path@),
            *final(self) == *old(self),
    {
        self.find_path(path) < self.buffers.len()
    }

    /// The buffer for `path`: the one that is open where there is one, else
    /// a new, empty buffer, which becomes the current one. Opening a path a
    /// second time adds no second buffer.
    ///
    /// The buffers are then those of `with_buffer`, but for what the caller
    /// does to the buffer that is returned.
    pub fn create_buffer(&mut self, path: &str) -> (buffer: &mut Buffer)
        ensures
            ({
                let opened = with_buffer(old(self)@.buffers, path@);
                let i = path_index(opened, path@);
                &&& 0 <= i < opened.len()
                &&& buffer@ == opened[i]
                &&& final(self)@.buffers == opened.update(i, final(buffer)@)
            }),
            final(self).mode == old(self).mode,
            final(self).command == old(self).command,
            final(self).size == old(self).size,
    {
        proof {
            lemma_with_buffer_idempotent(self@.buffers, path@);
            lemma_path_index(with_buffer(self@.buffers, path@), path@);
        }
        let i = self.find_path(path);
        if i < self.buffers.len() {
            return &mut self.buffers[i];
        }
        proof {
            lemma_path_index_is(with_buffer(self@.buffers, path@), path@, 0);
        }
        let fresh = Buffer { path: Some(path.to_owned()), data: String::new(), pos: (0, 0) };
        self.buffers.insert(0, fresh);
        &mut self.buffers[0]
    }

    /// The first buffer that holds `path`, if there is one.
    pub fn buffer_by_path(&mut self, path: &str) -> (found: Option<&mut Buffer>)
        ensures
            found is Some <==> has_path(old(self)@.buffers, path@),
            match found {
                Some(buffer) => {
                    let i = path_index(old(self)@.buffers, path@);
                    &&& buffer@ == old(self)@.buffers[i]
                    &&& final(self)@.buffers == old(self)@.buffers.update(i, final(buffer)@)
                    &&& final(self).mode == old(self).mode
                    &&& final(self).command == old(self).command
                    &&& final(self).size == old(self).size
                },
                None => *final(self) == *old(self),
            },
    {
        let i = self.find_path(path);
        if i < self.buffers.len() {
            Some(&mut self.buffers[i])
        } else {
            None
        }
    }

    /// Closes the current buffer. Returns whether there was one to close;
    /// with no buffer open the state stays as it is.
    pub fn close_current_buffer(&mut self) -> (closed: bool)
        ensures
            closed == (old(self)@.buffers.len() > 0),
            !closed ==> *final(self) == *old(self),
            closed ==> final(self)@.buffers == old(self)@.buffers.drop_first(),
            final(self).mode == old(self).mode,
            final(self).command == old(self).command,
            final(self).size == old(self).size,
    {
        if self.buffers.len() > 0 {
            self.buffers.remove(0);
            true
        } else {
            false
        }
    }

    /// The current buffer: the first of the list, if any is open.
    pub fn current_buffer(&self) -> (current: Option<&Buffer>)
        ensures
            current is Some <==> self.buffers.len() > 0,
            current matches Some(buffer) ==> *buffer == self.buffers[0],
    {
        if self.buffers.len() > 0 {
            Some(&self.buffers[0])
        } else {
            None
        }
    }

    /// The current buffer, to change it.
    pub fn current_buffer_mut(&mut self) -> (current: Option<&mut Buffer>)
        ensures
            current is Some <==> old(self).buffers.len() > 0,
            match current {
                Some(buffer) => {
                    &&& *buffer == old(self).buffers[0]
                    &&& final(self).buffers@ == old(self).buffers@.update(0, *final(buffer))
                    &&& final(self).mode == old(self).mode
                    &&& final(self).command == old(self).command
                    &&& final(self).size == old(self).size
                },
                None => *final(self) == *old(self),
            },
    {
        if self.buffers.len() > 0 {
            Some(&mut self.buffers[0])
        } else {
            None
        }
    }
}

} // verus!
