//! The renderer: from the editor state to the display messages that show
//! it. It reads the state and changes nothing.

use crate::input::current_data;
use crate::message::{Position, ServerMessage, ServerMessageView, Size};
use crate::state::{BufferMode, StateView, TermTextState};
use vstd::prelude::*;
use vstd::string::StringExecFns;

verus! {

/// Columns that the line-number gutter takes, for numbers of up to six
/// digits.
pub const GUTTER_WIDTH: u16 = 9;

/// Columns that a tab advances.
pub const TAB_WIDTH: u16 = 4;

/// Digits to which a line number is padded.
pub const NUMBER_WIDTH: usize = 6;

/// The character for one decimal digit.
pub open spec fn digit_char(d: nat) -> char {
    if d == 0 {
        '0'
    } else if d == 1 {
        '1'
    } else if d == 2 {
        '2'
    } else if d == 3 {
        '3'
    } else if d == 4 {
        '4'
    } else if d == 5 {
        '5'
    } else if d == 6 {
        '6'
    } else if d == 7 {
        '7'
    } else if d == 8 {
        '8'
    } else {
        '9'
    }
}

/// `n` in decimal, without leading zeros.
pub open spec fn decimal(n: nat) -> Seq<char>
    decreases n,
{
    if n < 10 {
        seq![digit_char(n)]
    } else {
        decimal(n / 10).push(digit_char(n % 10))
    }
}

/// `count` spaces.
pub open spec fn spaces(count: nat) -> Seq<char> {
    Seq::new(count, |i: int| ' ')
}

/// The gutter in front of line `number`: the number, right-aligned in six
/// columns, then a bar between two spaces.
pub open spec fn gutter(number: nat) -> Seq<char> {
    let digits = decimal(number);
    let padding = if digits.len() < 6 {
        spaces((6 - digits.len()) as nat)
    } else {
        Seq::empty()
    };
    padding + digits + seq![' ', '|', ' ']
}

/// What one character of text shows as: a tab as four spaces, any other
/// character as itself.
pub open spec fn shown(c: char) -> Seq<char> {
    if c == '\t' {
        spaces(4)
    } else {
        seq![c]
    }
}

/// A line of text as it is shown, with its tabs expanded.
pub open spec fn expanded(line: Seq<char>) -> Seq<char>
    decreases line.len(),
{
    if line.len() == 0 {
        Seq::empty()
    } else {
        expanded(line.drop_last()) + shown(line.last())
    }
}

/// The lines of `data`: the stretches between its newlines. A text without
/// a newline is one line; a newline at the end begins a last, empty line.
pub open spec fn split_lines(data: Seq<char>) -> Seq<Seq<char>>
    decreases data.len(),
{
    if data.len() == 0 {
        seq![Seq::empty()]
    } else {
        let before = split_lines(data.drop_last());
        if data.last() == '\n' {
            before.push(Seq::empty())
        } else {
            before.update(before.len() - 1, before.last().push(data.last()))
        }
    }
}

/// `lines`, with a newline between each two.
pub open spec fn joined(lines: Seq<Seq<char>>) -> Seq<char>
    decreases lines.len(),
{
    if lines.len() == 0 {
        Seq::empty()
    } else if lines.len() == 1 {
        lines[0]
    } else {
        joined(lines.drop_last()) + seq!['\n'] + lines.last()
    }
}

/// The text as the screen shows it: each line behind its gutter, numbered
/// from 1, with its tabs expanded.
pub open spec fn numbered(data: Seq<char>) -> Seq<Seq<char>> {
    let lines = split_lines(data);
    Seq::new(lines.len(), |k: int| gutter((k + 1) as nat) + expanded(lines[k]))
}

/// `n`, or the largest coordinate where `n` is beyond it.
pub open spec fn clamped(n: int) -> u16 {
    if n > u16::MAX {
        u16::MAX
    } else {
        n as u16
    }
}

/// Where the cursor stands: behind the last character of the text. Its
/// column counts the gutter and four columns for each tab of the last
/// line; its row is the index of the last line.
pub open spec fn cursor_of(data: Seq<char>) -> Position {
    let lines = split_lines(data);
    (clamped(GUTTER_WIDTH + expanded(lines.last()).len()), clamped(lines.len() - 1))
}

/// Where the status line stands: on the bottom row, or on row 0 of a
/// terminal without rows.
pub open spec fn status_position_of(size: Size) -> Position {
    if size.1 > 0 {
        (0u16, (size.1 - 1) as u16)
    } else {
        (0u16, 0u16)
    }
}

/// The name of a mode, as the status line shows it.
pub open spec fn mode_name(mode: BufferMode) -> Seq<char> {
    match mode {
        BufferMode::Normal => "Normal"@,
        BufferMode::Insert => "Insert"@,
        BufferMode::Command => "Command"@,
    }
}

/// The status line: the mode, then the command line in progress, then the
/// quoted path of the current buffer, as far as there is each.
pub open spec fn status_text(
    mode: BufferMode,
    command: Option<Seq<char>>,
    quoted_path: Option<Seq<char>>,
) -> Seq<char> {
    "tt: "@ + mode_name(mode) + (match command {
        Some(text) => seq![' '] + text,
        None => Seq::empty(),
    }) + (match quoted_path {
        Some(text) => seq![' '] + text,
        None => Seq::empty(),
    })
}

/// The form in which `std` shows a path for debugging, which is the path
/// in double quotes with some of its characters escaped. What it is for a
/// given path is left to `std`.
pub uninterp spec fn debug_quoted(path: Seq<char>) -> Seq<char>;

/// The quoted path of the current buffer, if there is a buffer and it has
/// a path.
pub open spec fn quoted_current_path(state: StateView) -> Option<Seq<char>> {
    if state.buffers.len() > 0 && state.buffers[0].path is Some {
        Some(debug_quoted(state.buffers[0].path->0))
    } else {
        None
    }
}

/// The display of a state, with the quoted path for its status line given:
/// the text of the current buffer, if there is one, over the whole
/// terminal; the status line; the cursor.
pub open spec fn rendered_with(state: StateView, quoted_path: Option<Seq<char>>) -> Seq<
    ServerMessageView,
> {
    let body = if state.buffers.len() > 0 {
        seq![ServerMessageView::Update((0u16, 0u16), state.size, numbered(state.buffers[0].data))]
    } else {
        Seq::empty()
    };
    body + seq![
        ServerMessageView::Update(
            status_position_of(state.size),
            (state.size.0, 1u16),
            seq![status_text(state.mode, state.command, quoted_path)],
        ),
        ServerMessageView::Cursor(cursor_of(current_data(state))),
    ]
}

/// The display of a state. Its status line shows the path of the current
/// buffer, quoted.
pub open spec fn rendered(state: StateView) -> Seq<ServerMessageView> {
    rendered_with(state, quoted_current_path(state))
}

/// Appending a character to a text extends its last line, or begins a new
/// one behind a newline.
pub proof fn lemma_split_lines_push(data: Seq<char>, c: char)
    ensures
        split_lines(data).len() >= 1,
        c == '\n' ==> split_lines(data.push(c)) == split_lines(data).push(Seq::empty()),
        c != '\n' ==> split_lines(data.push(c)) == split_lines(data).update(
            split_lines(data).len() - 1,
            split_lines(data).last().push(c),
        ),
    decreases data.len(),
{
    if data.len() > 0 {
        lemma_split_lines_push(data.drop_last(), data.last());
    }
    assert(data.push(c).drop_last() =~= data);
}

/// Splitting loses nothing: no line holds a newline, and the lines joined
/// by newlines are the text again.
pub proof fn lemma_split_lines_joined(data: Seq<char>)
    ensures
        split_lines(data).len() >= 1,
        forall|k: int, i: int|
            0 <= k < split_lines(data).len() && 0 <= i < split_lines(data)[k].len()
                ==> split_lines(data)[k][i] != '\n',
        joined(split_lines(data)) == data,
    decreases data.len(),
{
    if data.len() > 0 {
        let shorter = data.drop_last();
        let before = split_lines(shorter);
        let lines = split_lines(data);
        lemma_split_lines_joined(shorter);
        assert(shorter.push(data.last()) =~= data);
        if data.last() == '\n' {
            assert(lines.drop_last() =~= before);
        } else if before.len() > 1 {
            assert(lines.drop_last() =~= before.drop_last());
        }
    }
}

/// A character more in a line shows as what the line showed, then the
/// character's own form.
pub proof fn lemma_expanded_push(line: Seq<char>, c: char)
    ensures
        expanded(line.push(c)) == expanded(line) + shown(c),
        expanded(line.push(c)).len() == expanded(line).len() + (if c == '\t' {
            4int
        } else {
            1int
        }),
{
    assert(line.push(c).drop_last() =~= line);
}

/// The number of tabs in a line.
pub open spec fn tabs(line: Seq<char>) -> nat
    decreases line.len(),
{
    if line.len() == 0 {
        0
    } else if line.last() == '\t' {
        tabs(line.drop_last()) + 1
    } else {
        tabs(line.drop_last())
    }
}

/// A line shows in one column for each character and three more for each
/// tab, so that a tab takes four.
pub proof fn lemma_expanded_len(line: Seq<char>)
    ensures
        expanded(line).len() == line.len() + 3 * tabs(line),
    decreases line.len(),
{
    if line.len() > 0 {
        lemma_expanded_len(line.drop_last());
    }
}

/// A text without a newline is one line.
pub proof fn lemma_split_single_line(data: Seq<char>)
    requires
        !data.contains('\n'),
    ensures
        split_lines(data) == seq![data],
    decreases data.len(),
{
    if data.len() > 0 {
        let shorter = data.drop_last();
        assert(!shorter.contains('\n')) by {
            if shorter.contains('\n') {
                let i = choose|i: int| 0 <= i < shorter.len() && shorter[i] == '\n';
                assert(data[i] == '\n');
            }
        }
        lemma_split_single_line(shorter);
        assert(shorter.push(data.last()) =~= data);
    } else {
        assert(data =~= Seq::<char>::empty());
    }
}

/// On a text of one line the cursor stands in row 0, in the column behind
/// the gutter, one column for each character and three more for each tab.
pub proof fn lemma_cursor_on_single_line(data: Seq<char>)
    requires
        !data.contains('\n'),
    ensures
        cursor_of(data) == (clamped(GUTTER_WIDTH + data.len() + 3 * tabs(data)), 0u16),
{
    lemma_split_single_line(data);
    lemma_expanded_len(data);
}

/// A character more in a text shows as a new line behind its gutter, if
/// it is a newline, and else in the last line, behind what that showed.
pub proof fn lemma_numbered_push(data: Seq<char>, c: char)
    ensures
        numbered(data).len() == split_lines(data).len(),
        numbered(data).len() >= 1,
        c == '\n' ==> numbered(data.push(c)) == numbered(data).push(
            gutter((numbered(data).len() + 1) as nat),
        ),
        c != '\n' ==> numbered(data.push(c)) == numbered(data).update(
            numbered(data).len() - 1,
            numbered(data).last() + shown(c),
        ),
{
    lemma_split_lines_push(data, c);
    let lines = split_lines(data);
    lemma_expanded_push(lines.last(), c);
    if c != '\n' {
        let number = lines.len();
        assert(gutter(number) + (expanded(lines.last()) + shown(c)) =~= (gutter(number)
            + expanded(lines.last())) + shown(c));
    }
}

/// The character for one decimal digit.
fn digit(d: u8) -> (c: char)
    requires
        d < 10,
    ensures
        c == digit_char(d as nat),
{
    if d == 0 {
        '0'
    } else if d == 1 {
        '1'
    } else if d == 2 {
        '2'
    } else if d == 3 {
        '3'
    } else if d == 4 {
        '4'
    } else if d == 5 {
        '5'
    } else if d == 6 {
        '6'
    } else if d == 7 {
        '7'
    } else if d == 8 {
        '8'
    } else {
        '9'
    }
}

/// Appends `n` in decimal and returns the number of digits.
fn push_decimal(text: &mut String, n: u128) -> (digits: usize)
    ensures
        final(text)@ == old(text)@ + decimal(n as nat),
        digits == decimal(n as nat).len(),
        1 <= digits <= 39,
    decreases n,
{
    if n < 10 {
        text.push(digit(n as u8));
        1
    } else {
        let digits = push_decimal(text, n / 10);
        text.push(digit((n % 10) as u8));
        assert(digits < 39) by {
            lemma_decimal_len((n / 10) as nat);
        }
        digits + 1
    }
}

/// A number below a power of ten has no more digits than that power has
/// zeros.
proof fn lemma_decimal_len(n: nat)
    ensures
        n < 100_000_000_000_000_000_000_000_000_000_000_000_000 ==> decimal(n).len() <= 38,
        decimal(n).len() >= 1,
{
    reveal_with_fuel(decimal, 40);
}

/// The gutter in front of the line at index `row`.
fn gutter_text(row: usize) -> (text: String)
    ensures
        text@ == gutter((row + 1) as nat),
{
    let number: u128 = row as u128 + 1;
    let mut digits = String::new();
    let count = push_decimal(&mut digits, number);
    let mut text = String::new();
    let mut padded: usize = count;
    while padded < NUMBER_WIDTH
        invariant
            count <= padded,
            count < 6 ==> padded <= 6,
            count >= 6 ==> padded == count,
            text@ == spaces((padded - count) as nat),
        decreases 6 - padded,
    {
        text.push(' ');
        padded += 1;
    }
    text.append(digits.as_str());
    text.push(' ');
    text.push('|');
    text.push(' ');
    text
}

/// The lines of `data` as the screen shows them: each behind its gutter,
/// numbered from 1, with its tabs expanded.
pub fn numbered_lines(data: &str) -> (lines: Vec<String>)
    ensures
        lines.deep_view() == numbered(data@),
{
    let mut lines: Vec<String> = Vec::new();
    let mut line = gutter_text(0);
    for c in it: data.chars()
        invariant
            it.seq() == data@,
            lines.deep_view().push(line@) == numbered(data@.subrange(0, it.index() as int)),
    {
        let ghost done = data@.subrange(0, it.index() as int);
        let ghost shown_before = lines.deep_view().push(line@);
        proof {
            assert(data@.subrange(0, it.index() + 1) =~= done.push(c));
            lemma_numbered_push(done, c);
        }
        if c == '\n' {
            lines.push(line);
            line = gutter_text(lines.len());
        } else if c == '\t' {
            line.push(' ');
            line.push(' ');
            line.push(' ');
            line.push(' ');
            assert(line@ =~= shown_before.last() + shown(c));
        } else {
            line.push(c);
            assert(line@ =~= shown_before.last() + shown(c));
        }
    }
    proof {
        assert(data@.subrange(0, data@.len() as int) =~= data@);
    }
    lines.push(line);
    lines
}

/// Where the cursor stands for a text: behind its last character.
pub fn cursor_position(data: &str) -> (position: Position)
    ensures
        position == cursor_of(data@),
{
    let mut column: u16 = 0;
    let mut row: u16 = 0;
    for c in it: data.chars()
        invariant
            it.seq() == data@,
            column == clamped(
                expanded(split_lines(data@.subrange(0, it.index() as int)).last()).len() as int,
            ),
            row == clamped(split_lines(data@.subrange(0, it.index() as int)).len() - 1),
    {
        let ghost done = data@.subrange(0, it.index() as int);
        proof {
            assert(data@.subrange(0, it.index() + 1) =~= done.push(c));
            lemma_split_lines_push(done, c);
            lemma_expanded_push(split_lines(done).last(), c);
        }
        if c == '\n' {
            column = 0;
            row = row.saturating_add(1);
        } else if c == '\t' {
            column = column.saturating_add(TAB_WIDTH);
        } else {
            column = column.saturating_add(1);
        }
    }
    proof {
        assert(data@.subrange(0, data@.len() as int) =~= data@);
    }
    (column.saturating_add(GUTTER_WIDTH), row)
}

/// Where the status line stands in a terminal of `size`.
pub fn status_position(size: Size) -> (position: Position)
    ensures
        position == status_position_of(size),
{
    if size.1 > 0 {
        (0, size.1 - 1)
    } else {
        (0, 0)
    }
}

/// The name of a mode, as the status line shows it.
pub fn mode_text(mode: BufferMode) -> (name: &'static str)
    ensures
        name@ == mode_name(mode),
{
    match mode {
        BufferMode::Normal => "Normal",
        BufferMode::Insert => "Insert",
        BufferMode::Command => "Command",
    }
}

/// The view of a string that may be absent.
pub open spec fn text_of(text: Option<&str>) -> Option<Seq<char>> {
    match text {
        Some(t) => Some(t@),
        None => None,
    }
}

/// The status line for a mode, the command line in progress and the path
/// of the current buffer, which comes quoted already.
pub fn status_line(mode: BufferMode, command: Option<&str>, quoted_path: Option<&str>) -> (text:
    String)
    ensures
        text@ == status_text(mode, text_of(command), text_of(quoted_path)),
{
    let mut text = "tt: ".to_owned();
    text.append(mode_text(mode));
    match command {
        Some(command) => {
            text.push(' ');
            text.append(command);
        },
        None => {},
    }
    match quoted_path {
        Some(path) => {
            text.push(' ');
            text.append(path);
        },
        None => {},
    }
    text
}

/// The path as `std` shows it for debugging, from `format!` with `{:?}` on
/// a `std::path::Path`. Not proved here, and all that is claimed: that the
/// result depends on the path alone.
#[verifier::external_body]
fn quote_path(path: &str) -> (quoted: String)
    ensures
        quoted@ == debug_quoted(path@),
{
    format!("{:?}", std::path::Path::new(path))
}

/// Renders the state, with the quoted path for its status line given: an
/// update with the text of the current buffer over the whole terminal,
/// where a buffer is open; an update with the status line; the cursor.
pub fn render_with(state: &TermTextState, quoted_path: Option<&str>) -> (messages: Vec<
    ServerMessage,
>)
    ensures
        messages.deep_view() == rendered_with(state@, text_of(quoted_path)),
{
    let mut messages: Vec<ServerMessage> = Vec::new();
    let cursor = match state.current_buffer() {
        Some(buffer) => {
            let lines = numbered_lines(buffer.data.as_str());
            messages.push(ServerMessage::Update((0, 0), state.size, lines));
            cursor_position(buffer.data.as_str())
        },
        None => cursor_position(""),
    };
    let command: Option<&str> = match &state.command {
        Some(command) => Some(command.as_str()),
        None => None,
    };
    let status = status_line(state.mode, command, quoted_path);
    let mut status_lines: Vec<String> = Vec::new();
    status_lines.push(status);
    messages.push(
        ServerMessage::Update(status_position(state.size), (state.size.0, 1), status_lines),
    );
    messages.push(ServerMessage::Cursor(cursor));
    proof {
        reveal_strlit("");
        assert(status_lines.deep_view() =~= seq![status@]);
    }
    messages
}

/// Renders the state: an update with the text of the current buffer over
/// the whole terminal, where a buffer is open; an update with the status
/// line, which shows the quoted path of the current buffer; the cursor.
pub fn render(state: &TermTextState) -> (messages: Vec<ServerMessage>)
    ensures
        messages.deep_view() == rendered(state@),
{
    let quoted: Option<String> = match state.current_buffer() {
        Some(buffer) => match &buffer.path {
            Some(path) => Some(quote_path(path.as_str())),
            None => None,
        },
        None => None,
    };
    let quoted_path: Option<&str> = match &quoted {
        Some(path) => Some(path.as_str()),
        None => None,
    };
    render_with(state, quoted_path)
}

} // verus!
