//! The command line: how the text typed in `Command` mode is read.
//!
//! A command is a word, and for some commands a second word, separated by
//! white space. Words after the second are ignored.

use crate::text::chars_of;
use vstd::prelude::*;

verus! {

/// What a command line asks for.
#[derive(Debug, PartialEq, Eq)]
pub enum Command {
    /// `open <path>`: open the file at the path.
    Open(String),
    /// `write [<path>]`: write the current buffer, to the path where one is
    /// given, else to the path it has.
    Write(Option<String>),
    /// `close`: close the current buffer.
    Close,
}

/// What a `Command` holds, as mathematical values.
pub enum CommandView {
    Open(Seq<char>),
    Write(Option<Seq<char>>),
    Close,
}

impl View for Command {
    type V = CommandView;

    open spec fn view(&self) -> CommandView {
        match *self {
            Command::Open(path) => CommandView::Open(path@),
            Command::Write(path) => CommandView::Write(path.deep_view()),
            Command::Close => CommandView::Close,
        }
    }
}

impl DeepView for Command {
    type V = CommandView;

    open spec fn deep_view(&self) -> CommandView {
        self@
    }
}

/// Whether `c` is white space, as Unicode defines it.
pub open spec fn is_space(c: char) -> bool {
    ||| '\u{9}' <= c <= '\u{D}'
    ||| c == ' '
    ||| c == '\u{85}'
    ||| c == '\u{A0}'
    ||| c == '\u{1680}'
    ||| '\u{2000}' <= c <= '\u{200A}'
    ||| c == '\u{2028}'
    ||| c == '\u{2029}'
    ||| c == '\u{202F}'
    ||| c == '\u{205F}'
    ||| c == '\u{3000}'
}

/// The first position at or after `from` that holds no white space, or the
/// length of the text.
pub open spec fn spaces_end(text: Seq<char>, from: int) -> int
    decreases text.len() - from,
{
    if 0 <= from < text.len() && is_space(text[from]) {
        spaces_end(text, from + 1)
    } else {
        from
    }
}

/// The first position at or after `from` that holds white space, or the
/// length of the text.
pub open spec fn word_end(text: Seq<char>, from: int) -> int
    decreases text.len() - from,
{
    if 0 <= from < text.len() && !is_space(text[from]) {
        word_end(text, from + 1)
    } else {
        from
    }
}

/// The first word at or after `from`: empty where only white space is left.
pub open spec fn word_at(text: Seq<char>, from: int) -> Seq<char> {
    let start = spaces_end(text, from);
    text.subrange(start, word_end(text, start))
}

/// The position behind the first word at or after `from`.
pub open spec fn after_word(text: Seq<char>, from: int) -> int {
    word_end(text, spaces_end(text, from))
}

/// The command that `text` spells, if it spells one.
///
/// The first word names the command. `open` needs a path as its second
/// word: without one it names nothing to open and is no command. Any other
/// first word, or none, is no command either.
pub open spec fn command_of(text: Seq<char>) -> Option<CommandView> {
    let name = word_at(text, 0);
    let argument = word_at(text, after_word(text, 0));
    if name == "open"@ {
        if argument.len() > 0 {
            Some(CommandView::Open(argument))
        } else {
            None
        }
    } else if name == "write"@ {
        if argument.len() > 0 {
            Some(CommandView::Write(Some(argument)))
        } else {
            Some(CommandView::Write(None))
        }
    } else if name == "close"@ {
        Some(CommandView::Close)
    } else {
        None
    }
}

/// The two ends are in the text, in order, and enclose what they skip.
pub proof fn lemma_ends_in_range(text: Seq<char>, from: int)
    requires
        0 <= from <= text.len(),
    ensures
        from <= spaces_end(text, from) <= text.len(),
        from <= word_end(text, from) <= text.len(),
        forall|k: int| from <= k < spaces_end(text, from) ==> is_space(text[k]),
        forall|k: int| from <= k < word_end(text, from) ==> !is_space(text[k]),
        spaces_end(text, from) < text.len() ==> !is_space(text[spaces_end(text, from)]),
        word_end(text, from) < text.len() ==> is_space(text[word_end(text, from)]),
    decreases text.len() - from,
{
    if from < text.len() {
        lemma_ends_in_range(text, from + 1);
    }
}

/// A word holds no white space, and is not empty unless the text ends
/// before one begins.
pub proof fn lemma_word_at(text: Seq<char>, from: int)
    requires
        0 <= from <= text.len(),
    ensures
        forall|k: int| 0 <= k < word_at(text, from).len() ==> !is_space(word_at(text, from)[k]),
        word_at(text, from).len() == 0 <==> spaces_end(text, from) == text.len(),
        from <= after_word(text, from) <= text.len(),
{
    lemma_ends_in_range(text, from);
    lemma_ends_in_range(text, spaces_end(text, from));
}

/// Whether `c` is white space.
pub fn is_whitespace(c: char) -> (space: bool)
    ensures
        space == is_space(c),
{
    ('\u{9}' <= c && c <= '\u{D}') || c == ' ' || c == '\u{85}' || c == '\u{A0}' || c
        == '\u{1680}' || ('\u{2000}' <= c && c <= '\u{200A}') || c == '\u{2028}' || c
        == '\u{2029}' || c == '\u{202F}' || c == '\u{205F}' || c == '\u{3000}'
}

/// Skips white space from `from` on.
fn skip_spaces(chars: &Vec<char>, from: usize) -> (end: usize)
    requires
        from <= chars.len(),
    ensures
        end == spaces_end(chars@, from as int),
        from <= end <= chars.len(),
{
    let mut end = from;
    while end < chars.len() && is_whitespace(chars[end])
        invariant
            from <= end <= chars.len(),
            spaces_end(chars@, from as int) == spaces_end(chars@, end as int),
        decreases chars.len() - end,
    {
        end += 1;
    }
    end
}

/// Skips a word from `from` on.
fn skip_word(chars: &Vec<char>, from: usize) -> (end: usize)
    requires
        from <= chars.len(),
    ensures
        end == word_end(chars@, from as int),
        from <= end <= chars.len(),
{
    let mut end = from;
    while end < chars.len() && !is_whitespace(chars[end])
        invariant
            from <= end <= chars.len(),
            word_end(chars@, from as int) == word_end(chars@, end as int),
        decreases chars.len() - end,
    {
        end += 1;
    }
    end
}

/// The characters from `start` up to `end`, as a string.
fn string_of(chars: &Vec<char>, start: usize, end: usize) -> (text: String)
    requires
        start <= end <= chars.len(),
    ensures
        text@ == chars@.subrange(start as int, end as int),
{
    let mut text = String::new();
    let mut i = start;
    while i < end
        invariant
            start <= i <= end <= chars.len(),
            text@ == chars@.subrange(start as int, i as int),
        decreases end - i,
    {
        text.push(chars[i]);
        i += 1;
    }
    text
}

/// Reads a command line. `None` where the text spells no command: it names
/// no command that is known, or `open` without a path.
pub fn parse_command(text: &str) -> (command: Option<Command>)
    ensures
        command.deep_view() == command_of(text@),
{
    let chars = chars_of(text);
    let name_start = skip_spaces(&chars, 0);
    let name_end = skip_word(&chars, name_start);
    let argument_start = skip_spaces(&chars, name_end);
    let argument_end = skip_word(&chars, argument_start);
    let name = string_of(&chars, name_start, name_end);
    let argument = string_of(&chars, argument_start, argument_end);
    let has_argument = argument_start < argument_end;
    if name.as_str().eq("open") {
        if has_argument {
            Some(Command::Open(argument))
        } else {
            None
        }
    } else if name.as_str().eq("write") {
        if has_argument {
            Some(Command::Write(Some(argument)))
        } else {
            Some(Command::Write(None))
        }
    } else if name.as_str().eq("close") {
        Some(Command::Close)
    } else {
        None
    }
}

} // verus!
