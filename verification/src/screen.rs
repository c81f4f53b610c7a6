//! The client's side of an update: which rows of the terminal it fills,
//! and with what. The protocol lets an update hold more lines than its
//! height, or lines longer than its width: the receiver clips.

use crate::message::{Position, Size};
use crate::render::spaces;
use crate::text::chars_of;
use vstd::prelude::*;
use vstd::string::StringSliceAdditionalSpecFns;
use vstd::utf8::encode_utf8;

verus! {

/// One row of the terminal, and the text to put there.
#[derive(Debug, PartialEq, Eq)]
pub struct Row {
    /// Where the text begins.
    pub position: Position,
    pub text: String,
}

/// What a `Row` holds, as mathematical values.
pub struct RowView {
    pub position: Position,
    pub text: Seq<char>,
}

impl View for Row {
    type V = RowView;

    open spec fn view(&self) -> RowView {
        RowView { position: self.position, text: self.text@ }
    }
}

impl DeepView for Row {
    type V = RowView;

    open spec fn deep_view(&self) -> RowView {
        self@
    }
}

/// The text for a row of `width` columns: the first `width` characters of
/// the line, then spaces as far as the line's length in bytes falls short
/// of the width.
pub open spec fn row_text(line: Seq<char>, width: nat) -> Seq<char> {
    let kept = if line.len() < width {
        line
    } else {
        line.subrange(0, width as int)
    };
    let bytes = encode_utf8(line).len();
    let padding = if bytes < width {
        spaces((width - bytes) as nat)
    } else {
        Seq::empty()
    };
    kept + padding
}

/// The number of rows that an update fills: its height, as far as the rows
/// have a coordinate.
pub open spec fn row_count(pos: Position, size: Size) -> nat {
    if pos.1 + size.1 <= u16::MAX + 1 {
        size.1 as nat
    } else {
        (u16::MAX + 1 - pos.1) as nat
    }
}

/// The line at index `i`, or an empty line where the update holds none.
pub open spec fn line_at(lines: Seq<Seq<char>>, i: int) -> Seq<char> {
    if 0 <= i < lines.len() {
        lines[i]
    } else {
        Seq::empty()
    }
}

/// The rows that an update fills: one for each row of its height, from its
/// position down, each with its line clipped and padded to the width. Lines
/// beyond the height are dropped; rows without a line are blank.
pub open spec fn rows_of(pos: Position, size: Size, lines: Seq<Seq<char>>) -> Seq<RowView> {
    Seq::new(
        row_count(pos, size),
        |i: int|
            RowView {
                position: (pos.0, (pos.1 + i) as u16),
                text: row_text(line_at(lines, i), size.0 as nat),
            },
    )
}

/// The text for a row of `width` columns that shows `line`.
pub fn clip_line(line: &str, width: u16) -> (text: String)
    ensures
        text@ == row_text(line@, width as nat),
{
    let chars = chars_of(line);
    let mut text = String::new();
    let mut i: usize = 0;
    while i < chars.len() && i < width as usize
        invariant
            i <= chars.len(),
            i <= width,
            chars@ == line@,
            text@ == line@.subrange(0, i as int),
        decreases chars.len() - i,
    {
        text.push(chars[i]);
        i += 1;
    }
    let ghost kept = text@;
    let bytes: usize = line.as_bytes().len();
    let mut filled: usize = bytes;
    while filled < width as usize
        invariant
            bytes <= filled,
            bytes < width ==> filled <= width,
            bytes >= width ==> filled == bytes,
            text@ == kept + spaces((filled - bytes) as nat),
        decreases width - filled,
    {
        text.push(' ');
        filled += 1;
    }
    text
}

/// The rows that an update at `pos`, of `size`, with `lines` fills.
pub fn update_rows(pos: Position, size: Size, lines: &Vec<String>) -> (rows: Vec<Row>)
    ensures
        rows.deep_view() == rows_of(pos, size, lines.deep_view()),
{
    let mut rows: Vec<Row> = Vec::new();
    let mut i: u16 = 0;
    let mut y: u16 = pos.1;
    let count: u16 = if size.1 as u32 + pos.1 as u32 <= 65536 {
        size.1
    } else {
        (65536 - pos.1 as u32) as u16
    };
    while i < count
        invariant
            i <= count,
            count == row_count(pos, size),
            i < count ==> y == pos.1 + i,
            rows.len() == i,
            forall|k: int|
                0 <= k < i ==> #[trigger] rows[k]@ == (RowView {
                    position: (pos.0, (pos.1 + k) as u16),
                    text: row_text(line_at(lines.deep_view(), k), size.0 as nat),
                }),
        decreases count - i,
    {
        let text = if (i as usize) < lines.len() {
            clip_line(lines[i as usize].as_str(), size.0)
        } else {
            clip_line("", size.0)
        };
        proof {
            reveal_strlit("");
        }
        rows.push(Row { position: (pos.0, y), text });
        i += 1;
        if i < count {
            y += 1;
        }
    }
    rows
}

} // verus!
