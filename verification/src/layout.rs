//! Where the cursor stands in the writing area, and how far the text is
//! scrolled, for an area of a given width and height.

use vstd::prelude::*;
use vstd::std_specs::iter::IteratorSpec;

verus! {

/// Place of the cursor behind a text that is broken into lines of a fixed
/// width.
#[derive(Debug, Clone, Copy, PartialEq, Eq, Structural)]
pub struct TextCursor {
    /// Column of the cursor in its line, from zero.
    pub column: usize,
    /// Line of the cursor in the whole text, from zero.
    pub row: usize,
    /// Lines of the text that are scrolled out above the area.
    pub scroll: usize,
}

/// Column and line of the cursor behind `text` in lines of `width` columns:
/// a newline begins the next line, and so does the character that fills the
/// last column.
pub open spec fn cursor_place(text: Seq<char>, width: nat) -> (nat, nat)
    decreases text.len(),
{
    if text.len() == 0 {
        (0, 0)
    } else {
        let (column, row) = cursor_place(text.drop_last(), width);
        if text.last() == '\n' || column + 1 >= width {
            (0, row + 1)
        } else {
            (column + 1, row)
        }
    }
}

/// Lines that `text` takes in lines of `width` columns; an empty text
/// takes one.
pub open spec fn line_count(text: Seq<char>, width: nat) -> nat {
    let (column, row) = cursor_place(text, width);
    if text.len() == 0 {
        1
    } else if column > 0 {
        row + 1
    } else {
        row
    }
}

/// Lines scrolled out above an area of `height` lines: as many as the text
/// has too many.
pub open spec fn scroll_offset(text: Seq<char>, width: nat, height: nat) -> nat {
    if line_count(text, width) > height {
        (line_count(text, width) - height) as nat
    } else {
        0
    }
}

/// The cursor stays inside the width of its line, and no text takes more
/// lines than it has characters, the empty text apart.
pub proof fn lemma_cursor_place_bounds(text: Seq<char>, width: nat)
    ensures
        width > 0 ==> cursor_place(text, width).0 < width,
        width == 0 ==> cursor_place(text, width).0 == 0,
        cursor_place(text, width).0 + cursor_place(text, width).1 <= text.len(),
        line_count(text, width) <= text.len() + 1,
    decreases text.len(),
{
    if text.len() > 0 {
        lemma_cursor_place_bounds(text.drop_last(), width);
    }
}

/// Finds the cursor behind `text` in an area of `width` columns and `height`
/// lines.
pub fn text_cursor(text: &str, width: u16, height: u16) -> (cursor: TextCursor)
    ensures
        cursor.column == cursor_place(text@, width as nat).0,
        cursor.row == cursor_place(text@, width as nat).1,
        cursor.scroll == scroll_offset(text@, width as nat, height as nat),
{
    let total: usize = text.unicode_len();
    let mut rest = text.chars();
    let mut column: usize = 0;
    let mut row: usize = 0;
    let ghost mut seen: Seq<char> = Seq::empty();
    loop
        invariant
            text@ == seen + rest.remaining(),
            total == text@.len(),
            column == cursor_place(seen, width as nat).0,
            row == cursor_place(seen, width as nat).1,
        decreases total - seen.len(),
    {
        proof {
            lemma_cursor_place_bounds(seen, width as nat);
        }
        match rest.next() {
            None => {
                assert(seen =~= text@);
                let lines: usize = if total == 0 {
                    1
                } else if column > 0 {
                    row + 1
                } else {
                    row
                };
                let scroll: usize = if lines > height as usize {
                    lines - height as usize
                } else {
                    0
                };
                return TextCursor { column, row, scroll };
            },
            Some(c) => {
                proof {
                    let grown = seen.push(c);
                    assert(grown.drop_last() =~= seen);
                    assert(grown + rest.remaining() =~= text@);
                    lemma_cursor_place_bounds(grown, width as nat);
                    seen = grown;
                }
                if c == '\n' || column + 1 >= width as usize {
                    column = 0;
                    row = row + 1;
                } else {
                    column = column + 1;
                }
            },
        }
    }
}

/// Line of the area on which the cursor is drawn: its line in the text less
/// the lines scrolled out, and the first line where more are scrolled out.
pub open spec fn shown_row(cursor: TextCursor) -> nat {
    if cursor.row >= cursor.scroll {
        (cursor.row - cursor.scroll) as nat
    } else {
        0
    }
}

impl TextCursor {
    /// Line of the area on which the cursor is drawn.
    pub fn shown_row(&self) -> (row: usize)
        ensures
            row == shown_row(*self),
    {
        if self.row >= self.scroll {
            self.row - self.scroll
        } else {
            0
        }
    }
}

/// Where a box of `inner` columns begins that is centred in `outer`
/// columns; at the edge where it does not fit.
pub open spec fn centered_origin(outer: nat, inner: nat) -> nat {
    if outer >= inner {
        (outer - inner) as nat / 2
    } else {
        0
    }
}

/// Centres a box of `inner` columns, or lines, in `outer`.
pub fn centered(outer: u16, inner: u16) -> (origin: u16)
    ensures
        origin == centered_origin(outer as nat, inner as nat),
{
    if outer >= inner {
        (outer - inner) / 2
    } else {
        0
    }
}

} // verus!
