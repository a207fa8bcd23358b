//! The mathematical model of the edit buffer: a text and a cursor offset,
//! and what each editing operation makes of them.

use crate::lines::{break_free, count_breaks, line_len, line_start, LINE_BREAK};
use crate::lines::{
    lemma_count_after_insert, lemma_count_step, lemma_count_whole, lemma_line_of_offset,
    lemma_line_start_counts, lemma_line_start_is, lemma_line_start_monotone,
    lemma_offset_in_line, lemma_run_len_is,
};
use vstd::prelude::*;

verus! {

/// Bounds `offset` into `[0, len]`.
pub open spec fn clamp_offset(offset: int, len: nat) -> nat {
    if offset < 0 {
        0
    } else if offset > len {
        len
    } else {
        offset as nat
    }
}

/// A text with a cursor. The cursor is an offset between two characters, at
/// the start or at the end of the text, counted in characters.
pub struct Buffer {
    pub text: Seq<char>,
    pub cursor: nat,
}

impl Buffer {
    /// The cursor lies inside the text or at its end.
    pub open spec fn wf(self) -> bool {
        self.cursor <= self.text.len()
    }

    /// The line the cursor is on: the number of line breaks before it.
    pub open spec fn row(self) -> nat {
        count_breaks(self.text.take(self.cursor as int))
    }

    /// The cursor's distance from the start of its line.
    pub open spec fn col(self) -> nat {
        (self.cursor - line_start(self.text, self.row())) as nat
    }

    /// The number of the last line.
    pub open spec fn last_row(self) -> nat {
        count_breaks(self.text)
    }

    /// The same text with the cursor on line `row`, at column `col` or, where
    /// the line is shorter than that, at the line's end.
    pub open spec fn at_line(self, row: nat, col: nat) -> Buffer {
        let reach = if col <= line_len(self.text, row) {
            col
        } else {
            line_len(self.text, row)
        };
        Buffer { text: self.text, cursor: (line_start(self.text, row) + reach) as nat }
    }

    /// One character to the left, unless the cursor is at the start.
    pub open spec fn move_left(self) -> Buffer {
        Buffer { text: self.text, cursor: clamp_offset(self.cursor - 1, self.text.len()) }
    }

    /// One character to the right, unless the cursor is at the end.
    pub open spec fn move_right(self) -> Buffer {
        Buffer { text: self.text, cursor: clamp_offset(self.cursor as int + 1, self.text.len()) }
    }

    /// Onto the line above, keeping the column where that line is long
    /// enough; nothing changes on the first line.
    pub open spec fn move_up(self) -> Buffer {
        if self.row() == 0 {
            self
        } else {
            self.at_line((self.row() - 1) as nat, self.col())
        }
    }

    /// Onto the line below, keeping the column where that line is long
    /// enough; nothing changes on the last line.
    pub open spec fn move_down(self) -> Buffer {
        if self.row() >= self.last_row() {
            self
        } else {
            self.at_line(self.row() + 1, self.col())
        }
    }

    /// `c` spliced in at the cursor, and the cursor behind it.
    pub open spec fn insert(self, c: char) -> Buffer {
        Buffer { text: self.text.insert(self.cursor as int, c), cursor: self.cursor + 1 }
    }

    /// The character before the cursor removed, and the cursor in its place;
    /// nothing changes at the start of the text.
    pub open spec fn delete(self) -> Buffer {
        if self.cursor == 0 {
            self
        } else {
            Buffer { text: self.text.remove(self.cursor - 1), cursor: (self.cursor - 1) as nat }
        }
    }
}

/// Clamping yields an offset of the text, and leaves an offset of the text
/// as it is.
pub proof fn lemma_clamp_in_bounds(offset: int, len: nat)
    ensures
        0 <= clamp_offset(offset, len) <= len,
        0 <= offset <= len ==> clamp_offset(offset, len) == offset,
{
}

/// The cursor is on a line of the text, between that line's start and end.
pub proof fn lemma_cursor_on_its_line(b: Buffer)
    requires
        b.wf(),
    ensures
        b.row() <= b.last_row(),
        b.cursor == line_start(b.text, b.row()) + b.col(),
        b.col() <= line_len(b.text, b.row()),
        break_free(b.text, b.cursor - b.col(), b.cursor as int),
        b.row() > 0 ==> b.text[b.cursor - b.col() - 1] == LINE_BREAK,
        b.row() == 0 ==> b.col() == b.cursor,
{
    lemma_line_of_offset(b.text, b.cursor as int);
    lemma_line_start_counts(b.text, b.row());
}

/// The line and the column of the cursor are read off the text before it:
/// the line is the last line of that text, the column is that line's length.
/// What follows the cursor has no part in them.
pub proof fn lemma_location_from_prefix(b: Buffer)
    requires
        b.wf(),
    ensures
        ({
            let before = b.text.take(b.cursor as int);
            &&& b.row() == count_breaks(before)
            &&& b.col() == line_len(before, count_breaks(before))
            &&& (Buffer { text: before, cursor: b.cursor }).row() == b.row()
            &&& (Buffer { text: before, cursor: b.cursor }).col() == b.col()
        }),
{
    let before = b.text.take(b.cursor as int);
    assert(before.take(b.cursor as int) =~= before);
    let start = line_start(b.text, b.row());
    lemma_cursor_on_its_line(b);
    lemma_line_start_counts(b.text, b.row());
    assert(before.take(start) =~= b.text.take(start));
    lemma_line_start_is(before, b.row(), start);
    lemma_run_len_is(before, start, b.cursor as int);
}

/// At offset 0 the cursor is on line 0, column 0, whatever the text.
pub proof fn lemma_origin(b: Buffer)
    requires
        b.cursor == 0,
    ensures
        b.row() == 0,
        b.col() == 0,
{
    lemma_count_whole(b.text);
}

/// Placing the cursor on an existing line puts it on that line, at the
/// column asked for or at the line's end.
pub proof fn lemma_at_line(b: Buffer, row: nat, col: nat)
    requires
        row <= b.last_row(),
    ensures
        b.at_line(row, col).wf(),
        b.at_line(row, col).row() == row,
        b.at_line(row, col).col() == if col <= line_len(b.text, row) {
            col
        } else {
            line_len(b.text, row)
        },
{
    let reach = if col <= line_len(b.text, row) {
        col
    } else {
        line_len(b.text, row)
    };
    lemma_offset_in_line(b.text, row, reach);
}

/// Every operation leaves the cursor inside the text or at its end, and the
/// moves leave the text as it is.
pub proof fn lemma_operations_keep_wf(b: Buffer, c: char)
    requires
        b.wf(),
    ensures
        b.move_left().wf(),
        b.move_right().wf(),
        b.move_up().wf(),
        b.move_down().wf(),
        b.insert(c).wf(),
        b.delete().wf(),
        b.move_left().text == b.text,
        b.move_right().text == b.text,
        b.move_up().text == b.text,
        b.move_down().text == b.text,
{
    lemma_cursor_on_its_line(b);
    if b.row() > 0 {
        lemma_at_line(b, (b.row() - 1) as nat, b.col());
    }
    if b.row() < b.last_row() {
        lemma_at_line(b, b.row() + 1, b.col());
    }
}

/// Left and then right comes back to where it started, from every offset but
/// the start of the text.
pub proof fn lemma_left_then_right(b: Buffer)
    requires
        b.wf(),
        b.cursor > 0,
    ensures
        b.move_left().move_right() == b,
{
}

/// Right and then left comes back to where it started, from every offset but
/// the end of the text.
pub proof fn lemma_right_then_left(b: Buffer)
    requires
        b.wf(),
        b.cursor < b.text.len(),
    ensures
        b.move_right().move_left() == b,
{
}

/// At the ends of the text the move outward changes nothing.
pub proof fn lemma_moves_at_the_ends(b: Buffer)
    requires
        b.wf(),
    ensures
        b.cursor == 0 ==> b.move_left() == b,
        b.cursor == b.text.len() ==> b.move_right() == b,
        b.cursor > 0 ==> b.move_left().cursor == b.cursor - 1,
        b.cursor < b.text.len() ==> b.move_right().cursor == b.cursor + 1,
{
}

/// Moving up from any line but the first lands one line higher, in the same
/// column or at the end of a shorter line.
pub proof fn lemma_move_up_lands(b: Buffer)
    requires
        b.wf(),
        b.row() > 0,
    ensures
        b.move_up().row() == b.row() - 1,
        b.move_up().col() == if b.col() <= line_len(b.text, (b.row() - 1) as nat) {
            b.col()
        } else {
            line_len(b.text, (b.row() - 1) as nat)
        },
        b.move_up().cursor < b.cursor,
{
    lemma_cursor_on_its_line(b);
    lemma_at_line(b, (b.row() - 1) as nat, b.col());
    lemma_line_start_monotone(b.text, (b.row() - 1) as nat, b.row());
}

/// Moving down from any line but the last lands one line lower, in the same
/// column or at the end of a shorter line.
pub proof fn lemma_move_down_lands(b: Buffer)
    requires
        b.wf(),
        b.row() < b.last_row(),
    ensures
        b.move_down().row() == b.row() + 1,
        b.move_down().col() == if b.col() <= line_len(b.text, b.row() + 1) {
            b.col()
        } else {
            line_len(b.text, b.row() + 1)
        },
        b.move_down().cursor > b.cursor,
{
    lemma_cursor_on_its_line(b);
    lemma_at_line(b, b.row() + 1, b.col());
    lemma_line_start_monotone(b.text, b.row(), b.row() + 1);
}

/// On the first line moving up changes nothing, and on the last line moving
/// down changes nothing.
pub proof fn lemma_vertical_moves_at_the_edges(b: Buffer)
    requires
        b.wf(),
    ensures
        b.row() == 0 ==> b.move_up() == b,
        b.row() == b.last_row() ==> b.move_down() == b,
{
}

/// Deleting at the start of the text changes neither the text nor the
/// cursor.
pub proof fn lemma_delete_at_start(b: Buffer)
    requires
        b.cursor == 0,
    ensures
        b.delete() == b,
{
}

/// Inserting makes the text one character longer, and deleting after it
/// gives back the buffer as it was.
pub proof fn lemma_insert_then_delete(b: Buffer, c: char)
    requires
        b.wf(),
    ensures
        b.insert(c).text.len() == b.text.len() + 1,
        b.insert(c).text[b.cursor as int] == c,
        b.insert(c).delete() == b,
{
    assert(b.text.insert(b.cursor as int, c).remove(b.cursor as int) =~= b.text);
}

/// Deleting behind the start makes the text one character shorter and takes
/// out the character before the cursor, and no other.
pub proof fn lemma_delete_removes_one(b: Buffer)
    requires
        b.wf(),
        b.cursor > 0,
    ensures
        b.delete().text.len() == b.text.len() - 1,
        b.delete().cursor == b.cursor - 1,
        b.delete().text.take(b.cursor - 1) == b.text.take(b.cursor - 1),
        b.delete().text.skip(b.cursor - 1) == b.text.skip(b.cursor as int),
        b.delete().insert(b.text[b.cursor - 1]) == b,
{
    let d = b.delete();
    assert(d.text.take(b.cursor - 1) =~= b.text.take(b.cursor - 1));
    assert(d.text.skip(b.cursor - 1) =~= b.text.skip(b.cursor as int));
    assert(d.text.insert(d.cursor as int, b.text[b.cursor - 1]) =~= b.text);
}

/// A line break typed anywhere puts the cursor at the start of the next
/// line.
pub proof fn lemma_insert_break_opens_line(b: Buffer)
    requires
        b.wf(),
    ensures
        b.insert(LINE_BREAK).row() == b.row() + 1,
        b.insert(LINE_BREAK).col() == 0,
        b.insert(LINE_BREAK).last_row() == b.last_row() + 1,
{
    let a = b.insert(LINE_BREAK);
    let at = b.cursor as int;
    assert(a.text.take(at) =~= b.text.take(at));
    lemma_count_step(a.text, at);
    lemma_cursor_on_its_line(a);
    lemma_count_after_insert(b.text, at, LINE_BREAK);
}

/// Any other character typed anywhere leaves the cursor on its line, one
/// column further.
pub proof fn lemma_insert_char_advances(b: Buffer, c: char)
    requires
        b.wf(),
        c != LINE_BREAK,
    ensures
        b.insert(c).row() == b.row(),
        b.insert(c).col() == b.col() + 1,
        b.insert(c).last_row() == b.last_row(),
{
    let a = b.insert(c);
    let at = b.cursor as int;
    let start = line_start(b.text, b.row());
    lemma_cursor_on_its_line(b);
    lemma_line_start_counts(b.text, b.row());
    assert(a.text.take(at) =~= b.text.take(at));
    assert(a.text.take(start) =~= b.text.take(start));
    lemma_count_step(a.text, at);
    lemma_line_start_is(a.text, b.row(), start);
    lemma_count_after_insert(b.text, at, c);
}

/// Deleting a line break joins the cursor's line to the one above: the
/// cursor lands at what was the end of that line.
pub proof fn lemma_delete_break_joins_lines(b: Buffer)
    requires
        b.wf(),
        b.cursor > 0,
        b.text[b.cursor - 1] == LINE_BREAK,
    ensures
        b.col() == 0,
        b.delete().row() == b.row() - 1,
        b.delete().col() == line_len(b.text, (b.row() - 1) as nat),
        b.delete().last_row() == b.last_row() - 1,
{
    let d = b.delete();
    let at = b.cursor - 1;
    lemma_count_step(b.text, at);
    lemma_cursor_on_its_line(b);
    let above = (b.row() - 1) as nat;
    let start = line_start(b.text, above);
    lemma_line_start_counts(b.text, b.row());
    lemma_line_start_counts(b.text, above);
    lemma_line_start_monotone(b.text, above, b.row());
    assert(d.text.take(at) =~= b.text.take(at));
    assert(d.text.take(start) =~= b.text.take(start));
    lemma_line_start_is(d.text, above, start);
    assert(d.text.insert(at, LINE_BREAK) =~= b.text);
    lemma_count_after_insert(d.text, at, LINE_BREAK);
}

/// Deleting any other character leaves the cursor on its line, one column
/// back.
pub proof fn lemma_delete_char_retreats(b: Buffer)
    requires
        b.wf(),
        b.cursor > 0,
        b.text[b.cursor - 1] != LINE_BREAK,
    ensures
        b.delete().row() == b.row(),
        b.delete().col() == b.col() - 1,
        b.delete().last_row() == b.last_row(),
{
    let d = b.delete();
    let at = b.cursor - 1;
    lemma_delete_removes_one(b);
    lemma_insert_char_advances(d, b.text[at]);
}

} // verus!
