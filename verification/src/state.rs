//! The edit buffer: the text being edited and the cursor in it.

use crate::lines::{count_breaks, line_start, run_len, LINE_BREAK};
use crate::lines::{lemma_count_step, lemma_count_whole, lemma_run_len_is};
use crate::model::{clamp_offset, lemma_at_line, lemma_cursor_on_its_line, Buffer};
use crate::text::{chars_of, string_of};
use vstd::prelude::*;

verus! {

/// A text and a cursor in it. The cursor is always an offset of the text,
/// counted in characters: 0 is before the first character, the length of the
/// text is behind the last.
#[derive(Debug, PartialEq, Eq)]
pub struct AppState {
    input: Vec<char>,
    cursor_position: usize,
}

impl View for AppState {
    type V = Buffer;

    closed spec fn view(&self) -> Buffer {
        Buffer { text: self.input@, cursor: self.cursor_position as nat }
    }
}

impl AppState {
    /// The cursor is an offset of the text. This holds of every buffer.
    #[verifier::type_invariant]
    pub open spec fn cursor_in_text(self) -> bool {
        self@.wf()
    }

    /// A buffer that holds `initial_text`, with the cursor at its start.
    pub fn with_text(initial_text: &str) -> (state: AppState)
        ensures
            state@ == (Buffer { text: initial_text@, cursor: 0 }),
            state@.wf(),
    {
        AppState { input: chars_of(initial_text), cursor_position: 0 }
    }

    /// The text as a string.
    pub fn text(&self) -> (text: String)
        ensures
            text@ == self@.text,
    {
        string_of(&self.input)
    }

    /// The number of characters in the text.
    pub fn len(&self) -> (len: usize)
        ensures
            len == self@.text.len(),
    {
        self.input.len()
    }

    /// The cursor's offset.
    pub fn cursor_position(&self) -> (offset: usize)
        ensures
            offset == self@.cursor,
            offset <= self@.text.len(),
    {
        proof {
            use_type_invariant(self);
        }
        self.cursor_position
    }

    /// Bounds `new_cursor_pos` into the offsets of the text.
    pub fn clamp_cursor(&self, new_cursor_pos: usize) -> (offset: usize)
        ensures
            offset == clamp_offset(new_cursor_pos as int, self@.text.len()),
            offset <= self@.text.len(),
            new_cursor_pos <= self@.text.len() ==> offset == new_cursor_pos,
    {
        if new_cursor_pos > self.input.len() {
            self.input.len()
        } else {
            new_cursor_pos
        }
    }

    /// The number of line breaks before offset `end`.
    fn breaks_before(&self, end: usize) -> (count: usize)
        requires
            end <= self@.text.len(),
        ensures
            count == count_breaks(self@.text.take(end as int)),
    {
        let mut count: usize = 0;
        let mut i: usize = 0;
        proof {
            lemma_count_whole(self.input@);
        }
        while i < end
            invariant
                i <= end <= self.input@.len(),
                count <= i,
                count == count_breaks(self.input@.take(i as int)),
            decreases end - i,
        {
            proof {
                lemma_count_step(self.input@, i as int);
            }
            if self.input[i] == LINE_BREAK {
                count += 1;
            }
            i += 1;
        }
        count
    }

    /// The offset at which line `row` starts.
    fn start_of_line(&self, row: usize) -> (start: usize)
        requires
            row <= count_breaks(self@.text),
        ensures
            start == line_start(self@.text, row as nat),
            start <= self@.text.len(),
    {
        let mut start: usize = 0;
        let mut seen: usize = 0;
        let mut i: usize = 0;
        proof {
            lemma_count_whole(self.input@);
        }
        while seen < row
            invariant
                start <= i <= self.input.len(),
                seen <= row <= count_breaks(self.input@),
                seen == count_breaks(self.input@.take(i as int)),
                start == line_start(self.input@, seen as nat),
                forall|j: int| start <= j < i ==> self.input@[j] != LINE_BREAK,
            decreases self.input.len() - i,
        {
            proof {
                lemma_count_whole(self.input@);
                lemma_count_step(self.input@, i as int);
            }
            if self.input[i] == LINE_BREAK {
                proof {
                    lemma_run_len_is(self.input@, start as int, i as int);
                }
                seen += 1;
                start = i + 1;
            }
            i += 1;
        }
        start
    }

    /// The number of characters from offset `start` to the end of its line.
    fn run_from(&self, start: usize) -> (len: usize)
        requires
            start <= self@.text.len(),
        ensures
            len == run_len(self@.text, start as int),
            start + len <= self@.text.len(),
    {
        let mut end: usize = start;
        while end < self.input.len() && self.input[end] != LINE_BREAK
            invariant
                start <= end <= self.input@.len(),
                forall|j: int| start <= j < end ==> self.input@[j] != LINE_BREAK,
            decreases self.input@.len() - end,
        {
            end += 1;
        }
        proof {
            lemma_run_len_is(self.input@, start as int, end as int);
        }
        end - start
    }

    /// The line and the column the cursor is on, both counted from 0.
    pub fn get_cursor_location(&self) -> (location: (usize, usize))
        ensures
            location.0 == self@.row(),
            location.1 == self@.col(),
    {
        proof {
            use_type_invariant(self);
            lemma_cursor_on_its_line(self@);
        }
        let row: usize = self.breaks_before(self.cursor_position);
        let start: usize = self.start_of_line(row);
        (row, self.cursor_position - start)
    }

    /// Moves the cursor one character to the left; at the start of the text
    /// it stays.
    pub fn move_cursor_left(&mut self)
        ensures
            final(self)@ == old(self)@.move_left(),
            final(self)@.wf(),
    {
        proof {
            use_type_invariant(&*self);
        }
        let cursor_moved_left: usize = self.cursor_position.saturating_sub(1);
        self.cursor_position = self.clamp_cursor(cursor_moved_left);
    }

    /// Moves the cursor one character to the right; at the end of the text
    /// it stays.
    pub fn move_cursor_right(&mut self)
        ensures
            final(self)@ == old(self)@.move_right(),
            final(self)@.wf(),
    {
        proof {
            use_type_invariant(&*self);
            assert(self.input@.len() == self.input.len());
        }
        let cursor_moved_right: usize = self.cursor_position.saturating_add(1);
        self.cursor_position = self.clamp_cursor(cursor_moved_right);
    }

    /// Moves the cursor onto the line above, to the same column or, where
    /// that line is shorter, to its end; on the first line it stays.
    pub fn move_cursor_up(&mut self)
        ensures
            final(self)@ == old(self)@.move_up(),
            final(self)@.wf(),
    {
        proof {
            use_type_invariant(&*self);
            lemma_cursor_on_its_line(self@);
        }
        let (row, col) = self.get_cursor_location();
        if row > 0 {
            proof {
                lemma_at_line(self@, (row - 1) as nat, col as nat);
            }
            let prev_line_start: usize = self.start_of_line(row - 1);
            let prev_line_len: usize = self.run_from(prev_line_start);
            let new_col: usize = if col <= prev_line_len {
                col
            } else {
                prev_line_len
            };
            self.cursor_position = prev_line_start + new_col;
        }
    }

    /// Moves the cursor onto the line below, to the same column or, where
    /// that line is shorter, to its end; on the last line it stays.
    pub fn move_cursor_down(&mut self)
        ensures
            final(self)@ == old(self)@.move_down(),
            final(self)@.wf(),
    {
        proof {
            use_type_invariant(&*self);
            lemma_cursor_on_its_line(self@);
            lemma_count_whole(self.input@);
        }
        let (row, col) = self.get_cursor_location();
        let last_row: usize = self.breaks_before(self.input.len());
        if row < last_row {
            proof {
                lemma_at_line(self@, (row + 1) as nat, col as nat);
            }
            let next_line_start: usize = self.start_of_line(row + 1);
            let next_line_len: usize = self.run_from(next_line_start);
            let new_col: usize = if col <= next_line_len {
                col
            } else {
                next_line_len
            };
            self.cursor_position = next_line_start + new_col;
        }
    }

    /// Takes the text out of the buffer and leaves an empty buffer behind, so
    /// that the cursor is an offset of the text at every step of a change.
    fn take_input(&mut self) -> (input: Vec<char>)
        ensures
            input@ == old(self)@.text,
            final(self)@ == (Buffer { text: Seq::empty(), cursor: 0 }),
    {
        let mut input: Vec<char> = Vec::new();
        self.cursor_position = 0;
        core::mem::swap(&mut self.input, &mut input);
        input
    }

    /// Puts `input` back as the text, with the cursor at `cursor_position`.
    fn put_input(&mut self, input: Vec<char>, cursor_position: usize)
        requires
            cursor_position <= input@.len(),
        ensures
            final(self)@ == (Buffer { text: input@, cursor: cursor_position as nat }),
    {
        *self = AppState { input, cursor_position };
    }

    /// Puts `new_char` into the text at the cursor and the cursor behind it.
    pub fn enter_char(&mut self, new_char: char)
        ensures
            final(self)@ == old(self)@.insert(new_char),
            final(self)@.wf(),
    {
        proof {
            use_type_invariant(&*self);
        }
        let at: usize = self.cursor_position;
        let mut input = self.take_input();
        input.insert(at, new_char);
        self.put_input(input, at);
        self.move_cursor_right();
    }

    /// Takes the character before the cursor out of the text and puts the
    /// cursor in its place; at the start of the text nothing changes.
    pub fn delete_char(&mut self)
        ensures
            final(self)@ == old(self)@.delete(),
            final(self)@.wf(),
            old(self)@.cursor == 0 ==> final(self)@ == old(self)@,
    {
        proof {
            use_type_invariant(&*self);
        }
        if self.cursor_position != 0 {
            self.move_cursor_left();
            let at: usize = self.cursor_position;
            let mut input = self.take_input();
            input.remove(at);
            self.put_input(input, at);
        }
    }
}

} // verus!
