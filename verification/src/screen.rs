//! Where the cursor goes on the screen.

use vstd::prelude::*;

verus! {

/// The width of the frame drawn round the text, in cells.
pub const BORDER: u16 = 1;

/// The screen cell of a cursor at line `row`, column `col`, of a text drawn
/// inside a frame whose top left corner is the cell `(origin_x, origin_y)`;
/// none where that cell is beyond what a screen can address.
pub open spec fn cursor_cell(origin_x: u16, origin_y: u16, row: nat, col: nat) -> Option<
    (u16, u16),
> {
    let x = origin_x + col + BORDER;
    let y = origin_y + row + BORDER;
    if x <= u16::MAX && y <= u16::MAX {
        Some((x as u16, y as u16))
    } else {
        None
    }
}

/// The screen cell at which to show the cursor, as `(x, y)`.
pub fn frame_cursor(origin_x: u16, origin_y: u16, row: usize, col: usize) -> (cell: Option<
    (u16, u16),
>)
    ensures
        cell == cursor_cell(origin_x, origin_y, row as nat, col as nat),
{
    let room_x: u16 = u16::MAX - origin_x;
    let room_y: u16 = u16::MAX - origin_y;
    if col < room_x as usize && row < room_y as usize {
        Some((origin_x + col as u16 + BORDER, origin_y + row as u16 + BORDER))
    } else {
        None
    }
}

} // verus!
