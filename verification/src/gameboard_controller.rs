//! Gameboard controller.
//!
//! Positions and the board's edge length are whole numbers of one common
//! unit, which the caller chooses: only their ratios matter.

use crate::gameboard::Gameboard;
use vstd::prelude::*;

verus! {

/// What the player did.
#[derive(Clone, Copy, Debug, PartialEq, Eq, Structural)]
pub enum InputEvent {
    /// The pointer moved to the position (`x`, `y`).
    PointerMove { x: i64, y: i64 },
    /// The primary pointer button was pressed.
    PointerPress,
    /// A digit key was pressed. `0` is the key that clears a cell.
    Digit(u8),
}

/// Handles events for Sudoku game.
pub struct GameboardController {
    /// Stores the gameboard state.
    pub gameboard: Gameboard,
    /// Selected cell, as column and row.
    pub selected_cell: Option<[usize; 2]>,
    /// Stores last pointer position.
    pub cursor_pos: [i64; 2],
}

/// Whether a pointer at distance `offset` from the board's left or upper
/// edge is within the board along that axis.
pub open spec fn within(offset: int, size: int) -> bool {
    0 <= offset <= size
}

/// The column or row that lies at distance `offset` from the board's left
/// or upper edge, for a board of edge length `size`: nine equal strips,
/// counted from 0. The far edge itself gives 9.
pub open spec fn strip(offset: int, size: int) -> int {
    if size == 0 {
        0
    } else {
        offset * 9 / size
    }
}

/// The cell that a pointer at `cursor` points to on a board drawn at `pos`
/// with edge length `size`, as column and row, or `None` off the board.
pub open spec fn pointed_cell(cursor: [i64; 2], pos: [i64; 2], size: i64) -> Option<(int, int)> {
    let dx = cursor[0] - pos[0];
    let dy = cursor[1] - pos[1];
    if within(dx, size as int) && within(dy, size as int) {
        Some((strip(dx, size as int), strip(dy, size as int)))
    } else {
        None
    }
}

/// A pointer within the board lies in one of the strips 0 to 9.
pub proof fn lemma_strip_bounds(offset: int, size: int)
    requires
        within(offset, size),
    ensures
        0 <= strip(offset, size) <= 9,
        offset < size ==> strip(offset, size) < 9,
{
    if size != 0 {
        assert(0 <= offset * 9 / size <= 9) by (nonlinear_arith)
            requires
                0 <= offset <= size,
                size > 0,
        ;
        if offset < size {
            assert(offset * 9 / size < 9) by (nonlinear_arith)
                requires
                    0 <= offset < size,
            ;
        }
    }
}

/// The strip at distance `offset` along one axis of a board of edge length
/// `size`.
fn strip_of(offset: i128, size: i64) -> (index: usize)
    requires
        within(offset as int, size as int),
    ensures
        index == strip(offset as int, size as int),
{
    proof {
        lemma_strip_bounds(offset as int, size as int);
    }
    if size == 0 {
        0
    } else {
        let scaled: u128 = (offset as u128) * 9;
        (scaled / (size as u128)) as usize
    }
}

/// Finds the cell that a pointer at `cursor` points to on a board drawn at
/// `pos` with edge length `size`.
pub fn cell_at(cursor: [i64; 2], pos: [i64; 2], size: i64) -> (cell: Option<[usize; 2]>)
    ensures
        match pointed_cell(cursor, pos, size) {
            Some((col, row)) => cell matches Some(ind) && ind[0] == col && ind[1] == row,
            None => cell is None,
        },
{
    // Find coordinates relative to upper left corner.
    let x: i128 = cursor[0] as i128 - pos[0] as i128;
    let y: i128 = cursor[1] as i128 - pos[1] as i128;
    let edge: i128 = size as i128;
    // Check that coordinates are inside board boundaries.
    if x >= 0 && x <= edge && y >= 0 && y <= edge {
        // Compute the cell position.
        let cell_x = strip_of(x, size);
        let cell_y = strip_of(y, size);
        Some([cell_x, cell_y])
    } else {
        None
    }
}

impl GameboardController {
    /// Creates a new gameboard controller.
    pub fn new(gameboard: Gameboard) -> (controller: GameboardController)
        ensures
            controller.gameboard == gameboard,
            controller.selected_cell is None,
            controller.cursor_pos[0] == 0,
            controller.cursor_pos[1] == 0,
    {
        GameboardController { gameboard: gameboard, selected_cell: None, cursor_pos: [0; 2] }
    }

    /// Whether `next` is this controller after the event `e`, on a board
    /// drawn at `pos` with edge length `size`.
    ///
    /// A move of the pointer is remembered and changes nothing else. A press
    /// on the board selects the cell under the last pointer position; a
    /// press elsewhere leaves the selection as it is. A digit is entered into
    /// the selected cell, if there is one and it lies on the board.
    pub open spec fn handled(
        &self,
        next: GameboardController,
        pos: [i64; 2],
        size: i64,
        e: InputEvent,
    ) -> bool {
        match e {
            InputEvent::PointerMove { x, y } => {
                &&& next.cursor_pos[0] == x
                &&& next.cursor_pos[1] == y
                &&& next.selected_cell == self.selected_cell
                &&& next.gameboard == self.gameboard
            },
            InputEvent::PointerPress => {
                &&& next.cursor_pos == self.cursor_pos
                &&& next.gameboard == self.gameboard
                &&& match pointed_cell(self.cursor_pos, pos, size) {
                    Some((col, row)) => next.selected_cell matches Some(ind) && ind[0] == col
                        && ind[1] == row,
                    None => next.selected_cell == self.selected_cell,
                }
            },
            InputEvent::Digit(d) => {
                &&& next.cursor_pos == self.cursor_pos
                &&& next.selected_cell == self.selected_cell
                &&& match self.selected_cell {
                    Some(ind) if ind[0] < 9 && ind[1] < 9 => self.gameboard.edited(
                        next.gameboard,
                        ind[0] as int,
                        ind[1] as int,
                        d,
                    ),
                    _ => next.gameboard == self.gameboard,
                }
            },
        }
    }

    /// Handles events.
    pub fn event(&mut self, pos: [i64; 2], size: i64, e: &InputEvent)
        requires
            *e matches InputEvent::Digit(d) ==> d <= 9,
        ensures
            old(self).handled(*final(self), pos, size, *e),
            // A press off the board leaves the selection as it was.
            *e is PointerPress && pointed_cell(old(self).cursor_pos, pos, size) is None
                ==> final(self).selected_cell == old(self).selected_cell,
            // Only a press changes the selection, only a move the pointer
            // position, and only a digit the board.
            !(*e is PointerPress) ==> final(self).selected_cell == old(self).selected_cell,
            !(*e is PointerMove) ==> final(self).cursor_pos == old(self).cursor_pos,
            !(*e is Digit) ==> final(self).gameboard == old(self).gameboard,
            old(self).gameboard.wf() ==> final(self).gameboard.wf(),
    {
        match *e {
            InputEvent::PointerMove { x, y } => {
                self.cursor_pos = [x, y];
            },
            InputEvent::PointerPress => {
                if let Some(ind) = cell_at(self.cursor_pos, pos, size) {
                    self.selected_cell = Some(ind);
                }
            },
            InputEvent::Digit(d) => {
                if let Some(ind) = self.selected_cell {
                    if ind[0] < 9 && ind[1] < 9 {
                        self.gameboard.set(ind, d);
                    }
                }
            },
        }
    }
}

} // verus!
