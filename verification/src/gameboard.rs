//! Game board logic.
//!
//! The board is a grid of 9 by 9 cells. A cell is addressed by its column
//! and its row, both counted from 0, in that order.

use crate::sdm;
use crate::sdm::ParseError;
use vstd::prelude::*;

verus! {

/// Stores information for a single `Gameboard` cell.
#[derive(Clone, Copy, Debug, PartialEq, Eq, Structural)]
pub struct Cell {
    /// The digit shown in the cell. `0` is an empty cell.
    pub value: u8,
    /// Whether the digit is a clue of the puzzle, which the player cannot change.
    pub loaded: bool,
    /// Whether the digit clashed with another cell when it was entered.
    pub invalid: bool,
}

impl Cell {
    /// The empty, editable cell.
    pub open spec fn empty() -> Cell {
        Cell { value: 0, loaded: false, invalid: false }
    }

    /// Whether the cell is filled and not marked invalid.
    pub open spec fn is_solved(&self) -> bool {
        self.value != 0 && !self.invalid
    }

    /// Whether the cell holds a digit from 0 to 9 and its flags agree with
    /// it: a clue is filled, and only a filled cell that is no clue can be
    /// invalid.
    pub open spec fn wf(&self) -> bool {
        &&& self.value <= 9
        &&& self.loaded ==> self.value != 0
        &&& self.invalid ==> self.value != 0 && !self.loaded
    }

    /// The cell that a puzzle holds for `value`: a clue unless `value` is `0`.
    pub open spec fn given(value: u8) -> Cell {
        Cell { value, loaded: value != 0, invalid: false }
    }
}

impl Default for Cell {
    fn default() -> (cell: Cell)
        ensures
            cell == Cell::empty(),
    {
        Cell { value: 0, loaded: false, invalid: false }
    }
}

/// Stores game board information.
#[derive(Debug, PartialEq, Eq)]
pub struct Gameboard {
    /// Stores the content of the cells, row by row.
    pub cells: [[Cell; 9]; 9],
    /// Whether or not the puzzle is completed: every cell is filled and
    /// none is invalid.
    pub completed: bool,
}

impl Gameboard {
    /// The cell in column `col` of row `row`.
    pub open spec fn cell(&self, col: int, row: int) -> Cell {
        self.cells[row][col]
    }

    /// Whether `val` stands in row `row` in a column other than `col`.
    pub open spec fn in_row(&self, col: int, row: int, val: u8) -> bool {
        exists|c: int| 0 <= c < 9 && c != col && (#[trigger] self.cell(c, row)).value == val
    }

    /// Whether `val` stands in column `col` in a row other than `row`.
    pub open spec fn in_column(&self, col: int, row: int, val: u8) -> bool {
        exists|r: int| 0 <= r < 9 && r != row && (#[trigger] self.cell(col, r)).value == val
    }

    /// Whether `val` stands in the 3x3 box around (`col`, `row`), in another
    /// cell than (`col`, `row`) itself.
    pub open spec fn in_box(&self, col: int, row: int, val: u8) -> bool {
        exists|c: int, r: int|
            0 <= c < 9 && 0 <= r < 9 && c / 3 == col / 3 && r / 3 == row / 3 && (c != col || r
                != row) && (#[trigger] self.cell(c, r)).value == val
    }

    /// Whether entering `val` at (`col`, `row`) clashes with the digits that
    /// the other cells hold now.
    pub open spec fn conflicts(&self, col: int, row: int, val: u8) -> bool {
        self.in_row(col, row, val) || self.in_column(col, row, val) || self.in_box(col, row, val)
    }

    /// Whether every cell is filled and none is marked invalid.
    pub open spec fn is_complete(&self) -> bool {
        forall|col: int, row: int|
            0 <= col < 9 && 0 <= row < 9 ==> (#[trigger] self.cell(col, row)).is_solved()
    }

    /// What every board built and edited through this module satisfies:
    /// digits are at most 9, clues are filled and never invalid, an empty
    /// cell is never invalid, and `completed` says whether the board is
    /// complete.
    pub open spec fn wf(&self) -> bool {
        &&& forall|col: int, row: int|
            0 <= col < 9 && 0 <= row < 9 ==> (#[trigger] self.cell(col, row)).wf()
        &&& self.completed == self.is_complete()
    }

    /// The cell that stands at (`col`, `row`) after the player entered `val`
    /// there: a clue stays, any other cell takes `val` and is invalid where
    /// `val` is a digit that clashes.
    pub open spec fn entered(&self, col: int, row: int, val: u8) -> Cell {
        if self.cell(col, row).loaded {
            self.cell(col, row)
        } else {
            Cell { value: val, loaded: false, invalid: val != 0 && self.conflicts(col, row, val) }
        }
    }

    /// Whether `next` is this board after the player entered `val` at
    /// (`col`, `row`): that cell is the entered one, the others are as they
    /// were, and `completed` says whether `next` is complete.
    pub open spec fn edited(&self, next: Gameboard, col: int, row: int, val: u8) -> bool {
        &&& next.cell(col, row) == self.entered(col, row, val)
        &&& forall|c: int, r: int|
            #![trigger next.cell(c, r)]
            #![trigger self.cell(c, r)]
            0 <= c < 9 && 0 <= r < 9 && (c != col || r != row) ==> next.cell(c, r) == self.cell(
                c,
                r,
            )
        &&& next.completed == next.is_complete()
    }

    /// Whether the board holds the puzzle `digits`, row by row: a clue for
    /// each digit but `0`, an empty cell for `0`, and `completed` saying
    /// whether that leaves the board complete.
    pub open spec fn holds(&self, digits: Seq<u8>) -> bool {
        &&& forall|col: int, row: int|
            0 <= col < 9 && 0 <= row < 9 ==> #[trigger] self.cell(col, row) == Cell::given(
                digits[9 * row + col],
            )
        &&& self.completed == self.is_complete()
    }

    /// The character that shows the cell at (`col`, `row`): its digit, or
    /// nothing for an empty cell.
    pub open spec fn glyph(&self, col: int, row: int) -> Option<char> {
        let value = self.cell(col, row).value;
        if 1 <= value <= 9 {
            Some(digit_char(value))
        } else {
            None
        }
    }

    /// Creates a new game board.
    pub fn new() -> (board: Gameboard)
        ensures
            forall|col: int, row: int|
                0 <= col < 9 && 0 <= row < 9 ==> #[trigger] board.cell(col, row) == Cell::empty(),
            !board.completed,
            board.completed == board.is_complete(),
            board.wf(),
    {
        let board = Gameboard {
            cells: [[Cell { value: 0, loaded: false, invalid: false }; 9]; 9],
            completed: false,
        };
        assert(!board.cell(0, 0).is_solved());
        board
    }

    /// Load a new game board from the SDM text `data`.
    ///
    /// The text must hold exactly 81 digits, with nothing but blanks between
    /// them. Every digit but `0` becomes a clue, and the board is completed
    /// if that fills it.
    pub fn load_sdm(data: &str) -> (result: Result<Gameboard, ParseError>)
        ensures
            match result {
                Ok(board) => {
                    &&& sdm::error_of(data@) is None
                    &&& board.holds(sdm::digits(data@))
                    &&& board.completed == board.is_complete()
                    &&& board.wf()
                },
                Err(e) => sdm::error_of(data@) == Some(e),
            },
    {
        match sdm::parse(data) {
            Ok(grid) => Ok(Gameboard::from_cells(grid)),
            Err(e) => Err(e),
        }
    }

    /// Gets the character at cell location.
    pub fn char(&self, ind: [usize; 2]) -> (glyph: Option<char>)
        requires
            ind[0] < 9,
            ind[1] < 9,
        ensures
            glyph == self.glyph(ind[0] as int, ind[1] as int),
    {
        Some(
            match self.cells[ind[1]][ind[0]].value {
                1 => '1',
                2 => '2',
                3 => '3',
                4 => '4',
                5 => '5',
                6 => '6',
                7 => '7',
                8 => '8',
                9 => '9',
                _ => return None,
            },
        )
    }

    /// Set cell value.
    ///
    /// A clue is left as it is. Any other cell takes `val`, also where it
    /// clashes: the cell is then marked invalid. `completed` is computed anew.
    pub fn set(&mut self, ind: [usize; 2], val: u8)
        requires
            ind[0] < 9,
            ind[1] < 9,
            val <= 9,
        ensures
            old(self).edited(*final(self), ind[0] as int, ind[1] as int, val),
            // A clue stays, and with it the whole grid.
            old(self).cell(ind[0] as int, ind[1] as int).loaded
                ==> final(self).cells == old(self).cells,
            // Any other cell takes the value, whether it clashes or not.
            !old(self).cell(ind[0] as int, ind[1] as int).loaded ==> final(self).cell(
                ind[0] as int,
                ind[1] as int,
            ).value == val,
            // A digit is invalid exactly where it clashes with the board as it was.
            !old(self).cell(ind[0] as int, ind[1] as int).loaded && val != 0 ==> (final(self).cell(
                ind[0] as int,
                ind[1] as int,
            ).invalid <==> old(self).conflicts(ind[0] as int, ind[1] as int, val)),
            // Clearing a cell is always valid.
            !old(self).cell(ind[0] as int, ind[1] as int).loaded && val == 0 ==> !final(self).cell(
                ind[0] as int,
                ind[1] as int,
            ).invalid,
            // `completed` is computed anew: it is false after an edit that
            // clashes, and while any cell is empty.
            final(self).completed == final(self).is_complete(),
            final(self).cell(ind[0] as int, ind[1] as int).invalid ==> !final(self).completed,
            forall|col: int, row: int|
                0 <= col < 9 && 0 <= row < 9 && (#[trigger] final(self).cell(col, row)).value == 0
                    ==> !final(self).completed,
            old(self).wf() ==> final(self).wf(),
    {
        if !self.cells[ind[1]][ind[0]].loaded {
            self.validate(ind, val);
            let ghost checked = *self;
            self.cells[ind[1]][ind[0]].value = val;
            assert(forall|col: int, row: int|
                #![trigger self.cell(col, row)]
                0 <= col < 9 && 0 <= row < 9 && (col != ind[0] || row != ind[1]) ==> self.cell(
                    col,
                    row,
                ) == checked.cell(col, row));
        }
        // check for puzzle completion
        let complete = self.all_filled_and_valid();
        let ghost scanned = *self;
        self.completed = complete;
        assert(forall|col: int, row: int|
            #![trigger self.cell(col, row)]
            #![trigger scanned.cell(col, row)]
            self.cell(col, row) == scanned.cell(col, row));
    }

    /// Scans the 81 cells for an empty or an invalid one.
    fn all_filled_and_valid(&self) -> (complete: bool)
        ensures
            complete == self.is_complete(),
    {
        for row in 0..9usize
            invariant
                forall|c: int, r: int|
                    0 <= c < 9 && 0 <= r < row ==> (#[trigger] self.cell(c, r)).is_solved(),
        {
            for col in 0..9usize
                invariant
                    row < 9,
                    forall|c: int, r: int|
                        0 <= c < 9 && 0 <= r < row ==> (#[trigger] self.cell(c, r)).is_solved(),
                    forall|c: int| 0 <= c < col ==> (#[trigger] self.cell(c, row as int)).is_solved(),
            {
                let cell = self.cells[row][col];
                if cell.invalid || cell.value == 0 {
                    assert(self.cell(col as int, row as int) == cell);
                    return false;
                }
            }
        }
        true
    }

    /// Validate the `val` to be put into `ind`: marks the cell invalid where
    /// the digit clashes with another cell of its row, column or box, and
    /// valid where it does not or where `val` clears the cell.
    fn validate(&mut self, ind: [usize; 2], val: u8)
        requires
            ind[0] < 9,
            ind[1] < 9,
        ensures
            final(self).cell(ind[0] as int, ind[1] as int) == (Cell {
                invalid: val != 0 && old(self).conflicts(ind[0] as int, ind[1] as int, val),
                ..old(self).cell(ind[0] as int, ind[1] as int)
            }),
            forall|col: int, row: int|
                #![trigger final(self).cell(col, row)]
                #![trigger old(self).cell(col, row)]
                0 <= col < 9 && 0 <= row < 9 && (col != ind[0] || row != ind[1])
                    ==> final(self).cell(col, row) == old(self).cell(col, row),
            final(self).completed == old(self).completed,
    {
        let col = ind[0];
        let row = ind[1];
        if val == 0 {
            self.cells[row][col].invalid = false;
            return;
        }
        // check row
        for c in 0..9usize
            invariant
                col == ind[0] < 9,
                row == ind[1] < 9,
                val != 0,
                *self == *old(self),
                forall|k: int|
                    0 <= k < c && k != col ==> (#[trigger] self.cell(k, row as int)).value != val,
        {
            if c != col && self.cells[row][c].value == val {
                assert(self.cell(c as int, row as int).value == val);
                self.cells[row][col].invalid = true;
                return;
            }
        }
        // check col
        for r in 0..9usize
            invariant
                col == ind[0] < 9,
                row == ind[1] < 9,
                val != 0,
                *self == *old(self),
                !self.in_row(col as int, row as int, val),
                forall|k: int|
                    0 <= k < r && k != row ==> (#[trigger] self.cell(col as int, k)).value != val,
        {
            if r != row && self.cells[r][col].value == val {
                assert(self.cell(col as int, r as int).value == val);
                self.cells[row][col].invalid = true;
                return;
            }
        }
        // check box
        let top = 3 * (row / 3);
        let left = 3 * (col / 3);
        for r in top..(top + 3)
            invariant
                col == ind[0] < 9,
                row == ind[1] < 9,
                val != 0,
                top == 3 * (row / 3),
                left == 3 * (col / 3),
                *self == *old(self),
                !self.in_row(col as int, row as int, val),
                !self.in_column(col as int, row as int, val),
                forall|k: int, l: int|
                    left <= k < left + 3 && top <= l < r && (k != col || l != row) ==> (
                    #[trigger] self.cell(k, l)).value != val,
        {
            for c in left..(left + 3)
                invariant
                    col == ind[0] < 9,
                    row == ind[1] < 9,
                    val != 0,
                    top == 3 * (row / 3),
                    left == 3 * (col / 3),
                    top <= r < top + 3,
                    *self == *old(self),
                    !self.in_row(col as int, row as int, val),
                    !self.in_column(col as int, row as int, val),
                    forall|k: int, l: int|
                        left <= k < left + 3 && top <= l < r && (k != col || l != row) ==> (
                        #[trigger] self.cell(k, l)).value != val,
                    forall|k: int|
                        left <= k < c && (k != col || r != row) ==> (#[trigger] self.cell(
                            k,
                            r as int,
                        )).value != val,
            {
                if !(r == row && c == col) && self.cells[r][c].value == val {
                    assert(self.cell(c as int, r as int).value == val);
                    self.cells[row][col].invalid = true;
                    return;
                }
            }
        }
        self.cells[row][col].invalid = false;
    }

    /// Build a `Gameboard` from an array of cell values, `cells[row][col]`
    /// being the digit at (`col`, `row`). Every digit but `0` is a clue, and
    /// the board is completed if the digits fill it.
    pub fn from_cells(cells: [[u8; 9]; 9]) -> (board: Gameboard)
        ensures
            forall|col: int, row: int|
                0 <= col < 9 && 0 <= row < 9 ==> #[trigger] board.cell(col, row) == Cell::given(
                    cells[row][col],
                ),
            board.completed == board.is_complete(),
            (forall|col: int, row: int|
                0 <= col < 9 && 0 <= row < 9 ==> #[trigger] cells[row][col] <= 9) ==> board.wf(),
    {
        let mut ret = Gameboard::new();
        for i in 0..9usize
            invariant
                !ret.completed,
                forall|c: int, r: int|
                    0 <= c < 9 && 0 <= r < i ==> #[trigger] ret.cell(c, r) == Cell::given(
                        cells[r][c],
                    ),
        {
            for j in 0..9usize
                invariant
                    i < 9,
                    !ret.completed,
                    forall|c: int, r: int|
                        0 <= c < 9 && 0 <= r < i ==> #[trigger] ret.cell(c, r) == Cell::given(
                            cells[r][c],
                        ),
                    forall|c: int|
                        0 <= c < j ==> #[trigger] ret.cell(c, i as int) == Cell::given(
                            cells[i as int][c],
                        ),
            {
                let value = cells[i][j];
                let ghost before = ret;
                ret.cells[i][j] = Cell { value, loaded: value != 0, invalid: false };
                assert(forall|c: int, r: int|
                    #![trigger ret.cell(c, r)]
                    0 <= c < 9 && 0 <= r < 9 && (c != j || r != i) ==> ret.cell(c, r)
                        == before.cell(c, r));
            }
        }
        let complete = ret.all_filled_and_valid();
        let ghost filled = ret;
        ret.completed = complete;
        assert(forall|c: int, r: int|
            #![trigger ret.cell(c, r)]
            #![trigger filled.cell(c, r)]
            ret.cell(c, r) == filled.cell(c, r));
        ret
    }
}

/// The character that shows the digit `value`.
pub open spec fn digit_char(value: u8) -> char {
    (value + '0' as int) as char
}

/// A board that holds the puzzle of a text shows in each cell the digit that
/// the text has for it, and nothing where the text has `0`; and the cells
/// that show a digit are the clues.
pub proof fn lemma_loaded_board_shows_source(board: Gameboard, text: Seq<char>, col: int, row: int)
    requires
        sdm::error_of(text) is None,
        board.holds(sdm::digits(text)),
        0 <= col < 9,
        0 <= row < 9,
    ensures
        board.glyph(col, row) == if sdm::digit_chars(text)[9 * row + col] == '0' {
            None
        } else {
            Some(sdm::digit_chars(text)[9 * row + col])
        },
        board.cell(col, row).loaded == (sdm::digit_chars(text)[9 * row + col] != '0'),
{
    sdm::lemma_digits_are_digits(text, 9 * row + col);
}

/// An edit has one outcome: two boards that both are a board after the same
/// edit are equal.
pub proof fn lemma_edit_is_determined(
    board: Gameboard,
    first: Gameboard,
    second: Gameboard,
    col: int,
    row: int,
    val: u8,
)
    requires
        0 <= col < 9,
        0 <= row < 9,
        board.edited(first, col, row, val),
        board.edited(second, col, row, val),
    ensures
        first == second,
{
    assert forall|c: int, r: int| 0 <= c < 9 && 0 <= r < 9 implies #[trigger] first.cell(c, r)
        == second.cell(c, r) by {
        if c != col || r != row {
            assert(first.cell(c, r) == board.cell(c, r));
            assert(second.cell(c, r) == board.cell(c, r));
        }
    }
    assert(first.cells =~= second.cells) by {
        assert forall|r: int| 0 <= r < 9 implies first.cells[r] =~= second.cells[r] by {
            assert forall|c: int| 0 <= c < 9 implies first.cells[r][c] == second.cells[r][c] by {
                assert(first.cell(c, r) == second.cell(c, r));
            }
        }
    }
    assert(first.is_complete() == second.is_complete()) by {
        assert forall|c: int, r: int| #[trigger] second.cell(c, r) == first.cell(c, r) by {}
    }
}

/// No edit changes a clue: a cell that is loaded is the same cell after the
/// player entered any digit anywhere, its own place included.
pub proof fn lemma_edit_keeps_clues(
    board: Gameboard,
    next: Gameboard,
    col: int,
    row: int,
    val: u8,
    c: int,
    r: int,
)
    requires
        0 <= col < 9,
        0 <= row < 9,
        0 <= c < 9,
        0 <= r < 9,
        board.edited(next, col, row, val),
        board.cell(c, r).loaded,
    ensures
        next.cell(c, r) == board.cell(c, r),
{
}

/// An edit of a cell that is no clue marks it invalid exactly where the
/// digit entered stands in another cell of its row, its column or its box on
/// the board as it was; and clearing such a cell always leaves it valid.
pub proof fn lemma_edit_flags_clash(board: Gameboard, next: Gameboard, col: int, row: int, val: u8)
    requires
        0 <= col < 9,
        0 <= row < 9,
        board.edited(next, col, row, val),
        !board.cell(col, row).loaded,
    ensures
        next.cell(col, row).value == val,
        val != 0 ==> (next.cell(col, row).invalid <==> board.in_row(col, row, val)
            || board.in_column(col, row, val) || board.in_box(col, row, val)),
        val == 0 ==> !next.cell(col, row).invalid,
{
}

/// After an edit the board is completed exactly if every cell is filled and
/// none is invalid: not after an edit that clashes, and not while any cell
/// is empty.
pub proof fn lemma_edit_completes(
    board: Gameboard,
    next: Gameboard,
    col: int,
    row: int,
    val: u8,
    c: int,
    r: int,
)
    requires
        0 <= col < 9,
        0 <= row < 9,
        0 <= c < 9,
        0 <= r < 9,
        board.edited(next, col, row, val),
    ensures
        next.completed <==> (forall|k: int, l: int|
            0 <= k < 9 && 0 <= l < 9 ==> (#[trigger] next.cell(k, l)).value != 0 && !next.cell(
                k,
                l,
            ).invalid),
        next.cell(c, r).value == 0 || next.cell(c, r).invalid ==> !next.completed,
{
    if next.completed {
        assert(next.cell(c, r).is_solved());
    }
}

} // verus!
