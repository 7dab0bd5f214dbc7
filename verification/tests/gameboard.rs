use sudoku::gameboard::{Cell, Gameboard};
use sudoku::sdm::ParseError;

const PUZZLE: &str = "016400000\n200009000\n400000062\n070230100\n100000003\n003087040\n960000005\n000800007\n000006820\n";

const FLAT_PUZZLE: &str =
    "016400000200009000400000062070230100100000003003087040960000005000800007000006820";

const SOLVED_TEXT: &str =
    "534678912672195348198342567859761423426853791713924856961537284287419635345286179";

const PUZZLE_CELLS: [[u8; 9]; 9] = [
    [0, 1, 6, 4, 0, 0, 0, 0, 0],
    [2, 0, 0, 0, 0, 9, 0, 0, 0],
    [4, 0, 0, 0, 0, 0, 0, 6, 2],
    [0, 7, 0, 2, 3, 0, 1, 0, 0],
    [1, 0, 0, 0, 0, 0, 0, 0, 3],
    [0, 0, 3, 0, 8, 7, 0, 4, 0],
    [9, 6, 0, 0, 0, 0, 0, 0, 5],
    [0, 0, 0, 8, 0, 0, 0, 0, 7],
    [0, 0, 0, 0, 0, 6, 8, 2, 0],
];

const SOLVED: [[u8; 9]; 9] = [
    [5, 3, 4, 6, 7, 8, 9, 1, 2],
    [6, 7, 2, 1, 9, 5, 3, 4, 8],
    [1, 9, 8, 3, 4, 2, 5, 6, 7],
    [8, 5, 9, 7, 6, 1, 4, 2, 3],
    [4, 2, 6, 8, 5, 3, 7, 9, 1],
    [7, 1, 3, 9, 2, 4, 8, 5, 6],
    [9, 6, 1, 5, 3, 7, 2, 8, 4],
    [2, 8, 7, 4, 1, 9, 6, 3, 5],
    [3, 4, 5, 2, 8, 6, 1, 7, 9],
];

fn solved_but(holes: &[[usize; 2]]) -> Gameboard {
    let mut cells = SOLVED;
    for hole in holes {
        cells[hole[1]][hole[0]] = 0;
    }
    Gameboard::from_cells(cells)
}

#[test]
fn load_sdm() {
    let got = Gameboard::load_sdm(FLAT_PUZZLE).unwrap();
    let want = Gameboard::from_cells([
        [0, 1, 6, 4, 0, 0, 0, 0, 0],
        [2, 0, 0, 0, 0, 9, 0, 0, 0],
        [4, 0, 0, 0, 0, 0, 0, 6, 2],
        [0, 7, 0, 2, 3, 0, 1, 0, 0],
        [1, 0, 0, 0, 0, 0, 0, 0, 3],
        [0, 0, 3, 0, 8, 7, 0, 4, 0],
        [9, 6, 0, 0, 0, 0, 0, 0, 5],
        [0, 0, 0, 8, 0, 0, 0, 0, 7],
        [0, 0, 0, 0, 0, 6, 8, 2, 0],
    ]);
    assert_eq!(got, want);
}

#[test]
fn new_board_is_empty() {
    let board = Gameboard::new();
    for row in 0..9 {
        for col in 0..9 {
            assert_eq!(board.cells[row][col], Cell { value: 0, loaded: false, invalid: false });
            assert_eq!(board.char([col, row]), None);
        }
    }
    assert!(!board.completed);
}

#[test]
fn default_cell_is_empty() {
    assert_eq!(Cell::default(), Cell { value: 0, loaded: false, invalid: false });
}

#[test]
fn from_cells_marks_clues() {
    let board = Gameboard::from_cells(PUZZLE_CELLS);
    assert_eq!(board.cells[0][0], Cell { value: 0, loaded: false, invalid: false });
    assert_eq!(board.cells[0][1], Cell { value: 1, loaded: true, invalid: false });
    assert_eq!(board.cells[2][8], Cell { value: 2, loaded: true, invalid: false });
    assert_eq!(board.cells[8][2], Cell { value: 0, loaded: false, invalid: false });
    assert!(!board.completed);
}

#[test]
fn from_cells_of_a_full_grid_is_completed() {
    let board = Gameboard::from_cells(SOLVED);
    assert!(board.completed);
    let mut cells = SOLVED;
    cells[8][8] = 0;
    assert!(!Gameboard::from_cells(cells).completed);
}

#[test]
fn completed_goes_by_the_flags_of_the_cells() {
    // Clues are never marked invalid, so a grid full of clues is completed
    // whatever they are.
    let board = Gameboard::from_cells([[1; 9]; 9]);
    assert!(board.completed);
}

#[test]
fn load_of_a_full_grid_is_completed() {
    let board = Gameboard::load_sdm(SOLVED_TEXT).unwrap();
    assert_eq!(board, Gameboard::from_cells(SOLVED));
    assert!(board.completed);
    let holed = SOLVED_TEXT.replacen('5', "0", 1);
    let board = Gameboard::load_sdm(&holed).unwrap();
    assert_eq!(board.cells[0][0], Cell { value: 0, loaded: false, invalid: false });
    assert!(!board.completed);
}

#[test]
fn load_then_char_reproduces_source() {
    let board = Gameboard::load_sdm(PUZZLE).unwrap();
    let digits: Vec<char> = PUZZLE.chars().filter(|c| c.is_ascii_digit()).collect();
    assert_eq!(digits.len(), 81);
    for row in 0..9 {
        for col in 0..9 {
            let source = digits[9 * row + col];
            let want = if source == '0' { None } else { Some(source) };
            assert_eq!(board.char([col, row]), want);
            assert_eq!(board.cells[row][col].loaded, source != '0');
            assert!(!board.cells[row][col].invalid);
        }
    }
    assert_eq!(board.char([1, 0]), Some('1'));
    assert_eq!(board.char([0, 1]), Some('2'));
    assert_eq!(board.char([0, 0]), None);
}

#[test]
fn load_is_row_major() {
    let mut text = String::new();
    for k in 0..81 {
        text.push(if k == 9 { '7' } else if k == 1 { '3' } else { '0' });
    }
    let board = Gameboard::load_sdm(&text).unwrap();
    assert_eq!(board.cells[1][0].value, 7);
    assert_eq!(board.cells[0][1].value, 3);
    assert_eq!(board.cells[0][0].value, 0);
}

#[test]
fn load_accepts_text_with_and_without_line_breaks() {
    let flat: String = PUZZLE.chars().filter(|c| c.is_ascii_digit()).collect();
    assert_eq!(flat, FLAT_PUZZLE);
    assert_eq!(Gameboard::load_sdm(&flat), Ok(Gameboard::from_cells(PUZZLE_CELLS)));
    assert_eq!(Gameboard::load_sdm(PUZZLE), Ok(Gameboard::from_cells(PUZZLE_CELLS)));
    assert!(!Gameboard::load_sdm(PUZZLE).unwrap().completed);
}

#[test]
fn load_skips_blanks_anywhere() {
    let mut text = String::from(" \t\r\n");
    for c in PUZZLE.chars() {
        text.push(c);
        text.push(' ');
    }
    text.push('\x0c');
    assert_eq!(Gameboard::load_sdm(&text), Ok(Gameboard::from_cells(PUZZLE_CELLS)));
}

#[test]
fn load_rejects_too_few_digits() {
    assert_eq!(Gameboard::load_sdm(""), Err(ParseError::WrongDigitCount));
    assert_eq!(Gameboard::load_sdm(&PUZZLE[..PUZZLE.len() - 2]), Err(ParseError::WrongDigitCount));
}

#[test]
fn load_rejects_too_many_digits() {
    let text = format!("{}0", PUZZLE);
    assert_eq!(Gameboard::load_sdm(&text), Err(ParseError::WrongDigitCount));
}

#[test]
fn load_rejects_other_characters() {
    let dotted = PUZZLE.replace('0', ".");
    assert_eq!(Gameboard::load_sdm(&dotted), Err(ParseError::InvalidCharacter));
    let lettered = format!("{}x", PUZZLE);
    assert_eq!(Gameboard::load_sdm(&lettered), Err(ParseError::InvalidCharacter));
    let accented = format!("{}\u{e9}", PUZZLE);
    assert_eq!(Gameboard::load_sdm(&accented), Err(ParseError::InvalidCharacter));
    let wide_blank = format!("{}\u{a0}", PUZZLE);
    assert_eq!(Gameboard::load_sdm(&wide_blank), Err(ParseError::InvalidCharacter));
}

#[test]
fn load_reports_a_bad_character_before_the_count() {
    assert_eq!(Gameboard::load_sdm("12a"), Err(ParseError::InvalidCharacter));
    let long = format!("{}{}-", PUZZLE, PUZZLE);
    assert_eq!(Gameboard::load_sdm(&long), Err(ParseError::InvalidCharacter));
}

#[test]
fn parse_gives_the_grid() {
    assert_eq!(sudoku::sdm::parse(PUZZLE), Ok(PUZZLE_CELLS));
    assert_eq!(sudoku::sdm::parse("1 2 3"), Err(ParseError::WrongDigitCount));
}

#[test]
fn char_shows_each_digit() {
    let mut board = Gameboard::new();
    let glyphs = ['1', '2', '3', '4', '5', '6', '7', '8', '9'];
    for value in 1..=9u8 {
        board.set([usize::from(value) - 1, 4], value);
        assert_eq!(board.char([usize::from(value) - 1, 4]), Some(glyphs[usize::from(value) - 1]));
    }
    board.set([0, 4], 0);
    assert_eq!(board.char([0, 4]), None);
}

#[test]
fn char_of_a_value_above_nine_is_none() {
    let mut board = Gameboard::new();
    board.cells[3][2].value = 10;
    assert_eq!(board.char([2, 3]), None);
}

#[test]
fn set_on_a_clue_changes_nothing() {
    let mut board = Gameboard::from_cells(PUZZLE_CELLS);
    let before = board.cells;
    for value in 0..=9u8 {
        board.set([1, 0], value);
        assert_eq!(board, Gameboard::from_cells(PUZZLE_CELLS));
        assert_eq!(board.cells, before);
        assert_eq!(board.cells[0][1], Cell { value: 1, loaded: true, invalid: false });
    }
    assert!(!board.completed);
}

#[test]
fn set_on_a_clashing_clue_leaves_it_valid() {
    let mut cells = [[0u8; 9]; 9];
    cells[0][0] = 1;
    cells[0][1] = 1;
    let mut board = Gameboard::from_cells(cells);
    board.set([0, 0], 1);
    assert_eq!(board.cells[0][0], Cell { value: 1, loaded: true, invalid: false });
}

#[test]
fn set_stores_a_digit_without_clash() {
    let mut board = Gameboard::from_cells(PUZZLE_CELLS);
    board.set([0, 0], 5);
    assert_eq!(board.cells[0][0], Cell { value: 5, loaded: false, invalid: false });
    assert!(!board.completed);
}

#[test]
fn set_marks_a_clash_in_the_row() {
    let mut board = Gameboard::from_cells(PUZZLE_CELLS);
    // Neither the column nor the box of (4, 0) holds a 1.
    board.set([4, 0], 1);
    assert_eq!(board.cells[0][4], Cell { value: 1, loaded: false, invalid: true });
    let mut lone = Gameboard::new();
    lone.set([8, 2], 7);
    lone.set([0, 2], 7);
    assert!(lone.cells[2][0].invalid);
    assert!(!lone.cells[2][8].invalid);
}

#[test]
fn set_marks_a_clash_in_the_column() {
    let mut board = Gameboard::new();
    board.set([3, 8], 2);
    board.set([3, 0], 2);
    assert_eq!(board.cells[0][3], Cell { value: 2, loaded: false, invalid: true });
    assert_eq!(board.cells[8][3], Cell { value: 2, loaded: false, invalid: false });
    // Another column of another box and row is free.
    board.set([7, 4], 2);
    assert_eq!(board.cells[4][7], Cell { value: 2, loaded: false, invalid: false });
}

#[test]
fn set_marks_a_clash_in_the_box() {
    let mut board = Gameboard::new();
    board.set([4, 4], 9);
    board.set([3, 5], 9);
    assert_eq!(board.cells[5][3], Cell { value: 9, loaded: false, invalid: true });
    // The next box over is another matter.
    let mut other = Gameboard::new();
    other.set([4, 4], 9);
    other.set([6, 5], 9);
    assert_eq!(other.cells[5][6], Cell { value: 9, loaded: false, invalid: false });
}

#[test]
fn set_ignores_the_cell_itself() {
    let mut board = Gameboard::new();
    board.set([2, 7], 4);
    board.set([2, 7], 4);
    assert_eq!(board.cells[7][2], Cell { value: 4, loaded: false, invalid: false });
    board.set([7, 2], 4);
    board.set([7, 2], 4);
    assert_eq!(board.cells[2][7], Cell { value: 4, loaded: false, invalid: false });
}

#[test]
fn set_looks_at_every_other_cell_of_row_and_column() {
    // The clashing partner stands in the column whose number is the row of
    // the edited cell, and the other way round.
    let mut board = Gameboard::new();
    board.set([3, 3], 6);
    board.set([5, 3], 6);
    assert!(board.cells[3][5].invalid);
    let mut other = Gameboard::new();
    other.set([0, 0], 8);
    other.set([0, 5], 8);
    assert!(other.cells[5][0].invalid);
    let mut third = Gameboard::new();
    third.set([2, 6], 3);
    third.set([6, 6], 3);
    assert!(third.cells[6][6].invalid);
}

#[test]
fn set_zero_clears_the_cell_and_its_flag() {
    let mut board = Gameboard::from_cells(PUZZLE_CELLS);
    board.set([0, 0], 1);
    assert_eq!(board.cells[0][0], Cell { value: 1, loaded: false, invalid: true });
    board.set([0, 0], 0);
    assert_eq!(board.cells[0][0], Cell { value: 0, loaded: false, invalid: false });
    assert_eq!(board.char([0, 0]), None);
}

#[test]
fn set_changes_no_other_cell() {
    let mut board = Gameboard::from_cells(PUZZLE_CELLS);
    let before = board.cells;
    board.set([4, 4], 3);
    for row in 0..9 {
        for col in 0..9 {
            if (col, row) != (4, 4) {
                assert_eq!(board.cells[row][col], before[row][col]);
            }
        }
    }
    assert_eq!(board.cells[4][4], Cell { value: 3, loaded: false, invalid: true });
}

#[test]
fn clearing_the_partner_keeps_the_flag() {
    let mut board = Gameboard::new();
    board.set([0, 0], 5);
    board.set([8, 0], 5);
    assert!(board.cells[0][8].invalid);
    board.set([0, 0], 0);
    // Only an edit of the flagged cell itself checks it again.
    assert!(board.cells[0][8].invalid);
    board.set([8, 0], 5);
    assert!(!board.cells[0][8].invalid);
}

#[test]
fn completed_after_the_last_cell() {
    let mut board = solved_but(&[[4, 4], [0, 8]]);
    assert!(!board.completed);
    board.set([4, 4], 5);
    assert!(!board.completed);
    board.set([0, 8], 3);
    assert!(board.completed);
    for row in 0..9 {
        for col in 0..9 {
            assert!(board.cells[row][col].value != 0 && !board.cells[row][col].invalid);
        }
    }
}

#[test]
fn not_completed_with_a_clash_or_a_hole() {
    let mut board = solved_but(&[[4, 4]]);
    board.set([4, 4], 6);
    assert_eq!(board.cells[4][4], Cell { value: 6, loaded: false, invalid: true });
    assert!(!board.completed);
    board.set([4, 4], 5);
    assert!(board.completed);
    board.set([4, 4], 0);
    assert!(!board.completed);
}

#[test]
fn set_on_a_clue_keeps_completed() {
    let mut board = Gameboard::from_cells(SOLVED);
    assert!(board.completed);
    board.set([0, 0], 9);
    assert_eq!(board, Gameboard::from_cells(SOLVED));
    assert!(board.completed);
    let mut open = Gameboard::from_cells(PUZZLE_CELLS);
    assert!(!open.completed);
    open.set([1, 0], 9);
    assert_eq!(open, Gameboard::from_cells(PUZZLE_CELLS));
    assert!(!open.completed);
}
