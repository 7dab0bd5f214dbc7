//! The SDM puzzle text format.
//!
//! A puzzle is written as 81 ASCII digits, row by row from the top and
//! left to right within a row. `0` stands for an empty cell. Blanks (space,
//! tab, line feed, form feed, carriage return) may stand anywhere between
//! the digits and are skipped; any other character makes the text
//! malformed.

use vstd::prelude::*;

verus! {

/// Why a text is no SDM puzzle.
#[derive(Clone, Copy, Debug, PartialEq, Eq, Structural)]
pub enum ParseError {
    /// The text holds a character that is neither a digit nor a blank.
    InvalidCharacter,
    /// The text holds only digits and blanks, but not exactly 81 digits.
    WrongDigitCount,
}

/// Whether `c` is one of the ASCII digits `0` to `9`.
pub open spec fn is_digit(c: char) -> bool {
    '0' <= c <= '9'
}

/// Whether `c` is one of the blanks that may separate digits.
pub open spec fn is_blank(c: char) -> bool {
    c == ' ' || c == '\t' || c == '\n' || c == '\x0c' || c == '\r'
}

/// The number that the digit `c` stands for.
pub open spec fn digit_value(c: char) -> u8 {
    (c as int - '0' as int) as u8
}

/// The digits of `text` in the order in which they stand there.
pub open spec fn digit_chars(text: Seq<char>) -> Seq<char> {
    text.filter(|c: char| is_digit(c))
}

/// The numbers that the digits of `text` stand for, in their order.
pub open spec fn digits(text: Seq<char>) -> Seq<u8> {
    digit_chars(text).map_values(|c: char| digit_value(c))
}

/// Whether `text` holds a character that is neither a digit nor a blank.
pub open spec fn has_invalid_character(text: Seq<char>) -> bool {
    exists|i: int| 0 <= i < text.len() && !is_digit(#[trigger] text[i]) && !is_blank(text[i])
}

/// The error that makes `text` malformed, or `None` for a puzzle. A
/// character that is out of place is reported before a wrong number of
/// digits.
pub open spec fn error_of(text: Seq<char>) -> Option<ParseError> {
    if has_invalid_character(text) {
        Some(ParseError::InvalidCharacter)
    } else if digits(text).len() != 81 {
        Some(ParseError::WrongDigitCount)
    } else {
        None
    }
}

/// Reading one character further appends its number to the digits read so
/// far if it is a digit, and leaves them as they are if it is not.
pub proof fn lemma_digits_step(text: Seq<char>, i: int)
    requires
        0 <= i < text.len(),
    ensures
        digits(text.take(i + 1)) == if is_digit(text[i]) {
            digits(text.take(i)).push(digit_value(text[i]))
        } else {
            digits(text.take(i))
        },
{
    let pred = |c: char| is_digit(c);
    assert(text.take(i + 1) =~= text.take(i).push(text[i]));
    text.take(i).lemma_filter_push(text[i], pred);
    if is_digit(text[i]) {
        assert(digits(text.take(i + 1)) =~= digits(text.take(i)).push(digit_value(text[i])));
    }
}

/// Every digit of a text is an ASCII digit, and its number is at most 9.
pub proof fn lemma_digits_are_digits(text: Seq<char>, k: int)
    requires
        0 <= k < digits(text).len(),
    ensures
        digit_chars(text).len() == digits(text).len(),
        is_digit(digit_chars(text)[k]),
        digits(text)[k] == digit_value(digit_chars(text)[k]),
        digits(text)[k] <= 9,
{
    let pred = |c: char| is_digit(c);
    text.lemma_filter_pred(pred, k);
}

/// Reads a puzzle text into its grid of numbers, `grid[row][col]` being the
/// digit number `9 * row + col` of the text.
pub fn parse(data: &str) -> (result: Result<[[u8; 9]; 9], ParseError>)
    ensures
        match result {
            Ok(grid) => {
                &&& error_of(data@) is None
                &&& forall|col: int, row: int|
                    0 <= col < 9 && 0 <= row < 9 ==> #[trigger] grid[row][col] == digits(data@)[9
                        * row + col]
                &&& forall|col: int, row: int|
                    0 <= col < 9 && 0 <= row < 9 ==> #[trigger] grid[row][col] <= 9
            },
            Err(e) => error_of(data@) == Some(e),
        },
{
    if !data.is_ascii() {
        proof {
            let i = choose|i: int| 0 <= i < data@.len() && !('\0' <= #[trigger] data@[i] <= '\u{7f}');
            assert(!is_digit(data@[i]) && !is_blank(data@[i]));
        }
        return Err(ParseError::InvalidCharacter);
    }
    let n = data.unicode_len();
    let mut grid: [[u8; 9]; 9] = [[0; 9]; 9];
    let mut count: usize = 0;
    let mut i: usize = 0;
    assert(data@.take(0) =~= Seq::<char>::empty());
    assert(digits(Seq::<char>::empty()) =~= Seq::<u8>::empty()) by {
        reveal(Seq::filter);
    }
    while i < n
        invariant
            data.is_ascii(),
            n == data@.len(),
            i <= n,
            forall|j: int| 0 <= j < i ==> is_digit(#[trigger] data@[j]) || is_blank(data@[j]),
            count == digits(data@.take(i as int)).len(),
            count <= i,
            forall|col: int, row: int|
                0 <= col < 9 && 0 <= row < 9 && 9 * row + col < count ==> #[trigger] grid[row][col]
                    == digits(data@.take(i as int))[9 * row + col],
            forall|col: int, row: int|
                0 <= col < 9 && 0 <= row < 9 ==> #[trigger] grid[row][col] <= 9,
        decreases n - i,
    {
        let byte = data.get_ascii(i);
        proof {
            lemma_digits_step(data@, i as int);
        }
        if 48 <= byte && byte <= 57 {
            if count < 81 {
                grid[count / 9][count % 9] = byte - 48;
            }
            count += 1;
        } else if byte == 32 || byte == 9 || byte == 10 || byte == 12 || byte == 13 {
        } else {
            assert(!is_digit(data@[i as int]) && !is_blank(data@[i as int]));
            return Err(ParseError::InvalidCharacter);
        }
        i += 1;
    }
    assert(data@.take(n as int) =~= data@);
    if count != 81 {
        return Err(ParseError::WrongDigitCount);
    }
    Ok(grid)
}

} // verus!
