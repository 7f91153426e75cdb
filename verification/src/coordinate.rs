//! Squares of the board in algebraic notation, as the en-passant field of a
//! FEN record writes them.

use crate::error::ParseError;
use crate::number::digit_str;
use vstd::prelude::*;
use vstd::string::StringExecFns;

verus! {

/// A square: its file and its rank, both counted from zero, so that `a1` is
/// `(0, 0)` and `h8` is `(7, 7)`.
pub type Coordinate = (u8, u8);

/// Whether a square, if there is one, lies on the board.
pub open spec fn on_board(cord: Option<Coordinate>) -> bool {
    match cord {
        Some((file, rank)) => file < 8 && rank < 8,
        None => true,
    }
}

/// The letter of a file: `a` for file 0 up to `h` for file 7.
pub open spec fn file_char(file: u8) -> char
    recommends
        file < 8,
{
    ('a' as u32 + file) as char
}

/// The digit of a rank: `1` for rank 0 up to `8` for rank 7.
pub open spec fn rank_char(rank: u8) -> char
    recommends
        rank < 8,
{
    ('1' as u32 + rank) as char
}

/// How a square is written: `-` where there is none, else the letter of its
/// file and the digit of its rank.
pub open spec fn notation(cord: Option<Coordinate>) -> Seq<char>
    recommends
        on_board(cord),
{
    match cord {
        Some((file, rank)) => seq![file_char(file), rank_char(rank)],
        None => seq!['-'],
    }
}

/// What a text denotes as a square. The text `-` denotes that there is none.
/// Any other text must be a file letter and a rank digit, and is examined
/// rank first: unless its second character is there and is a digit from 1 to
/// 8, the row is invalid; then unless its first character is a letter from
/// `a` to `h`, the column is invalid; then, if anything follows the two, the
/// row is invalid.
pub open spec fn coordinate(s: Seq<char>) -> Result<Option<Coordinate>, ParseError> {
    if s =~= seq!['-'] {
        Ok(None)
    } else if s.len() < 2 || !('1' <= s[1] <= '8') {
        Err(ParseError::InvalidRow)
    } else if !('a' <= s[0] <= 'h') {
        Err(ParseError::InvalidColumn)
    } else if s.len() > 2 {
        Err(ParseError::InvalidRow)
    } else {
        Ok(Some(((s[0] as u32 - 'a' as u32) as u8, (s[1] as u32 - '1' as u32) as u8)))
    }
}

/// Reading what was written for a square on the board gives the square back.
pub proof fn lemma_coordinate_notation(cord: Option<Coordinate>)
    requires
        on_board(cord),
    ensures
        coordinate(notation(cord)) == Ok::<Option<Coordinate>, ParseError>(cord),
{
}

/// Reads the en-passant field of a FEN record.
pub fn parse_coordinate(notation_form: &[char]) -> (r: Result<Option<Coordinate>, ParseError>)
    ensures
        r == coordinate(notation_form@),
        r matches Ok(cord) ==> on_board(cord),
{
    if notation_form.len() == 1 && notation_form[0] == '-' {
        return Ok(None);
    }
    if notation_form.len() < 2 {
        return Err(ParseError::InvalidRow);
    }
    let row = notation_form[1];
    if !('1' <= row && row <= '8') {
        return Err(ParseError::InvalidRow);
    }
    let col = notation_form[0];
    if !('a' <= col && col <= 'h') {
        return Err(ParseError::InvalidColumn);
    }
    if notation_form.len() > 2 {
        return Err(ParseError::InvalidRow);
    }
    let x: u8 = (col as u32 - 'a' as u32) as u8;
    let y: u8 = (row as u32 - '1' as u32) as u8;
    Ok(Some((x, y)))
}

/// The one-character text of a file.
pub fn file_str(file: u8) -> (s: &'static str)
    requires
        file < 8,
    ensures
        s@ == seq![file_char(file)],
{
    proof {
        reveal_strlit("a");
        reveal_strlit("b");
        reveal_strlit("c");
        reveal_strlit("d");
        reveal_strlit("e");
        reveal_strlit("f");
        reveal_strlit("g");
        reveal_strlit("h");
    }
    let s = match file {
        0 => "a",
        1 => "b",
        2 => "c",
        3 => "d",
        4 => "e",
        5 => "f",
        6 => "g",
        _ => "h",
    };
    assert(s@ == seq![file_char(file)]);
    s
}

/// Writes the en-passant field of a FEN record.
pub fn coordinate_to_notation(cord: Option<Coordinate>) -> (s: String)
    requires
        on_board(cord),
    ensures
        s@ == notation(cord),
{
    match cord {
        Some((col, row)) => {
            let mut s = String::from_str(file_str(col));
            s.append(digit_str(row as u32 + 1));
            assert(s@ == notation(cord));
            s
        },
        None => {
            proof {
                reveal_strlit("-");
            }
            let s = String::from_str("-");
            assert(s@ == notation(cord));
            s
        },
    }
}

} // verus!
