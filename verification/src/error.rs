//! The ways in which reading a FEN record can fail.

use vstd::prelude::*;

verus! {

/// The six fields of a FEN record, in the order in which the record holds
/// them. The fifth field is the full-move number and the sixth the half-move
/// clock.
#[derive(Debug, Clone, Copy, PartialEq, Eq, Structural)]
pub enum Field {
    Pieces,
    SideToMove,
    Castling,
    EnPassant,
    Fullmove,
    Halfmove,
}

/// Why a FEN record was rejected.
#[derive(Debug, Clone, Copy, PartialEq, Eq, Structural)]
pub enum ParseError {
    /// The record has fewer than six fields; the field named is the first
    /// one that is absent.
    MissingField(Field),
    /// The piece placement holds a character that is neither a piece letter
    /// nor a run length from 1 to 8.
    InvalidRankSymbol,
    /// The piece placement does not describe eight ranks of eight squares.
    MalformedRank,
    /// The side to move is neither `w` nor `b`.
    InvalidSideToMove,
    /// The file of the en-passant square is not a letter from `a` to `h`.
    InvalidColumn,
    /// The rank of the en-passant square is missing or is not a digit from 1
    /// to 8, or something follows it.
    InvalidRow,
    /// The field named, a counter, is not a decimal number that fits in 32
    /// bits.
    InvalidNumber(Field),
}

impl Field {
    /// The field at a position of the record, counted from zero.
    pub open spec fn at(index: int) -> Field {
        if index <= 0 {
            Field::Pieces
        } else if index == 1 {
            Field::SideToMove
        } else if index == 2 {
            Field::Castling
        } else if index == 3 {
            Field::EnPassant
        } else if index == 4 {
            Field::Fullmove
        } else {
            Field::Halfmove
        }
    }

    /// The field at a position of the record, counted from zero; positions
    /// past the last field give the last field.
    pub fn from_index(index: usize) -> (f: Field)
        ensures
            f == Field::at(index as int),
    {
        match index {
            0 => Field::Pieces,
            1 => Field::SideToMove,
            2 => Field::Castling,
            3 => Field::EnPassant,
            4 => Field::Fullmove,
            _ => Field::Halfmove,
        }
    }
}

impl ParseError {
    /// The text of the message for this error.
    pub open spec fn message_text(self) -> Seq<char> {
        match self {
            ParseError::MissingField(Field::Pieces) => "FEN parse error: no pieces found"@,
            ParseError::MissingField(Field::SideToMove) => "FEN parse error: no to move color found"@,
            ParseError::MissingField(Field::Castling) => "FEN parse error: no castling found"@,
            ParseError::MissingField(Field::EnPassant) => "FEN parse error: no en passant found"@,
            ParseError::MissingField(Field::Fullmove) => "FEN parse error: no fullmove found"@,
            ParseError::MissingField(Field::Halfmove) => "FEN parse error: no halfmove found"@,
            ParseError::InvalidRankSymbol => "FEN parse error: invalid rank symbol"@,
            ParseError::MalformedRank => "FEN parse error: malformed rank"@,
            ParseError::InvalidSideToMove => "FEN parse error: to move color invalid"@,
            ParseError::InvalidColumn => "Coordinate parse error: invalid column"@,
            ParseError::InvalidRow => "Coordinate parse error: invalid row"@,
            ParseError::InvalidNumber(Field::Fullmove) => "FEN parse error: fullmove invalid"@,
            ParseError::InvalidNumber(Field::Halfmove) => "FEN parse error: halfmove invalid"@,
            ParseError::InvalidNumber(_) => "FEN parse error: number invalid"@,
        }
    }

    /// A message for a person to read.
    pub fn message(&self) -> (s: &'static str)
        ensures
            s@ == self.message_text(),
    {
        match self {
            ParseError::MissingField(Field::Pieces) => "FEN parse error: no pieces found",
            ParseError::MissingField(Field::SideToMove) => "FEN parse error: no to move color found",
            ParseError::MissingField(Field::Castling) => "FEN parse error: no castling found",
            ParseError::MissingField(Field::EnPassant) => "FEN parse error: no en passant found",
            ParseError::MissingField(Field::Fullmove) => "FEN parse error: no fullmove found",
            ParseError::MissingField(Field::Halfmove) => "FEN parse error: no halfmove found",
            ParseError::InvalidRankSymbol => "FEN parse error: invalid rank symbol",
            ParseError::MalformedRank => "FEN parse error: malformed rank",
            ParseError::InvalidSideToMove => "FEN parse error: to move color invalid",
            ParseError::InvalidColumn => "Coordinate parse error: invalid column",
            ParseError::InvalidRow => "Coordinate parse error: invalid row",
            ParseError::InvalidNumber(Field::Fullmove) => "FEN parse error: fullmove invalid",
            ParseError::InvalidNumber(Field::Halfmove) => "FEN parse error: halfmove invalid",
            ParseError::InvalidNumber(_) => "FEN parse error: number invalid",
        }
    }
}

} // verus!
