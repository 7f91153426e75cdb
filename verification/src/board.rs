//! A chess position and its FEN record.
//!
//! A record has six fields separated by white space: piece placement, side
//! to move, castling rights, en-passant square and two counters. The fifth
//! field is kept as the full-move number and the sixth as the half-move
//! clock, in reading and in writing alike, so a record is written back as it
//! was read. Most writers of FEN put the half-move clock first: with their
//! records the two counters of a `Board` hold each other's values.

use crate::coordinate::{
    coordinate, coordinate_to_notation, notation, on_board, parse_coordinate, Coordinate,
};
use crate::error::{Field, ParseError};
use crate::number::{counter, decimal, parse_number, push_decimal};
use crate::piece::{Color, Piece};
use crate::placement::{
    parse_pieces, placement_squares, placement_symbol, placement_text, rank_text, rank_to_fen, Rank,
};
use crate::text::{contains, every, join, rows, split_whitespace, to_chars, tokens};
use crate::theorems::theorem_decode_encode;
use vstd::prelude::*;
use vstd::string::StringExecFns;

verus! {

/// A position as a mathematical value: what a `Board` holds, field for
/// field.
#[verifier::ext_equal]
pub struct Position {
    pub squares: Seq<Rank>,
    pub to_move: Color,
    pub w_castle_kingside: bool,
    pub w_castle_queenside: bool,
    pub b_castle_kingside: bool,
    pub b_castle_queenside: bool,
    pub en_passant: Option<Coordinate>,
    pub halfmoves: u32,
    pub fullmoves: u32,
}

/// A chess position. The four castling rights are independent of each other
/// and of where kings and rooks stand.
#[derive(Debug, PartialEq, Eq)]
pub struct Board {
    /// The ranks in the order of the record, rank 8 first; each rank from
    /// file `a` to file `h`. A well-formed board has eight ranks of eight
    /// squares.
    pub squares: Vec<Vec<Option<Piece>>>,
    /// The side whose turn it is.
    pub to_move: Color,
    pub w_castle_kingside: bool,
    pub w_castle_queenside: bool,
    pub b_castle_kingside: bool,
    pub b_castle_queenside: bool,
    /// The square that a pawn has just passed over, if any. On a
    /// well-formed board it lies on the board.
    pub en_passant: Option<Coordinate>,
    /// The half-move clock: the sixth field of the record.
    pub halfmoves: u32,
    /// The full-move number: the fifth field of the record, kept as it is
    /// written.
    pub fullmoves: u32,
}

impl View for Board {
    type V = Position;

    open spec fn view(&self) -> Position {
        Position {
            squares: rows(self.squares@),
            to_move: self.to_move,
            w_castle_kingside: self.w_castle_kingside,
            w_castle_queenside: self.w_castle_queenside,
            b_castle_kingside: self.b_castle_kingside,
            b_castle_queenside: self.b_castle_queenside,
            en_passant: self.en_passant,
            halfmoves: self.halfmoves,
            fullmoves: self.fullmoves,
        }
    }
}

/// Whether the squares are those of a chess board: eight ranks of eight.
pub open spec fn is_board_shape(squares: Seq<Rank>) -> bool {
    &&& squares.len() == 8
    &&& forall|i: int| 0 <= i < 8 ==> (#[trigger] squares[i]).len() == 8
}

/// The side that the second field of a record names.
pub open spec fn side(s: Seq<char>) -> Option<Color> {
    if s =~= seq!['w'] {
        Some(Color::White)
    } else if s =~= seq!['b'] {
        Some(Color::Black)
    } else {
        None
    }
}

/// How the side to move is written.
pub open spec fn side_text(c: Color) -> Seq<char> {
    match c {
        Color::White => seq!['w'],
        Color::Black => seq!['b'],
    }
}

/// The letter of a castling right if the right is held, else nothing.
pub open spec fn right_text(held: bool, letter: char) -> Seq<char> {
    if held {
        seq![letter]
    } else {
        Seq::empty()
    }
}

impl Position {
    /// Whether the position is well formed: the board has eight ranks of
    /// eight squares, and the en-passant square, if any, lies on it.
    pub open spec fn wf(self) -> bool {
        is_board_shape(self.squares) && on_board(self.en_passant)
    }

    /// The letters of the castling rights that are held, in the order
    /// `KQkq`.
    pub open spec fn castling_letters(self) -> Seq<char> {
        right_text(self.w_castle_kingside, 'K') + right_text(self.w_castle_queenside, 'Q')
            + right_text(self.b_castle_kingside, 'k') + right_text(self.b_castle_queenside, 'q')
    }

    /// The castling field: the letters of the rights that are held, or `-`
    /// where none is.
    pub open spec fn castling_text(self) -> Seq<char> {
        if self.castling_letters().len() == 0 {
            seq!['-']
        } else {
            self.castling_letters()
        }
    }

    /// The six fields of the record of this position.
    pub open spec fn fields(self) -> Seq<Seq<char>> {
        seq![
            placement_text(self.squares),
            side_text(self.to_move),
            self.castling_text(),
            notation(self.en_passant),
            decimal(self.fullmoves as nat),
            decimal(self.halfmoves as nat),
        ]
    }
}

/// The FEN record of a position: its six fields with single spaces between
/// them.
pub open spec fn encode(p: Position) -> Seq<char> {
    join(p.fields(), ' ')
}

/// What a text denotes as a FEN record: a position, or the first failure
/// met. The words of the text are its fields; words after the sixth are
/// ignored. The checks are made in this order: that six fields are there;
/// that the piece placement holds only placement symbols; that it describes
/// eight ranks of eight squares; the side to move; the en-passant square; the
/// full-move number; the half-move clock. Of the castling field only the
/// letters `K`, `Q`, `k` and `q` are looked for; whatever else it holds is
/// ignored.
pub open spec fn decode(s: Seq<char>) -> Result<Position, ParseError> {
    let t = tokens(s);
    if t.len() < 6 {
        Err(ParseError::MissingField(Field::at(t.len() as int)))
    } else if !every(t[0], placement_symbol()) {
        Err(ParseError::InvalidRankSymbol)
    } else if !is_board_shape(placement_squares(t[0])) {
        Err(ParseError::MalformedRank)
    } else if side(t[1]) is None {
        Err(ParseError::InvalidSideToMove)
    } else if coordinate(t[3]) is Err {
        Err(coordinate(t[3])->Err_0)
    } else if counter(t[4]) is None {
        Err(ParseError::InvalidNumber(Field::Fullmove))
    } else if counter(t[5]) is None {
        Err(ParseError::InvalidNumber(Field::Halfmove))
    } else {
        Ok(
            Position {
                squares: placement_squares(t[0]),
                to_move: side(t[1])->0,
                w_castle_kingside: t[2].contains('K'),
                w_castle_queenside: t[2].contains('Q'),
                b_castle_kingside: t[2].contains('k'),
                b_castle_queenside: t[2].contains('q'),
                en_passant: coordinate(t[3])->Ok_0,
                halfmoves: counter(t[5])->0,
                fullmoves: counter(t[4])->0,
            },
        )
    }
}

/// Whether the squares are those of a chess board.
pub fn has_board_shape(squares: &Vec<Vec<Option<Piece>>>) -> (b: bool)
    ensures
        b == is_board_shape(rows(squares@)),
{
    if squares.len() != 8 {
        return false;
    }
    let mut i: usize = 0;
    while i < 8
        invariant
            i <= 8,
            squares.len() == 8,
            forall|j: int| 0 <= j < i ==> (#[trigger] rows(squares@)[j]).len() == 8,
        decreases 8 - i,
    {
        if squares[i].len() != 8 {
            assert(rows(squares@)[i as int].len() != 8);
            return false;
        }
        i += 1;
    }
    true
}

impl Board {
    /// Whether the board is well formed.
    pub open spec fn wf(&self) -> bool {
        self@.wf()
    }

    /// Whether the board is well formed: it has eight ranks of eight
    /// squares, and its en-passant square, if any, lies on it.
    pub fn is_well_formed(&self) -> (b: bool)
        ensures
            b == self.wf(),
    {
        let on_board = match self.en_passant {
            Some((file, rank)) => file < 8 && rank < 8,
            None => true,
        };
        on_board && has_board_shape(&self.squares)
    }

    /// Reads a FEN record. The result is the position that the text denotes,
    /// or the first failure met in reading it; a position that is returned
    /// is well formed.
    pub fn from_fen(fen_str: &str) -> (r: Result<Board, ParseError>)
        ensures
            match r {
                Ok(board) => decode(fen_str@) == Ok::<Position, ParseError>(board@) && board.wf(),
                Err(e) => decode(fen_str@) == Err::<Position, ParseError>(e),
            },
    {
        let chars = to_chars(fen_str);
        let split = split_whitespace(chars.as_slice());
        let ghost t = tokens(fen_str@);
        if split.len() < 6 {
            return Err(ParseError::MissingField(Field::from_index(split.len())));
        }
        assert(forall|i: int| 0 <= i < 6 ==> split@[i]@ == #[trigger] t[i]);
        let squares = match parse_pieces(split[0].as_slice()) {
            Ok(squares) => squares,
            Err(e) => {
                return Err(e);
            },
        };
        if !has_board_shape(&squares) {
            return Err(ParseError::MalformedRank);
        }
        let to_move_str = split[1].as_slice();
        let to_move = if to_move_str.len() == 1 && to_move_str[0] == 'w' {
            Color::White
        } else if to_move_str.len() == 1 && to_move_str[0] == 'b' {
            Color::Black
        } else {
            return Err(ParseError::InvalidSideToMove);
        };
        let castling_str = split[2].as_slice();
        let w_castle_kingside = contains(castling_str, 'K');
        let w_castle_queenside = contains(castling_str, 'Q');
        let b_castle_kingside = contains(castling_str, 'k');
        let b_castle_queenside = contains(castling_str, 'q');
        let en_passant = match parse_coordinate(split[3].as_slice()) {
            Ok(en_passant) => en_passant,
            Err(e) => {
                return Err(e);
            },
        };
        let fullmoves = match parse_number(split[4].as_slice()) {
            Some(n) => n,
            None => {
                return Err(ParseError::InvalidNumber(Field::Fullmove));
            },
        };
        let halfmoves = match parse_number(split[5].as_slice()) {
            Some(n) => n,
            None => {
                return Err(ParseError::InvalidNumber(Field::Halfmove));
            },
        };
        let result = Board {
            squares,
            to_move,
            w_castle_kingside,
            w_castle_queenside,
            b_castle_kingside,
            b_castle_queenside,
            en_passant,
            halfmoves,
            fullmoves,
        };
        assert(result@ =~= decode(fen_str@)->Ok_0);
        Ok(result)
    }

    /// Writes the FEN record of a well-formed position. Reading the record
    /// gives the position back.
    pub fn to_fen(&self) -> (s: String)
        requires
            self.wf(),
        ensures
            s@ == encode(self@),
            decode(s@) == Ok::<Position, ParseError>(self@),
    {
        proof {
            theorem_decode_encode(self@);
            reveal_with_fuel(join, 6);
            reveal_strlit(" ");
            reveal_strlit("w");
            reveal_strlit("b");
        }
        let ghost f = self@.fields();
        let mut s = self.pieces_to_fen();
        s.append(" ");
        s.append(
            match self.to_move {
                Color::White => "w",
                Color::Black => "b",
            },
        );
        s.append(" ");
        s.append(self.build_castle_fen().as_str());
        s.append(" ");
        s.append(coordinate_to_notation(self.en_passant).as_str());
        s.append(" ");
        push_decimal(&mut s, self.fullmoves);
        s.append(" ");
        push_decimal(&mut s, self.halfmoves);
        proof {
            assert(f.drop_last().drop_last().drop_last().drop_last().drop_last() =~= seq![f[0]]);
            assert(f.drop_last().drop_last().drop_last().drop_last() =~= seq![f[0], f[1]]);
            assert(f.drop_last().drop_last().drop_last() =~= seq![f[0], f[1], f[2]]);
            assert(f.drop_last().drop_last() =~= seq![f[0], f[1], f[2], f[3]]);
            assert(f.drop_last() =~= seq![f[0], f[1], f[2], f[3], f[4]]);
            assert(s@ =~= join(f, ' '));
        }
        s
    }

    /// Writes the castling field: the letters of the rights that are held,
    /// in the order `KQkq`, or `-` where none is.
    pub fn build_castle_fen(&self) -> (s: String)
        ensures
            s@ == self@.castling_text(),
    {
        proof {
            reveal_strlit("K");
            reveal_strlit("Q");
            reveal_strlit("k");
            reveal_strlit("q");
            reveal_strlit("-");
        }
        let mut result = String::new();
        if self.w_castle_kingside {
            result.append("K");
        }
        if self.w_castle_queenside {
            result.append("Q");
        }
        if self.b_castle_kingside {
            result.append("k");
        }
        if self.b_castle_queenside {
            result.append("q");
        }
        assert(result@ =~= self@.castling_letters());
        if !(self.w_castle_kingside || self.w_castle_queenside || self.b_castle_kingside
            || self.b_castle_queenside) {
            result.append("-");
        }
        assert(result@ =~= self@.castling_text());
        result
    }

    /// Writes the piece placement: the texts of the ranks with `/` between
    /// them.
    pub fn pieces_to_fen(&self) -> (s: String)
        requires
            is_board_shape(self@.squares),
        ensures
            s@ == placement_text(self@.squares),
    {
        let ghost texts = Seq::new(self@.squares.len(), |i: int| rank_text(self@.squares[i]));
        let mut result = String::new();
        let mut i: usize = 0;
        assert(join(texts.take(0), '/') =~= Seq::<char>::empty());
        while i < self.squares.len()
            invariant
                i <= self.squares.len(),
                is_board_shape(self@.squares),
                texts == Seq::new(self@.squares.len(), |i: int| rank_text(self@.squares[i])),
                result@ == join(texts.take(i as int), '/'),
            decreases self.squares.len() - i,
        {
            if i > 0 {
                result.append("/");
            }
            assert(self@.squares[i as int] == self.squares@[i as int]@);
            let rank = rank_to_fen(self.squares[i].as_slice());
            result.append(rank.as_str());
            proof {
                reveal_strlit("/");
                let parts = texts.take(i + 1);
                assert(parts.drop_last() =~= texts.take(i as int));
                assert(parts.last() == rank@);
            }
            i += 1;
        }
        assert(texts.take(i as int) =~= texts);
        result
    }
}

} // verus!
