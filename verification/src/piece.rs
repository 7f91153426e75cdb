//! Chess pieces: a colour paired with a kind, and the letters and glyphs that
//! stand for them.

use vstd::prelude::*;

verus! {

/// The side a piece belongs to, or the side whose turn it is.
#[derive(Debug, Clone, Copy, PartialEq, Eq, Structural)]
pub enum Color {
    Black,
    White,
}

/// The six kinds of chess piece.
#[derive(Debug, Clone, Copy, PartialEq, Eq, Structural)]
pub enum PieceType {
    Pawn,
    Knight,
    Bishop,
    Rook,
    Queen,
    King,
}

/// A piece on the board. It is a plain value: two pieces are equal exactly
/// when their colours and kinds are.
#[derive(Debug, Clone, Copy, PartialEq, Eq, Structural)]
pub struct Piece {
    pub color: Color,
    pub piece: PieceType,
}

impl PieceType {
    /// The lower-case letter that FEN uses for this kind.
    pub open spec fn letter(self) -> char {
        match self {
            PieceType::Pawn => 'p',
            PieceType::Knight => 'n',
            PieceType::Bishop => 'b',
            PieceType::Rook => 'r',
            PieceType::Queen => 'q',
            PieceType::King => 'k',
        }
    }

    /// Where this kind stands in the Unicode chess block, which lists each
    /// colour from king down to pawn.
    pub open spec fn glyph_offset(self) -> int {
        match self {
            PieceType::King => 0,
            PieceType::Queen => 1,
            PieceType::Rook => 2,
            PieceType::Bishop => 3,
            PieceType::Knight => 4,
            PieceType::Pawn => 5,
        }
    }
}

/// The upper-case form of a lower-case ASCII letter.
pub open spec fn to_upper(c: char) -> char
    recommends
        'a' <= c <= 'z',
{
    (c as u32 - 32) as char
}

impl Piece {
    /// The FEN letter of this piece: the letter of its kind, in upper case
    /// for White and in lower case for Black.
    pub open spec fn fen_letter(self) -> char {
        match self.color {
            Color::White => to_upper(self.piece.letter()),
            Color::Black => self.piece.letter(),
        }
    }

    /// The piece that a FEN letter names, if it names one.
    pub open spec fn from_fen_letter(c: char) -> Option<Piece> {
        if exists|p: Piece| p.fen_letter() == c {
            Some(choose|p: Piece| p.fen_letter() == c)
        } else {
            None
        }
    }

    /// The Unicode chess glyph of this piece: U+2654 to U+2659 for White,
    /// U+265A to U+265F for Black.
    pub open spec fn display_symbol(self) -> char {
        let base: int = match self.color {
            Color::White => 0x2654,
            Color::Black => 0x265A,
        };
        (base + self.piece.glyph_offset()) as char
    }

    pub fn new(color: Color, piece: PieceType) -> (p: Piece)
        ensures
            p.color == color,
            p.piece == piece,
    {
        Piece { color, piece }
    }

    pub fn get_color(&self) -> (c: Color)
        ensures
            c == self.color,
    {
        self.color
    }

    pub fn get_type(&self) -> (t: PieceType)
        ensures
            t == self.piece,
    {
        self.piece
    }

    /// The glyph that shows this piece in running text.
    pub fn to_display_symbol(&self) -> (c: char)
        ensures
            c == self.display_symbol(),
    {
        match (self.color, self.piece) {
            (Color::White, PieceType::King) => '\u{2654}',
            (Color::White, PieceType::Queen) => '\u{2655}',
            (Color::White, PieceType::Rook) => '\u{2656}',
            (Color::White, PieceType::Bishop) => '\u{2657}',
            (Color::White, PieceType::Knight) => '\u{2658}',
            (Color::White, PieceType::Pawn) => '\u{2659}',
            (Color::Black, PieceType::King) => '\u{265A}',
            (Color::Black, PieceType::Queen) => '\u{265B}',
            (Color::Black, PieceType::Rook) => '\u{265C}',
            (Color::Black, PieceType::Bishop) => '\u{265D}',
            (Color::Black, PieceType::Knight) => '\u{265E}',
            (Color::Black, PieceType::Pawn) => '\u{265F}',
        }
    }

    /// Reads a FEN letter: one of `PNBRQK` gives a white piece, one of
    /// `pnbrqk` a black one, and any other character gives nothing.
    pub fn from_letter(c: char) -> (r: Option<Piece>)
        ensures
            r == Piece::from_fen_letter(c),
    {
        let r = match c {
            'P' => Some(Piece::new(Color::White, PieceType::Pawn)),
            'N' => Some(Piece::new(Color::White, PieceType::Knight)),
            'B' => Some(Piece::new(Color::White, PieceType::Bishop)),
            'R' => Some(Piece::new(Color::White, PieceType::Rook)),
            'Q' => Some(Piece::new(Color::White, PieceType::Queen)),
            'K' => Some(Piece::new(Color::White, PieceType::King)),
            'p' => Some(Piece::new(Color::Black, PieceType::Pawn)),
            'n' => Some(Piece::new(Color::Black, PieceType::Knight)),
            'b' => Some(Piece::new(Color::Black, PieceType::Bishop)),
            'r' => Some(Piece::new(Color::Black, PieceType::Rook)),
            'q' => Some(Piece::new(Color::Black, PieceType::Queen)),
            'k' => Some(Piece::new(Color::Black, PieceType::King)),
            _ => None,
        };
        proof {
            match r {
                Some(p) => {
                    assert(p.fen_letter() == c);
                    lemma_fen_letter_injective(p, choose|q: Piece| q.fen_letter() == c);
                },
                None => {
                    assert forall|p: Piece| p.fen_letter() != c by {
                        lemma_fen_letter_is_letter(p);
                    }
                },
            }
        }
        r
    }
}

/// A FEN letter is one of the twelve letters `PNBRQKpnbrqk`.
pub proof fn lemma_fen_letter_is_letter(p: Piece)
    ensures
        ({
            let c = p.fen_letter();
            c == 'P' || c == 'N' || c == 'B' || c == 'R' || c == 'Q' || c == 'K' || c == 'p' || c
                == 'n' || c == 'b' || c == 'r' || c == 'q' || c == 'k'
        }),
{
}

/// Different pieces have different FEN letters.
pub proof fn lemma_fen_letter_injective(p: Piece, q: Piece)
    requires
        p.fen_letter() == q.fen_letter(),
    ensures
        p == q,
{
}

/// Reading the letter of a piece gives the piece back.
pub proof fn lemma_from_fen_letter_inverts(p: Piece)
    ensures
        Piece::from_fen_letter(p.fen_letter()) == Some(p),
{
    lemma_fen_letter_injective(p, choose|q: Piece| q.fen_letter() == p.fen_letter());
}

} // verus!
