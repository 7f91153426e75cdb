//! The piece-placement field of a FEN record: ranks separated by `/`, each
//! rank a row of piece letters and of digits that count empty squares.

use crate::error::ParseError;
use crate::number::{digit_char, digit_str, digit_value};
use crate::piece::{lemma_fen_letter_is_letter, lemma_from_fen_letter_inverts, Color, Piece, PieceType};
use crate::text::{
    every, free_of, is_whitespace, join, lemma_join_every, lemma_pieces_every, lemma_pieces_join,
    only, pieces, rows, split_on,
};
use vstd::prelude::*;
use vstd::string::StringExecFns;

verus! {

/// The squares of one rank, from file `a` to file `h`.
pub type Rank = Seq<Option<Piece>>;

/// Whether a character is a run length: a digit from 1 to 8.
pub open spec fn is_run_length(c: char) -> bool {
    '1' <= c <= '8'
}

/// Whether a character may stand in a rank: a run length or a piece letter.
pub open spec fn is_rank_symbol(c: char) -> bool {
    is_run_length(c) || Piece::from_fen_letter(c) is Some
}

/// The test that a character may stand in a rank.
pub open spec fn rank_symbol() -> spec_fn(char) -> bool {
    |c: char| is_rank_symbol(c)
}

/// The test that a character may stand in a piece placement: one that may
/// stand in a rank, or the `/` between ranks.
pub open spec fn placement_symbol() -> spec_fn(char) -> bool {
    |c: char| c == '/' || is_rank_symbol(c)
}

/// The squares that one symbol of a rank stands for: a run length for that
/// many empty squares, a piece letter for one square with that piece.
pub open spec fn symbol_squares(c: char) -> Rank {
    if is_run_length(c) {
        Seq::new(digit_value(c), |i: int| None)
    } else {
        match Piece::from_fen_letter(c) {
            Some(p) => seq![Some(p)],
            None => Seq::empty(),
        }
    }
}

/// The squares that the text of a rank stands for: those of its symbols,
/// from left to right.
pub open spec fn rank_squares(text: Seq<char>) -> Rank
    decreases text.len(),
{
    if text.len() == 0 {
        Seq::empty()
    } else {
        rank_squares(text.drop_last()) + symbol_squares(text.last())
    }
}

/// The texts of the ranks of a piece placement, first rank of the text
/// first.
pub open spec fn rank_texts(field: Seq<char>) -> Seq<Seq<char>> {
    pieces(field, only('/'))
}

/// The squares that a piece placement stands for, rank by rank in the order
/// of the text.
pub open spec fn placement_squares(field: Seq<char>) -> Seq<Rank> {
    Seq::new(rank_texts(field).len(), |i: int| rank_squares(rank_texts(field)[i]))
}

/// How many empty squares stand at the end of a rank.
pub open spec fn trailing_empty(rank: Rank) -> nat
    decreases rank.len(),
{
    if rank.len() > 0 && rank.last() is None {
        trailing_empty(rank.drop_last()) + 1
    } else {
        0
    }
}

/// The text of a rank: each piece as its letter, and each maximal run of
/// empty squares as the digit of its length.
pub open spec fn rank_text(rank: Rank) -> Seq<char>
    decreases rank.len(),
    via rank_text_decreases
{
    if rank.len() == 0 {
        Seq::empty()
    } else {
        match rank.last() {
            Some(p) => rank_text(rank.drop_last()).push(p.fen_letter()),
            None => {
                let run = trailing_empty(rank);
                rank_text(rank.take(rank.len() - run)).push(digit_char(run))
            },
        }
    }
}

#[via_fn]
proof fn rank_text_decreases(rank: Rank) {
    lemma_trailing_empty(rank);
}

/// The text of a board: the texts of its ranks with `/` between them.
pub open spec fn placement_text(squares: Seq<Rank>) -> Seq<char> {
    join(Seq::new(squares.len(), |i: int| rank_text(squares[i])), '/')
}

/// The run at the end of a rank lies within the rank, is empty throughout,
/// and has a piece before it unless it starts the rank.
pub proof fn lemma_trailing_empty(rank: Rank)
    ensures
        trailing_empty(rank) <= rank.len(),
        forall|k: int| rank.len() - trailing_empty(rank) <= k < rank.len() ==> rank[k] is None,
        trailing_empty(rank) < rank.len() ==> rank[rank.len() - trailing_empty(rank) - 1] is Some,
        rank.len() > 0 && rank.last() is None ==> trailing_empty(rank) >= 1,
    decreases rank.len(),
{
    if rank.len() > 0 && rank.last() is None {
        let before = rank.drop_last();
        lemma_trailing_empty(before);
        assert forall|k: int| rank.len() - trailing_empty(rank) <= k < rank.len() implies rank[k] is None by {
            if k < before.len() {
                assert(before[k] == rank[k]);
            }
        }
    }
}

/// A run of empty squares at the end of a rank that has a piece before it,
/// or starts the rank, is the whole run at the end.
pub proof fn lemma_trailing_empty_is(rank: Rank, run: nat)
    requires
        run <= rank.len(),
        forall|k: int| rank.len() - run <= k < rank.len() ==> rank[k] is None,
        run < rank.len() ==> rank[rank.len() - run - 1] is Some,
    ensures
        trailing_empty(rank) == run,
    decreases run,
{
    if run > 0 {
        lemma_trailing_empty_is(rank.drop_last(), (run - 1) as nat);
    }
}

/// A symbol of a rank is neither the `/` between ranks nor white space.
pub proof fn lemma_rank_symbol_plain(c: char)
    requires
        is_rank_symbol(c),
    ensures
        c != '/',
        !is_whitespace(c),
{
    if !is_run_length(c) {
        lemma_fen_letter_is_letter(Piece::from_fen_letter(c)->0);
    }
}

/// The text of a rank of at most eight squares is made of rank symbols and
/// stands for the rank.
pub proof fn lemma_rank_text(rank: Rank)
    requires
        rank.len() <= 8,
    ensures
        every(rank_text(rank), rank_symbol()),
        rank_squares(rank_text(rank)) == rank,
        rank.len() > 0 ==> rank_text(rank).len() > 0,
    decreases rank.len(),
{
    if rank.len() > 0 {
        let text = rank_text(rank);
        match rank.last() {
            Some(p) => {
                let before = rank.drop_last();
                lemma_rank_text(before);
                lemma_from_fen_letter_inverts(p);
                lemma_fen_letter_is_letter(p);
                assert(text.drop_last() == rank_text(before));
                assert(symbol_squares(p.fen_letter()) == seq![Some(p)]);
                assert(before + seq![Some(p)] == rank);
            },
            None => {
                let run = trailing_empty(rank);
                lemma_trailing_empty(rank);
                let before = rank.take(rank.len() - run);
                lemma_rank_text(before);
                assert(text.drop_last() == rank_text(before));
                assert(is_run_length(digit_char(run)));
                assert(digit_value(digit_char(run)) == run);
                assert(before + Seq::new(run, |i: int| None::<Piece>) == rank);
            },
        }
    }
}

/// The text of a board with at least one rank, and at most eight squares in
/// each, is made of placement symbols and stands for the board.
pub proof fn lemma_placement_text(squares: Seq<Rank>)
    requires
        squares.len() >= 1,
        forall|i: int| 0 <= i < squares.len() ==> (#[trigger] squares[i]).len() <= 8,
    ensures
        every(placement_text(squares), placement_symbol()),
        placement_squares(placement_text(squares)) == squares,
{
    let texts = Seq::new(squares.len(), |i: int| rank_text(squares[i]));
    assert forall|i: int| 0 <= i < texts.len() implies free_of(#[trigger] texts[i], only('/'))
        && every(texts[i], placement_symbol()) by {
        lemma_rank_text(squares[i]);
        assert forall|k: int| 0 <= k < texts[i].len() implies texts[i][k] != '/' by {
            assert(rank_symbol()(texts[i][k]));
            lemma_rank_symbol_plain(texts[i][k]);
        }
        assert forall|k: int| 0 <= k < texts[i].len() implies placement_symbol()(
            #[trigger] texts[i][k],
        ) by {
            assert(rank_symbol()(texts[i][k]));
        }
    }
    lemma_pieces_join(texts, '/', only('/'));
    lemma_join_every(texts, '/', placement_symbol());
    assert forall|i: int| 0 <= i < squares.len() implies #[trigger] placement_squares(
        placement_text(squares),
    )[i] == squares[i] by {
        lemma_rank_text(squares[i]);
    }
    assert(placement_squares(placement_text(squares)) =~= squares);
}

/// Every character of a piece placement is a placement symbol exactly when
/// every character of every rank is a rank symbol.
pub proof fn lemma_rank_texts_every(field: Seq<char>)
    ensures
        every(field, placement_symbol()) <==> (forall|i: int|
            0 <= i < rank_texts(field).len() ==> every(#[trigger] rank_texts(field)[i], rank_symbol())),
{
    lemma_pieces_every(field, only('/'), rank_symbol());
    let by_char = forall|i: int|
        0 <= i < field.len() ==> only('/')(#[trigger] field[i]) || rank_symbol()(field[i]);
    let ranks = pieces(field, only('/'));
    let by_rank = forall|j: int| 0 <= j < ranks.len() ==> every(#[trigger] ranks[j], rank_symbol());
    assert(by_char <==> by_rank);
    assert(ranks == rank_texts(field));
    if every(field, placement_symbol()) {
        assert forall|i: int| 0 <= i < field.len() implies only('/')(#[trigger] field[i])
            || rank_symbol()(field[i]) by {
            assert(placement_symbol()(field[i]));
        }
        assert(by_char);
    }
    if by_char {
        assert forall|i: int| 0 <= i < field.len() implies placement_symbol()(#[trigger] field[i]) by {
            assert(only('/')(field[i]) || rank_symbol()(field[i]));
        }
        assert(every(field, placement_symbol()));
    }
}

/// The one-character text of a piece: its FEN letter.
pub fn piece_to_fen(p: &Piece) -> (s: &'static str)
    ensures
        s@ == seq![p.fen_letter()],
{
    proof {
        reveal_strlit("P");
        reveal_strlit("N");
        reveal_strlit("B");
        reveal_strlit("R");
        reveal_strlit("Q");
        reveal_strlit("K");
        reveal_strlit("p");
        reveal_strlit("n");
        reveal_strlit("b");
        reveal_strlit("r");
        reveal_strlit("q");
        reveal_strlit("k");
    }
    let s = match (p.get_color(), p.get_type()) {
        (Color::White, PieceType::Pawn) => "P",
        (Color::White, PieceType::Knight) => "N",
        (Color::White, PieceType::Bishop) => "B",
        (Color::White, PieceType::Rook) => "R",
        (Color::White, PieceType::Queen) => "Q",
        (Color::White, PieceType::King) => "K",
        (Color::Black, PieceType::Pawn) => "p",
        (Color::Black, PieceType::Knight) => "n",
        (Color::Black, PieceType::Bishop) => "b",
        (Color::Black, PieceType::Rook) => "r",
        (Color::Black, PieceType::Queen) => "q",
        (Color::Black, PieceType::King) => "k",
    };
    assert(s@ == seq![p.fen_letter()]);
    s
}

/// Reads the text of one rank. A character that is neither a piece letter
/// nor a digit from 1 to 8 is an invalid rank symbol. How many squares the
/// rank has is not examined.
pub fn parse_rank(rank_str: &[char]) -> (r: Result<Vec<Option<Piece>>, ParseError>)
    ensures
        match r {
            Ok(squares) => every(rank_str@, rank_symbol()) && squares@ == rank_squares(rank_str@),
            Err(e) => e == ParseError::InvalidRankSymbol && !every(rank_str@, rank_symbol()),
        },
{
    let mut result: Vec<Option<Piece>> = Vec::new();
    let mut i: usize = 0;
    assert(rank_str@.take(0).len() == 0);
    while i < rank_str.len()
        invariant
            i <= rank_str.len(),
            every(rank_str@.take(i as int), rank_symbol()),
            result@ == rank_squares(rank_str@.take(i as int)),
        decreases rank_str.len() - i,
    {
        let c = rank_str[i];
        let ghost prefix = rank_str@.take(i + 1);
        let ghost before = result@;
        proof {
            assert(prefix.drop_last() == rank_str@.take(i as int));
            assert(prefix.last() == c);
        }
        if '1' <= c && c <= '8' {
            let num: u32 = c as u32 - '0' as u32;
            let mut k: u32 = 0;
            while k < num
                invariant
                    k <= num,
                    result@ == before + Seq::new(k as nat, |j: int| None::<Piece>),
                decreases num - k,
            {
                result.push(None);
                k += 1;
            }
        } else {
            match Piece::from_letter(c) {
                Some(p) => {
                    result.push(Some(p));
                },
                None => {
                    assert(!rank_symbol()(rank_str@[i as int]));
                    return Err(ParseError::InvalidRankSymbol);
                },
            }
        }
        i += 1;
    }
    assert(rank_str@.take(i as int) == rank_str@);
    Ok(result)
}

/// Reads a piece placement: cuts it at every `/` and reads each piece as a
/// rank, in the order of the text. Neither the number of ranks nor the
/// number of squares in a rank is examined.
pub fn parse_pieces(to_parse: &[char]) -> (r: Result<Vec<Vec<Option<Piece>>>, ParseError>)
    ensures
        match r {
            Ok(squares) => every(to_parse@, placement_symbol()) && rows(squares@)
                == placement_squares(to_parse@),
            Err(e) => e == ParseError::InvalidRankSymbol && !every(to_parse@, placement_symbol()),
        },
{
    let ranks = split_on(to_parse, '/');
    let ghost texts = rank_texts(to_parse@);
    let mut result: Vec<Vec<Option<Piece>>> = Vec::new();
    let mut i: usize = 0;
    while i < ranks.len()
        invariant
            i <= ranks.len(),
            rows(ranks@) == texts,
            texts == rank_texts(to_parse@),
            result.len() == i,
            forall|j: int| 0 <= j < i ==> every(#[trigger] texts[j], rank_symbol()),
            forall|j: int| 0 <= j < i ==> (#[trigger] result@[j])@ == rank_squares(texts[j]),
        decreases ranks.len() - i,
    {
        assert(rows(ranks@)[i as int] == ranks@[i as int]@);
        let cur = match parse_rank(ranks[i].as_slice()) {
            Ok(cur) => cur,
            Err(e) => {
                proof {
                    lemma_rank_texts_every(to_parse@);
                }
                return Err(e);
            },
        };
        result.push(cur);
        i += 1;
    }
    proof {
        lemma_rank_texts_every(to_parse@);
    }
    assert(rows(result@) =~= placement_squares(to_parse@));
    Ok(result)
}

/// Writes the text of one rank of at most eight squares.
pub fn rank_to_fen(rank: &[Option<Piece>]) -> (s: String)
    requires
        rank@.len() <= 8,
    ensures
        s@ == rank_text(rank@),
{
    let mut s = String::new();
    let mut run: u32 = 0;
    let mut i: usize = 0;
    assert(rank@.take(0).len() == 0);
    while i < rank.len()
        invariant
            run <= i <= rank.len() <= 8,
            s@ == rank_text(rank@.take(i - run)),
            forall|k: int| i - run <= k < i ==> rank@[k] is None,
            run < i ==> rank@[i - run - 1] is Some,
        decreases rank.len() - i,
    {
        match &rank[i] {
            Some(p) => {
                if run > 0 {
                    proof {
                        lemma_trailing_empty_is(rank@.take(i as int), run as nat);
                        assert(rank@.take(i as int).take(i - run) == rank@.take(i - run));
                    }
                    s.append(digit_str(run));
                }
                assert(s@ == rank_text(rank@.take(i as int)));
                proof {
                    assert(rank@.take(i + 1).drop_last() == rank@.take(i as int));
                }
                s.append(piece_to_fen(p));
                run = 0;
            },
            None => {
                run += 1;
            },
        }
        i += 1;
    }
    assert(rank@.take(i as int) == rank@);
    if run > 0 {
        proof {
            lemma_trailing_empty_is(rank@, run as nat);
        }
        s.append(digit_str(run));
    }
    s
}

} // verus!
