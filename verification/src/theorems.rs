//! What holds of reading and writing FEN records, for every text and every
//! position.

use crate::board::{decode, encode, is_board_shape, right_text, side, Position};
use crate::coordinate::lemma_coordinate_notation;
use crate::error::{Field, ParseError};
use crate::number::{is_digit, lemma_counter_decimal, lemma_decimal};
use crate::piece::{lemma_fen_letter_is_letter, Piece};
use crate::placement::{
    lemma_placement_text, lemma_rank_symbol_plain, placement_squares, placement_symbol,
    placement_text, rank_text,
};
use crate::text::{every, free_of, join, lemma_tokens_join, tokens, whitespace};
use vstd::prelude::*;
use vstd::seq_lib::lemma_seq_concat_contains_all_elements;

verus! {

/// A letter occurs in the text of a castling right exactly when the right
/// is held and the letter is its letter.
pub proof fn lemma_right_text(held: bool, letter: char, c: char)
    ensures
        right_text(held, letter).contains(c) <==> held && c == letter,
{
    if held {
        assert(right_text(held, letter)[0] == letter);
    }
}

/// The castling field is not empty, holds no white space, and holds the
/// letter of each right exactly when the right is held.
pub proof fn lemma_castling_text(p: Position)
    ensures
        p.castling_text().len() > 0,
        free_of(p.castling_text(), whitespace()),
        p.castling_text().contains('K') == p.w_castle_kingside,
        p.castling_text().contains('Q') == p.w_castle_queenside,
        p.castling_text().contains('k') == p.b_castle_kingside,
        p.castling_text().contains('q') == p.b_castle_queenside,
{
    let wk = right_text(p.w_castle_kingside, 'K');
    let wq = right_text(p.w_castle_queenside, 'Q');
    let bk = right_text(p.b_castle_kingside, 'k');
    let bq = right_text(p.b_castle_queenside, 'q');
    let text = p.castling_text();
    assert forall|c: char| #[trigger]
        text.contains(c) implies c == '-' || c == 'K' || c == 'Q' || c == 'k' || c == 'q' by {
        if p.castling_letters().len() > 0 {
            lemma_seq_concat_contains_all_elements(wk + wq + bk, bq, c);
            lemma_seq_concat_contains_all_elements(wk + wq, bk, c);
            lemma_seq_concat_contains_all_elements(wk, wq, c);
            lemma_right_text(p.w_castle_kingside, 'K', c);
            lemma_right_text(p.w_castle_queenside, 'Q', c);
            lemma_right_text(p.b_castle_kingside, 'k', c);
            lemma_right_text(p.b_castle_queenside, 'q', c);
        }
    }
    assert forall|i: int| 0 <= i < text.len() implies !whitespace()(#[trigger] text[i]) by {
        assert(text.contains(text[i]));
    }
    assert forall|c: char| c == 'K' || c == 'Q' || c == 'k' || c == 'q' implies (#[trigger]
    text.contains(c) <==> (p.w_castle_kingside && c == 'K') || (p.w_castle_queenside && c == 'Q')
        || (p.b_castle_kingside && c == 'k') || (p.b_castle_queenside && c == 'q')) by {
        lemma_seq_concat_contains_all_elements(wk + wq + bk, bq, c);
        lemma_seq_concat_contains_all_elements(wk + wq, bk, c);
        lemma_seq_concat_contains_all_elements(wk, wq, c);
        lemma_right_text(p.w_castle_kingside, 'K', c);
        lemma_right_text(p.w_castle_queenside, 'Q', c);
        lemma_right_text(p.b_castle_kingside, 'k', c);
        lemma_right_text(p.b_castle_queenside, 'q', c);
        if p.castling_letters().len() == 0 {
            assert(!wk.contains(c) && !wq.contains(c) && !bk.contains(c) && !bq.contains(c)) by {
                assert(wk.len() == 0 && wq.len() == 0 && bk.len() == 0 && bq.len() == 0);
            }
            assert(text[0] != c);
        }
    }
}

/// Each field of the record of a well-formed position holds at least one
/// character and no white space.
pub proof fn lemma_fields_plain(p: Position)
    requires
        p.wf(),
    ensures
        p.fields().len() == 6,
        forall|i: int|
            0 <= i < 6 ==> (#[trigger] p.fields()[i]).len() > 0 && free_of(
                p.fields()[i],
                whitespace(),
            ),
{
    let f = p.fields();
    let placement = placement_text(p.squares);
    assert(placement.len() > 0 && free_of(placement, whitespace())) by {
        lemma_placement_text(p.squares);
        assert forall|i: int| 0 <= i < placement.len() implies !whitespace()(
            #[trigger] placement[i],
        ) by {
            assert(placement_symbol()(placement[i]));
            if placement[i] != '/' {
                lemma_rank_symbol_plain(placement[i]);
            }
        }
        let texts = Seq::new(p.squares.len(), |i: int| rank_text(p.squares[i]));
        assert(placement == join(texts.drop_last(), '/') + seq!['/'] + texts.last());
    }
    assert(f[3].len() > 0 && free_of(f[3], whitespace()));
    lemma_castling_text(p);
    lemma_decimal(p.fullmoves as nat);
    lemma_decimal(p.halfmoves as nat);
    assert forall|i: int| 0 <= i < f[4].len() implies !whitespace()(#[trigger] f[4][i]) by {
        assert(is_digit(f[4][i]));
    }
    assert forall|i: int| 0 <= i < f[5].len() implies !whitespace()(#[trigger] f[5][i]) by {
        assert(is_digit(f[5][i]));
    }
}

/// Reading inverts writing: the record of a well-formed position denotes
/// that position, field for field.
pub proof fn theorem_decode_encode(p: Position)
    requires
        p.wf(),
    ensures
        decode(encode(p)) == Ok::<Position, ParseError>(p),
{
    let f = p.fields();
    lemma_fields_plain(p);
    lemma_tokens_join(f);
    assert(tokens(encode(p)) == f);
    lemma_placement_text(p.squares);
    lemma_castling_text(p);
    lemma_coordinate_notation(p.en_passant);
    lemma_counter_decimal(p.fullmoves);
    lemma_counter_decimal(p.halfmoves);
    assert(side(f[1]) == Some(p.to_move)) by {
        assert(f[1][0] == 'w' || f[1][0] == 'b');
        assert(seq!['w'][0] == 'w');
    }
    assert(decode(encode(p)) is Ok);
    assert(decode(encode(p))->Ok_0 =~= p);
}

/// Whatever a text denotes as a position is well formed.
pub proof fn theorem_decode_wf(s: Seq<char>)
    ensures
        decode(s) matches Ok(p) ==> p.wf(),
{
}

/// A text with fewer than six words is rejected for the first field that is
/// absent; with exactly five words that is the sixth field, the half-move
/// clock.
pub proof fn theorem_missing_field(s: Seq<char>)
    requires
        tokens(s).len() < 6,
    ensures
        decode(s) == Err::<Position, ParseError>(
            ParseError::MissingField(Field::at(tokens(s).len() as int)),
        ),
        tokens(s).len() == 5 ==> decode(s) == Err::<Position, ParseError>(
            ParseError::MissingField(Field::Halfmove),
        ),
{
}

/// A record whose piece placement holds the digit `0` or the digit `9` is
/// rejected for an invalid rank symbol.
pub proof fn theorem_run_length_out_of_range(s: Seq<char>, i: int)
    requires
        tokens(s).len() >= 6,
        0 <= i < tokens(s)[0].len(),
        tokens(s)[0][i] == '0' || tokens(s)[0][i] == '9',
    ensures
        decode(s) == Err::<Position, ParseError>(ParseError::InvalidRankSymbol),
{
    let c = tokens(s)[0][i];
    if Piece::from_fen_letter(c) is Some {
        lemma_fen_letter_is_letter(Piece::from_fen_letter(c)->0);
    }
    assert(!placement_symbol()(c));
}

/// A record with a piece placement that is accepted and a side to move that
/// is neither `w` nor `b` is rejected for an invalid side to move, whatever
/// its other fields hold.
pub proof fn theorem_side_to_move_rejected(s: Seq<char>)
    requires
        tokens(s).len() >= 6,
        every(tokens(s)[0], placement_symbol()),
        is_board_shape(placement_squares(tokens(s)[0])),
        tokens(s)[1] != seq!['w'],
        tokens(s)[1] != seq!['b'],
    ensures
        decode(s) == Err::<Position, ParseError>(ParseError::InvalidSideToMove),
{
}

} // verus!
