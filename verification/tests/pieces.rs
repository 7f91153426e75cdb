use chess_fen::piece::{Color, Piece, PieceType};
use chess_fen::placement::piece_to_fen;

const KINDS: [PieceType; 6] = [
    PieceType::Pawn,
    PieceType::Knight,
    PieceType::Bishop,
    PieceType::Rook,
    PieceType::Queen,
    PieceType::King,
];

#[test]
fn piece_keeps_color_and_kind() {
    for color in [Color::White, Color::Black] {
        for kind in KINDS {
            let piece = Piece::new(color, kind);
            assert_eq!(piece.get_color(), color);
            assert_eq!(piece.get_type(), kind);
            assert_eq!(piece, Piece { color, piece: kind });
        }
    }
}

#[test]
fn pieces_are_equal_by_value() {
    let a = Piece::new(Color::White, PieceType::Queen);
    let b = Piece::new(Color::White, PieceType::Queen);
    assert_eq!(a, b);
    assert_ne!(a, Piece::new(Color::Black, PieceType::Queen));
    assert_ne!(a, Piece::new(Color::White, PieceType::King));
}

#[test]
fn display_symbols() {
    let white = ['\u{2659}', '\u{2658}', '\u{2657}', '\u{2656}', '\u{2655}', '\u{2654}'];
    let black = ['\u{265F}', '\u{265E}', '\u{265D}', '\u{265C}', '\u{265B}', '\u{265A}'];
    for (i, kind) in KINDS.into_iter().enumerate() {
        assert_eq!(Piece::new(Color::White, kind).to_display_symbol(), white[i]);
        assert_eq!(Piece::new(Color::Black, kind).to_display_symbol(), black[i]);
    }
    assert_eq!(Piece::new(Color::White, PieceType::Pawn).to_display_symbol(), '♙');
    assert_eq!(Piece::new(Color::Black, PieceType::Pawn).to_display_symbol(), '♟');
    assert_eq!(Piece::new(Color::White, PieceType::Knight).to_display_symbol(), '♘');
    assert_eq!(Piece::new(Color::Black, PieceType::Knight).to_display_symbol(), '♞');
    assert_eq!(Piece::new(Color::White, PieceType::Bishop).to_display_symbol(), '♗');
    assert_eq!(Piece::new(Color::Black, PieceType::Bishop).to_display_symbol(), '♝');
    assert_eq!(Piece::new(Color::White, PieceType::Rook).to_display_symbol(), '♖');
    assert_eq!(Piece::new(Color::Black, PieceType::Rook).to_display_symbol(), '♜');
    assert_eq!(Piece::new(Color::White, PieceType::Queen).to_display_symbol(), '♕');
    assert_eq!(Piece::new(Color::Black, PieceType::Queen).to_display_symbol(), '♛');
    assert_eq!(Piece::new(Color::White, PieceType::King).to_display_symbol(), '♔');
    assert_eq!(Piece::new(Color::Black, PieceType::King).to_display_symbol(), '♚');
}

#[test]
fn fen_letters() {
    let lower = ["p", "n", "b", "r", "q", "k"];
    for (i, kind) in KINDS.into_iter().enumerate() {
        assert_eq!(piece_to_fen(&Piece::new(Color::Black, kind)), lower[i]);
        assert_eq!(piece_to_fen(&Piece::new(Color::White, kind)), lower[i].to_uppercase());
    }
}

#[test]
fn letters_name_pieces() {
    for color in [Color::White, Color::Black] {
        for kind in KINDS {
            let piece = Piece::new(color, kind);
            let letter = piece_to_fen(&piece).chars().next().unwrap();
            assert_eq!(Piece::from_letter(letter), Some(piece));
        }
    }
    for c in ['1', '8', '/', ' ', '-', 'a', 'x', 'P'.to_ascii_lowercase(), '\u{2654}'] {
        let expected = if c == 'p' { Some(Piece::new(Color::Black, PieceType::Pawn)) } else { None };
        assert_eq!(Piece::from_letter(c), expected);
    }
}
