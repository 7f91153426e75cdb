use chess_fen::board::{has_board_shape, Board};
use chess_fen::error::{Field, ParseError};
use chess_fen::piece::{Color, Piece, PieceType};

const START: &str = "rnbqkbnr/pppppppp/8/8/8/8/PPPPPPPP/RNBQKBNR w KQkq - 0 1";

fn piece(color: Color, kind: PieceType) -> Option<Piece> {
    Some(Piece::new(color, kind))
}

fn back_rank(color: Color) -> Vec<Option<Piece>> {
    vec![
        piece(color, PieceType::Rook),
        piece(color, PieceType::Knight),
        piece(color, PieceType::Bishop),
        piece(color, PieceType::Queen),
        piece(color, PieceType::King),
        piece(color, PieceType::Bishop),
        piece(color, PieceType::Knight),
        piece(color, PieceType::Rook),
    ]
}

fn start_board() -> Board {
    Board {
        squares: vec![
            back_rank(Color::Black),
            vec![piece(Color::Black, PieceType::Pawn); 8],
            vec![None; 8],
            vec![None; 8],
            vec![None; 8],
            vec![None; 8],
            vec![piece(Color::White, PieceType::Pawn); 8],
            back_rank(Color::White),
        ],
        to_move: Color::White,
        w_castle_kingside: true,
        w_castle_queenside: true,
        b_castle_kingside: true,
        b_castle_queenside: true,
        en_passant: None,
        halfmoves: 1,
        fullmoves: 0,
    }
}

#[test]
fn test_start_fen() {
    let board =
        Board::from_fen("rnbqkbnr/pppppppp/8/8/8/8/PPPPPPPP/RNBQKBNR w KQkq - 0 1").unwrap();
    assert_eq!(board.to_move, Color::White);
    assert!(board.w_castle_kingside);
    assert!(board.w_castle_queenside);
    assert!(board.b_castle_kingside);
    assert!(board.b_castle_queenside);
    assert_eq!(board.en_passant, None);
    assert_eq!(board.fullmoves, 0);
    assert_eq!(board.halfmoves, 1);
}

#[test]
fn test_bad_fen() {
    let board = Board::from_fen("rnbqkbnr/pppppppp/8/8/8/8/PPPPPPPP/RNBQKBNR c KQkq - 0 1");
    let expected = Err::<Board, &str>("FEN parse error: to move color invalid");
    assert_eq!(board.err().map(|e| e.message()), expected.err());
}

#[test]
fn fen_convert() {
    let board =
        Board::from_fen("rnbqkbnr/pppppppp/8/8/8/8/PPPPPPPP/RNBQKBNR w KQkq - 0 1").unwrap();
    assert_eq!(
        board.to_fen().as_str(),
        "rnbqkbnr/pppppppp/8/8/8/8/PPPPPPPP/RNBQKBNR w KQkq - 0 1"
    );
}

#[test]
fn start_position_squares() {
    let board = Board::from_fen(START).unwrap();
    assert_eq!(board, start_board());
    assert!(board.is_well_formed());
}

#[test]
fn start_position_record() {
    assert_eq!(start_board().to_fen(), "rnbqkbnr/pppppppp/8/8/8/8/PPPPPPPP/RNBQKBNR w KQkq - 0 1");
}

#[test]
fn bad_side_to_move_is_typed() {
    assert_eq!(
        Board::from_fen("rnbqkbnr/pppppppp/8/8/8/8/PPPPPPPP/RNBQKBNR c KQkq - 0 1"),
        Err(ParseError::InvalidSideToMove)
    );
    // The side to move is examined before the fields that follow it.
    assert_eq!(
        Board::from_fen("8/8/8/8/8/8/8/8 white KQkq z9 x y"),
        Err(ParseError::InvalidSideToMove)
    );
    assert_eq!(Board::from_fen("8/8/8/8/8/8/8/8 W - - 0 1"), Err(ParseError::InvalidSideToMove));
    assert_eq!(Board::from_fen("8/8/8/8/8/8/8/8 wb - - 0 1"), Err(ParseError::InvalidSideToMove));
    // The piece placement is examined before the side to move.
    assert_eq!(
        Board::from_fen("8/8/8/8/8/8/8/9 c KQkq - 0 1"),
        Err(ParseError::InvalidRankSymbol)
    );
}

#[test]
fn black_to_move() {
    let board = Board::from_fen("8/8/8/8/8/8/8/8 b - - 0 1").unwrap();
    assert_eq!(board.to_move, Color::Black);
    assert_eq!(board.to_fen(), "8/8/8/8/8/8/8/8 b - - 0 1");
}

#[test]
fn counters_keep_their_places() {
    // The fifth field is the full-move number, the sixth the half-move clock.
    let board = Board::from_fen("8/8/8/8/8/8/8/8 w - - 3 7").unwrap();
    assert_eq!(board.fullmoves, 3);
    assert_eq!(board.halfmoves, 7);
    assert_eq!(board.to_fen(), "8/8/8/8/8/8/8/8 w - - 3 7");
}

#[test]
fn round_trip_from_text() {
    let records = [
        START,
        "rnbqkbnr/pppp1ppp/8/4p3/4P3/8/PPPP1PPP/RNBQKBNR w KQkq e6 0 2",
        "r3k2r/8/8/8/8/8/8/R3K2R b Kq - 12 34",
        "8/8/8/8/8/8/8/8 w - - 0 1",
        "4k3/8/8/8/8/8/8/4K3 b - a1 4294967295 0",
        "1p1p1p1p/p1p1p1p1/1P1P1P1P/P1P1P1P1/2n5/5N2/q6Q/7k w Qk h8 10 100",
    ];
    for record in records {
        let board = Board::from_fen(record).unwrap();
        assert!(board.is_well_formed());
        assert_eq!(board.to_fen(), record);
        assert_eq!(Board::from_fen(&board.to_fen()), Ok(board));
    }
}

#[test]
fn round_trip_from_position() {
    let mut board = start_board();
    board.squares[4][4] = piece(Color::White, PieceType::Pawn);
    board.squares[6][4] = None;
    board.to_move = Color::Black;
    board.w_castle_queenside = false;
    board.b_castle_kingside = false;
    board.en_passant = Some((4, 2));
    board.halfmoves = 40;
    board.fullmoves = 1234567;
    assert!(board.is_well_formed());
    let text = board.to_fen();
    assert_eq!(text, "rnbqkbnr/pppppppp/8/8/4P3/8/PPPP1PPP/RNBQKBNR b Kq e3 1234567 40");
    assert_eq!(Board::from_fen(&text), Ok(board));
}

#[test]
fn no_castling_rights_is_a_dash() {
    let mut board = start_board();
    board.w_castle_kingside = false;
    board.w_castle_queenside = false;
    board.b_castle_kingside = false;
    board.b_castle_queenside = false;
    assert_eq!(board.build_castle_fen(), "-");
    let text = board.to_fen();
    assert_eq!(text, "rnbqkbnr/pppppppp/8/8/8/8/PPPPPPPP/RNBQKBNR w - - 0 1");
    assert_eq!(Board::from_fen(&text), Ok(board));
}

#[test]
fn castling_rights_are_independent() {
    let flags = [false, true];
    for wk in flags {
        for wq in flags {
            for bk in flags {
                for bq in flags {
                    let mut board = start_board();
                    board.w_castle_kingside = wk;
                    board.w_castle_queenside = wq;
                    board.b_castle_kingside = bk;
                    board.b_castle_queenside = bq;
                    let mut expected = String::new();
                    if wk {
                        expected.push('K');
                    }
                    if wq {
                        expected.push('Q');
                    }
                    if bk {
                        expected.push('k');
                    }
                    if bq {
                        expected.push('q');
                    }
                    if expected.is_empty() {
                        expected.push('-');
                    }
                    assert_eq!(board.build_castle_fen(), expected);
                    assert_eq!(Board::from_fen(&board.to_fen()), Ok(board));
                }
            }
        }
    }
}

#[test]
fn castling_field_is_searched_for_letters() {
    let board = Board::from_fen("8/8/8/8/8/8/8/8 w qK - 0 1").unwrap();
    assert!(board.w_castle_kingside);
    assert!(!board.w_castle_queenside);
    assert!(!board.b_castle_kingside);
    assert!(board.b_castle_queenside);
    // Other characters are ignored.
    let board = Board::from_fen("8/8/8/8/8/8/8/8 w xQ?k9 - 0 1").unwrap();
    assert!(!board.w_castle_kingside);
    assert!(board.w_castle_queenside);
    assert!(board.b_castle_kingside);
    assert!(!board.b_castle_queenside);
    let board = Board::from_fen("8/8/8/8/8/8/8/8 w - - 0 1").unwrap();
    assert!(!board.w_castle_kingside);
    assert!(!board.w_castle_queenside);
    assert!(!board.b_castle_kingside);
    assert!(!board.b_castle_queenside);
}

#[test]
fn en_passant_square() {
    let board = Board::from_fen("8/8/8/8/8/8/8/8 w - e3 0 1").unwrap();
    assert_eq!(board.en_passant, Some((4, 2)));
    let board = Board::from_fen("8/8/8/8/8/8/8/8 w - - 0 1").unwrap();
    assert_eq!(board.en_passant, None);
    let board = Board::from_fen("8/8/8/8/8/8/8/8 w - a1 0 1").unwrap();
    assert_eq!(board.en_passant, Some((0, 0)));
    let board = Board::from_fen("8/8/8/8/8/8/8/8 w - h8 0 1").unwrap();
    assert_eq!(board.en_passant, Some((7, 7)));
}

#[test]
fn en_passant_failures() {
    let row = Err(ParseError::InvalidRow);
    let column = Err(ParseError::InvalidColumn);
    assert_eq!(Board::from_fen("8/8/8/8/8/8/8/8 w - e9 0 1"), row);
    assert_eq!(Board::from_fen("8/8/8/8/8/8/8/8 w - e0 0 1"), row);
    assert_eq!(Board::from_fen("8/8/8/8/8/8/8/8 w - e 0 1"), row);
    assert_eq!(Board::from_fen("8/8/8/8/8/8/8/8 w - e33 0 1"), row);
    assert_eq!(Board::from_fen("8/8/8/8/8/8/8/8 w - -- 0 1"), row);
    assert_eq!(Board::from_fen("8/8/8/8/8/8/8/8 w - i3 0 1"), column);
    assert_eq!(Board::from_fen("8/8/8/8/8/8/8/8 w - E3 0 1"), column);
    assert_eq!(Board::from_fen("8/8/8/8/8/8/8/8 w - 33 0 1"), column);
    // The rank is examined before the file.
    assert_eq!(Board::from_fen("8/8/8/8/8/8/8/8 w - z9 0 1"), row);
    // The en-passant square is examined before the counters.
    assert_eq!(Board::from_fen("8/8/8/8/8/8/8/8 w - i3 x y"), column);
}

#[test]
fn missing_fields() {
    let cases = [
        ("", Field::Pieces),
        ("  \t ", Field::Pieces),
        ("8/8/8/8/8/8/8/8", Field::SideToMove),
        ("8/8/8/8/8/8/8/8 w", Field::Castling),
        ("8/8/8/8/8/8/8/8 w KQkq", Field::EnPassant),
        ("8/8/8/8/8/8/8/8 w KQkq -", Field::Fullmove),
        ("8/8/8/8/8/8/8/8 w KQkq - 0", Field::Halfmove),
        ("rnbqkbnr/pppppppp/8/8/8/8/PPPPPPPP/RNBQKBNR w KQkq - 0", Field::Halfmove),
        // A missing field is reported before anything is read.
        ("9 c", Field::Castling),
        ("9 c x z9 y", Field::Halfmove),
    ];
    for (text, field) in cases {
        assert_eq!(Board::from_fen(text), Err(ParseError::MissingField(field)));
    }
}

#[test]
fn run_length_out_of_range() {
    let symbol = Err(ParseError::InvalidRankSymbol);
    assert_eq!(Board::from_fen("rnbqkbnr/pppppppp/0/8/8/8/PPPPPPPP/RNBQKBNR w KQkq - 0 1"), symbol);
    assert_eq!(Board::from_fen("rnbqkbnr/pppppppp/9/8/8/8/PPPPPPPP/RNBQKBNR w KQkq - 0 1"), symbol);
    assert_eq!(Board::from_fen("rnbqkbnr/pppppppp/80/8/8/8/PPPPPPPP/RNBQKBNR w KQkq - 0 1"), symbol);
    assert_eq!(Board::from_fen("9 w - - 0 1"), symbol);
    assert_eq!(Board::from_fen("0 w - - 0 1"), symbol);
}

#[test]
fn invalid_rank_symbols() {
    let symbol = Err(ParseError::InvalidRankSymbol);
    assert_eq!(Board::from_fen("rnbqkbnr/pppppppp/8/8/8/8/PPPPPPPP/RNBQKBNX w KQkq - 0 1"), symbol);
    assert_eq!(Board::from_fen("8/8/8/8/8/8/8/7- w - - 0 1"), symbol);
    assert_eq!(Board::from_fen("8/8/8/8/8/8/8/7\u{2654} w - - 0 1"), symbol);
    // A wrong symbol is reported before a wrong shape.
    assert_eq!(Board::from_fen("8/8/x w - - 0 1"), symbol);
    assert_eq!(Board::from_fen("44444/8/8/8/8/8/8/a w - - 0 1"), symbol);
}

#[test]
fn malformed_ranks() {
    let shape = Err(ParseError::MalformedRank);
    assert_eq!(Board::from_fen("8/8/8/8/8/8/8 w - - 0 1"), shape);
    assert_eq!(Board::from_fen("8/8/8/8/8/8/8/8/8 w - - 0 1"), shape);
    assert_eq!(Board::from_fen("8/8/8/8/8/8/8/7 w - - 0 1"), shape);
    assert_eq!(Board::from_fen("8/8/8/8/8/8/8/81 w - - 0 1"), shape);
    assert_eq!(Board::from_fen("8/8/8/8//8/8/8 w - - 0 1"), shape);
    assert_eq!(Board::from_fen("/8/8/8/8/8/8/8/8 w - - 0 1"), shape);
    assert_eq!(Board::from_fen("8/8/8/8/8/8/8/8/ w - - 0 1"), shape);
    assert_eq!(Board::from_fen("pppppppp w - - 0 1"), shape);
    // A wrong shape is reported before a wrong side to move.
    assert_eq!(Board::from_fen("8/8/8/8/8/8/8/7 c - - 0 1"), shape);
}

#[test]
fn run_lengths_add_up() {
    let board = Board::from_fen("44/1232/11111111/p7/7p/3P4/2p2P2/1111p111 w - - 0 1").unwrap();
    assert!(has_board_shape(&board.squares));
    assert_eq!(board.squares[0], vec![None; 8]);
    assert_eq!(board.squares[1], vec![None; 8]);
    assert_eq!(board.squares[2], vec![None; 8]);
    assert_eq!(board.squares[3][0], piece(Color::Black, PieceType::Pawn));
    assert_eq!(board.squares[4][7], piece(Color::Black, PieceType::Pawn));
    assert_eq!(board.squares[5][3], piece(Color::White, PieceType::Pawn));
    // Written back, each run of empty squares is one digit.
    assert_eq!(board.to_fen(), "8/8/8/p7/7p/3P4/2p2P2/4p3 w - - 0 1");
}

#[test]
fn invalid_numbers() {
    let full = Err(ParseError::InvalidNumber(Field::Fullmove));
    let half = Err(ParseError::InvalidNumber(Field::Halfmove));
    assert_eq!(Board::from_fen("8/8/8/8/8/8/8/8 w - - x 1"), full);
    assert_eq!(Board::from_fen("8/8/8/8/8/8/8/8 w - - -1 1"), full);
    assert_eq!(Board::from_fen("8/8/8/8/8/8/8/8 w - - 1.5 1"), full);
    assert_eq!(Board::from_fen("8/8/8/8/8/8/8/8 w - - + 1"), full);
    assert_eq!(Board::from_fen("8/8/8/8/8/8/8/8 w - - ++1 1"), full);
    assert_eq!(Board::from_fen("8/8/8/8/8/8/8/8 w - - 4294967296 1"), full);
    assert_eq!(Board::from_fen("8/8/8/8/8/8/8/8 w - - 99999999999999999999 1"), full);
    assert_eq!(Board::from_fen("8/8/8/8/8/8/8/8 w - - \u{663} 1"), full);
    assert_eq!(Board::from_fen("8/8/8/8/8/8/8/8 w - - 0 x"), half);
    assert_eq!(Board::from_fen("8/8/8/8/8/8/8/8 w - - 0 4294967296"), half);
    assert_eq!(Board::from_fen("8/8/8/8/8/8/8/8 w - - 0 1a"), half);
    // The fifth field is examined before the sixth.
    assert_eq!(Board::from_fen("8/8/8/8/8/8/8/8 w - - x y"), full);
}

#[test]
fn numbers_as_the_standard_library_reads_them() {
    let texts = [
        "0", "1", "9", "10", "007", "+5", "+0", "4294967295", "0000000004294967295", "4294967296",
        "+", "-0", "1_0", "12x", "x12", "+-1", "0x10", "1e3",
    ];
    for fifth in texts {
        for sixth in texts {
            let record = format!("8/8/8/8/8/8/8/8 w - - {} {}", fifth, sixth);
            let expected = match (fifth.parse::<u32>(), sixth.parse::<u32>()) {
                (Ok(full), Ok(half)) => Ok((full, half)),
                (Err(_), _) => Err(ParseError::InvalidNumber(Field::Fullmove)),
                (_, Err(_)) => Err(ParseError::InvalidNumber(Field::Halfmove)),
            };
            let got = Board::from_fen(&record).map(|b| (b.fullmoves, b.halfmoves));
            assert_eq!(got, expected, "{}", record);
        }
    }
}

#[test]
fn counters_at_their_limits() {
    let board = Board::from_fen("8/8/8/8/8/8/8/8 w - - 4294967295 +0012").unwrap();
    assert_eq!(board.fullmoves, u32::MAX);
    assert_eq!(board.halfmoves, 12);
    assert_eq!(board.to_fen(), "8/8/8/8/8/8/8/8 w - - 4294967295 12");
}

#[test]
fn fields_are_split_at_white_space() {
    let expected = Board::from_fen(START).unwrap();
    let texts = [
        "  rnbqkbnr/pppppppp/8/8/8/8/PPPPPPPP/RNBQKBNR   w  KQkq -   0 1  ",
        "rnbqkbnr/pppppppp/8/8/8/8/PPPPPPPP/RNBQKBNR\tw\nKQkq\r\n-\u{b}0\u{c}1\n",
        "rnbqkbnr/pppppppp/8/8/8/8/PPPPPPPP/RNBQKBNR\u{3000}w\u{a0}KQkq\u{2003}-\u{85}0\u{2028}1",
        // Words after the sixth are ignored.
        "rnbqkbnr/pppppppp/8/8/8/8/PPPPPPPP/RNBQKBNR w KQkq - 0 1 and more",
    ];
    for text in texts {
        assert!(text.split_whitespace().count() >= 6);
        assert_eq!(Board::from_fen(text).as_ref(), Ok(&expected));
    }
    // A zero-width space is no white space.
    assert_eq!(
        Board::from_fen("8/8/8/8/8/8/8/8\u{200b}w - - 0 1"),
        Err(ParseError::MissingField(Field::Halfmove))
    );
}

#[test]
fn well_formedness_is_checked() {
    assert!(start_board().is_well_formed());
    let mut board = start_board();
    board.squares.pop();
    assert!(!board.is_well_formed());
    assert!(!has_board_shape(&board.squares));
    let mut board = start_board();
    board.squares[3].push(None);
    assert!(!board.is_well_formed());
    let mut board = start_board();
    board.squares[7].pop();
    assert!(!board.is_well_formed());
    let mut board = start_board();
    board.en_passant = Some((8, 0));
    assert!(!board.is_well_formed());
    board.en_passant = Some((0, 8));
    assert!(!board.is_well_formed());
    board.en_passant = Some((7, 7));
    assert!(board.is_well_formed());
}

#[test]
fn pieces_to_fen_writes_the_placement() {
    assert_eq!(start_board().pieces_to_fen(), "rnbqkbnr/pppppppp/8/8/8/8/PPPPPPPP/RNBQKBNR");
    let mut board = start_board();
    board.squares[0] = vec![None; 8];
    board.squares[0][0] = piece(Color::White, PieceType::King);
    board.squares[0][7] = piece(Color::Black, PieceType::King);
    board.squares[1][3] = None;
    assert_eq!(board.pieces_to_fen(), "K6k/ppp1pppp/8/8/8/8/PPPPPPPP/RNBQKBNR");
}

#[test]
fn error_messages() {
    let cases = [
        (ParseError::MissingField(Field::Pieces), "FEN parse error: no pieces found"),
        (ParseError::MissingField(Field::SideToMove), "FEN parse error: no to move color found"),
        (ParseError::MissingField(Field::Castling), "FEN parse error: no castling found"),
        (ParseError::MissingField(Field::EnPassant), "FEN parse error: no en passant found"),
        (ParseError::MissingField(Field::Fullmove), "FEN parse error: no fullmove found"),
        (ParseError::MissingField(Field::Halfmove), "FEN parse error: no halfmove found"),
        (ParseError::InvalidRankSymbol, "FEN parse error: invalid rank symbol"),
        (ParseError::MalformedRank, "FEN parse error: malformed rank"),
        (ParseError::InvalidSideToMove, "FEN parse error: to move color invalid"),
        (ParseError::InvalidColumn, "Coordinate parse error: invalid column"),
        (ParseError::InvalidRow, "Coordinate parse error: invalid row"),
        (ParseError::InvalidNumber(Field::Fullmove), "FEN parse error: fullmove invalid"),
        (ParseError::InvalidNumber(Field::Halfmove), "FEN parse error: halfmove invalid"),
    ];
    for (error, message) in cases {
        assert_eq!(error.message(), message);
    }
}

#[test]
fn field_positions() {
    assert_eq!(Field::from_index(0), Field::Pieces);
    assert_eq!(Field::from_index(1), Field::SideToMove);
    assert_eq!(Field::from_index(2), Field::Castling);
    assert_eq!(Field::from_index(3), Field::EnPassant);
    assert_eq!(Field::from_index(4), Field::Fullmove);
    assert_eq!(Field::from_index(5), Field::Halfmove);
    assert_eq!(Field::from_index(6), Field::Halfmove);
}
