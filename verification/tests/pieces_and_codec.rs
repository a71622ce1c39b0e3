use chess_engine::{Board, Colour, Piece, PieceType};

// Text -> numeric -> text reproduces the original text for all 64 squares.
#[test]
fn coordinate_round_trip_all_squares() {
    let files = ['a', 'b', 'c', 'd', 'e', 'f', 'g', 'h'];
    let ranks = ['1', '2', '3', '4', '5', '6', '7', '8'];
    for f in files {
        for r in ranks {
            let mut text = String::new();
            text.push(f);
            text.push(r);
            let coords = Board::filerank_to_num(&text);
            assert_eq!(Board::num_to_filerank(&coords), text);
        }
    }
}

// Numeric -> text -> numeric reproduces the pair for all 64 squares.
#[test]
fn coordinate_round_trip_numeric() {
    for x in 0..8i8 {
        for y in 0..8i8 {
            let text = Board::num_to_filerank(&(x, y));
            assert_eq!(Board::filerank_to_num(&text), (x, y));
        }
    }
}

// Spot checks of the codec's orientation: rank 8 is row 0.
#[test]
fn codec_orientation() {
    assert_eq!(Board::filerank_to_num(&String::from("a8")), (0, 0));
    assert_eq!(Board::filerank_to_num(&String::from("h1")), (7, 7));
    assert_eq!(Board::filerank_to_num(&String::from("e2")), (4, 6));
    assert_eq!(Board::num_to_filerank(&(4, 6)), "e2");
}

// Decoding a packed byte: 0x83 is a black pawn that has not moved.
#[test]
fn piece_from_u8_decodes_fields() {
    let p = Piece::from_u8(0x83);
    assert_eq!(p.get_colour(), Colour::Black);
    assert_eq!(p.get_type(), PieceType::Pawn);
    assert!(p.has_not_moved);
    assert!(!p.en_passant);
    assert_eq!(p.as_u8(), 0x83);
}

// Encoding mirrors decoding across the piece kinds.
#[test]
fn piece_u8_round_trip() {
    for byte in [0x00u8, 0x02, 0x05, 0x07, 0x82, 0x89, 0x8B, 0x8C, 0x8D, 0xA2] {
        assert_eq!(Piece::from_u8(byte).as_u8(), byte);
    }
}

// A freshly built piece has both transient flags cleared.
#[test]
fn piece_new_clears_flags() {
    let p = Piece::new(Colour::White, PieceType::Rook);
    assert_eq!(p.get_piece_data(), (Colour::White, PieceType::Rook));
    assert!(!p.has_not_moved);
    assert!(!p.en_passant);
}

// Changing the kind keeps colour and flags; changing it to the empty kind
// resets the whole piece to the empty sentinel.
#[test]
fn set_type_and_set_to_none() {
    let mut p = Piece::from_u8(0x83);
    p.set_type(PieceType::Queen);
    assert_eq!(p.get_colour(), Colour::Black);
    assert_eq!(p.get_type(), PieceType::Queen);
    assert!(p.has_not_moved);

    p.set_to_none();
    assert_eq!(p.get_type(), PieceType::Empty);
    assert_eq!(p.get_colour(), Colour::White);
    assert_eq!(p.as_u8(), 0);
}

// Overwriting a piece with a packed byte.
#[test]
fn set_data_overwrites() {
    let mut p = Piece::new(Colour::White, PieceType::Pawn);
    p.set_data(0x8C);
    assert_eq!(p.get_piece_data(), (Colour::White, PieceType::King));
    assert!(p.has_not_moved);
}

// Display glyphs per kind.
#[test]
fn icons_by_kind() {
    assert_eq!(Piece::new(Colour::White, PieceType::Pawn).get_icon(), 'P');
    assert_eq!(Piece::new(Colour::Black, PieceType::Knight).get_icon(), 'N');
    assert_eq!(Piece::new(Colour::White, PieceType::Bishop).get_icon(), 'B');
    assert_eq!(Piece::new(Colour::Black, PieceType::Rook).get_icon(), 'R');
    assert_eq!(Piece::new(Colour::White, PieceType::Queen).get_icon(), 'Q');
    assert_eq!(Piece::new(Colour::Black, PieceType::King).get_icon(), 'K');
    assert_eq!(Piece::from_u8(0).get_icon(), '\u{25a0}');
}

// The standard starting board, square by square spot checks.
#[test]
fn starting_board_layout() {
    let board = Board::new();
    assert_eq!(board.piece_at((0, 0)).get_piece_data(), (Colour::Black, PieceType::Rook));
    assert_eq!(board.piece_at((4, 0)).get_piece_data(), (Colour::Black, PieceType::King));
    assert_eq!(board.piece_at((3, 0)).get_piece_data(), (Colour::Black, PieceType::Queen));
    assert_eq!(board.piece_at((2, 6)).get_piece_data(), (Colour::White, PieceType::Pawn));
    assert_eq!(board.piece_at((4, 7)).get_piece_data(), (Colour::White, PieceType::King));
    assert!(board.is_empty((4, 4)));
}

// The debug board holds only the two kings.
#[test]
fn empty_board_has_only_kings() {
    let board = Board::new_empty();
    let mut pieces = 0;
    for x in 0..8i8 {
        for y in 0..8i8 {
            if !board.is_empty((x, y)) {
                pieces += 1;
            }
        }
    }
    assert_eq!(pieces, 2);
    assert_eq!(board.piece_at((4, 0)).get_piece_data(), (Colour::Black, PieceType::King));
    assert_eq!(board.piece_at((4, 7)).get_piece_data(), (Colour::White, PieceType::King));
}

// The mutable accessor exposes the same piece the read accessor shows, and
// writing through it changes the square.
#[test]
fn mut_piece_at_edits_in_place() {
    let mut board = Board::new();
    assert_eq!(board.piece_at((0, 6)).get_type(), PieceType::Pawn);
    board.mut_piece_at((0, 6)).set_type(PieceType::Queen);
    assert_eq!(board.piece_at((0, 6)).get_type(), PieceType::Queen);
    assert_eq!(board.piece_at((0, 6)).get_colour(), Colour::White);
}
