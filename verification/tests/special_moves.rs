use chess_engine::{Board, Colour, Game, GameState, MoveError, PieceType};

// Playing the en-passant capture removes the passed-over pawn from the
// board, not only the square the capturer lands on.
#[test]
fn en_passant_capture_removes_pawn() {
    let mut game = Game::new();

    game._then("e2", "e4");
    game._then("e7", "e6");
    game._then("e4", "e5");
    game._then("d7", "d5");

    assert_eq!(game.get_possible_moves(String::from("e5")).unwrap(), vec!["d6"]);

    game._then("e5", "d6");

    // the capturing pawn stands on d6 and the passed-over pawn on d5 is gone
    assert_eq!(game.board.piece_at((3, 2)).get_type(), PieceType::Pawn);
    assert_eq!(game.board.piece_at((3, 2)).get_colour(), Colour::White);
    assert!(game.board.is_empty((3, 3)));
}

// The en-passant window lasts exactly one half-move: once the flagged pawn's
// side has moved again, the capture is no longer offered.
#[test]
fn en_passant_expires_after_one_half_move() {
    let mut game = Game::new();

    game._then("e2", "e4");
    game._then("e7", "e6");
    game._then("e4", "e5");
    game._then("d7", "d5");
    game._then("a2", "a3");
    game._then("a7", "a6");

    assert_eq!(game.get_possible_moves(String::from("e5")).unwrap().len(), 0);
}

// Kingside castling is offered once the squares between king and rook are
// free and the king's walk is safe, and playing it relocates the rook too.
#[test]
fn kingside_castle_moves_both_pieces() {
    let mut game = Game::new();

    game._then("e2", "e4");
    game._then("e7", "e5");
    game._then("g1", "f3");
    game._then("b8", "c6");
    game._then("f1", "c4");
    game._then("g8", "f6");

    assert_eq!(game.get_possible_moves(String::from("e1")).unwrap(), vec!["e2", "f1", "g1"]);

    let state = game.make_move(String::from("e1"), String::from("g1"));
    assert_eq!(state, Ok(GameState::InProgress));

    // king on g1, rook moved from h1 to f1
    assert_eq!(game.board.piece_at((6, 7)).get_type(), PieceType::King);
    assert_eq!(game.board.piece_at((5, 7)).get_type(), PieceType::Rook);
    assert!(game.board.is_empty((7, 7)));
    assert!(game.board.is_empty((4, 7)));
}

// Castling is not offered while an enemy piece attacks a square the king
// would cross.
#[test]
fn castle_refused_through_attacked_square() {
    let mut game = Game::new();

    game._then("e2", "e4");
    game._then("g8", "f6");
    game._then("g1", "f3");
    game._then("f6", "g4");
    game._then("f1", "c4");
    game._then("g4", "e3");

    // Black's knight on e3 attacks f1, a square the castling king would
    // cross, so the castle is not offered
    let moves = game.get_possible_moves(String::from("e1")).unwrap();
    assert!(!moves.contains(&String::from("g1")));
    assert_eq!(moves, vec!["e2"]);
}

// An unrecognized promotion name is silently ignored: the piece keeps its
// kind and the game state is unchanged.
#[test]
fn unknown_promotion_name_is_ignored() {
    let mut game = Game::new_empty();

    game._and_add_at("a7", Colour::White, PieceType::Pawn);
    game._then("a7", "a8");
    game._and_promote("a8", "princess");

    assert_eq!(game.board.piece_at((0, 0)).get_type(), PieceType::Pawn);
    assert_eq!(game.get_game_state(), GameState::InProgress);
}

// Promotion names are compared case-insensitively.
#[test]
fn promotion_name_is_case_insensitive() {
    let mut game = Game::new_empty();

    game._and_add_at("a7", Colour::White, PieceType::Pawn);
    game._then("a7", "a8");
    game._and_promote("a8", "QuEeN");

    assert_eq!(game.board.piece_at((0, 0)).get_type(), PieceType::Queen);
    assert_eq!(game.get_game_state(), GameState::Check);
}

// Promotion keeps the piece's colour: only the kind changes.
#[test]
fn promotion_keeps_colour() {
    let mut game = Game::new_empty();

    game._and_add_at("a7", Colour::White, PieceType::Pawn);
    game._then("a7", "a8");
    game._and_promote("a8", "rook");

    assert_eq!(game.board.piece_at((0, 0)).get_colour(), Colour::White);
    assert_eq!(game.board.piece_at((0, 0)).get_type(), PieceType::Rook);
}

// A move from an empty square fails with the incorrect-turn error.
#[test]
fn move_from_empty_square_is_incorrect_turn() {
    let mut game = Game::new();

    assert_eq!(
        game.make_move(String::from("d4"), String::from("d5")),
        Err(MoveError::IncorrectTurn)
    );
}

// A destination outside the legal set fails with the illegal-move error and
// leaves the board untouched.
#[test]
fn illegal_destination_is_rejected() {
    let mut game = Game::new();

    assert_eq!(
        game.make_move(String::from("d2"), String::from("d5")),
        Err(MoveError::IllegalMove)
    );
    assert_eq!(game.board.piece_at((3, 6)).get_type(), PieceType::Pawn);
    assert_eq!(game.active_colour, Colour::White);
}

// Capturing the enemy king ends the game.
#[test]
fn king_capture_ends_game() {
    let mut game = Game::new_empty();

    game._and_add_at("e7", Colour::White, PieceType::Rook);

    let state = game.make_move(String::from("e7"), String::from("e8"));
    assert_eq!(state, Ok(GameState::GameOver));
    assert_eq!(game.get_game_state(), GameState::GameOver);
}

// The standard starting board has its kings where get_king says.
#[test]
fn kings_found_on_their_squares() {
    let game = Game::new();

    assert_eq!(game.board.get_king(Colour::White), (4, 7));
    assert_eq!(game.board.get_king(Colour::Black), (4, 0));
}

// Bounds checking of coordinates.
#[test]
fn within_bounds_checks_both_components() {
    assert!(Board::within_bounds((0, 0)));
    assert!(Board::within_bounds((7, 7)));
    assert!(!Board::within_bounds((-1, 3)));
    assert!(!Board::within_bounds((3, 8)));
}
