//! A chess rules engine: board representation, per-piece move generation,
//! legality filtering, check detection through attack maps, the special
//! moves (castling, en passant, promotion), and a small game-state machine.
//!
//! The [`Game`] type owns one board, the active colour and the game state,
//! and drives the state machine: a move is validated against the active
//! colour and the legality filter, applied, and the new state derived from
//! whether the opponent king was captured or is now attacked.

pub mod chess;

pub use crate::chess::piece_data::Colour;
pub use crate::chess::piece_data::PieceType;
pub use crate::chess::piece::Piece;
pub use crate::chess::board::Board;

use vstd::prelude::*;
use crate::chess::piece_data::other_colour;
use crate::chess::piece::spec_set_kind;
use crate::chess::board::{
    board_wf, at_sq, has_king, within_xy, king_xy, spec_start_board,
    spec_empty_board, lemma_setup_boards_have_kings,
};
use crate::chess::board_assoc::{valid_square_text, spec_filerank_to_num};
use crate::chess::board_moves::{
    legal_moves_spec, apply_move_spec, move_candidate_ok, lemma_apply_keeps_kings,
};
use crate::chess::threat_map::spec_in_check;

verus! {

/// The three states the game can be in: still playing, the side to move is
/// in check, or over (a king was captured).
#[derive(Copy, Clone, PartialEq, Eq, Structural, Debug)]
pub enum GameState {
    InProgress,
    Check,
    GameOver,
}

/// The two user-visible failures of a move request: the destination is not
/// among the legal moves, or the origin square does not hold a piece of the
/// active colour.
#[derive(Copy, Clone, PartialEq, Eq, Structural, Debug)]
pub enum MoveError {
    IllegalMove,
    IncorrectTurn,
}

/// One game of chess: the board, the colour whose turn it is, and the state.
#[derive(Debug)]
pub struct Game {
    pub board: Board,
    pub active_colour: Colour,
    pub state: GameState,
}

/// A well-formed game: the grid has its sixty-four squares, and while the
/// game is not over each colour still has a king on the board.
pub open spec fn game_wf(g: Game) -> bool {
    &&& board_wf(g.board.board@)
    &&& (g.state != GameState::GameOver ==> has_king(g.board.board@, Colour::White) && has_king(
        g.board.board@,
        Colour::Black,
    ))
}

/// Does the square `fc` hold a piece of the active colour?
pub open spec fn turn_ok(g: Game, fc: (i8, i8)) -> bool {
    at_sq(g.board.board@, fc).kind != PieceType::Empty && at_sq(g.board.board@, fc).colour
        == g.active_colour
}

/// The state the game enters after the active colour plays `fc -> tc`:
/// over if the move captures a king, check if the new side to move stands
/// attacked, in progress otherwise.
pub open spec fn next_state_spec(b0: Seq<Piece>, active: Colour, fc: (i8, i8), tc: (i8, i8)) -> GameState {
    if at_sq(b0, tc).kind == PieceType::King {
        GameState::GameOver
    } else if spec_in_check(apply_move_spec(b0, fc, tc), other_colour(active)) {
        GameState::Check
    } else {
        GameState::InProgress
    }
}

/// What a move request does to the game: nothing at all when the turn
/// check or the legality check fails; otherwise the move is applied, the
/// active colour toggles, and the state machine steps.
pub open spec fn move_transition(pre: Game, post: Game, fc: (i8, i8), tc: (i8, i8)) -> bool {
    if !turn_ok(pre, fc) || !legal_moves_spec(pre.board.board@, fc).contains(tc) {
        post == pre
    } else {
        &&& post.board.board@ == apply_move_spec(pre.board.board@, fc, tc)
        &&& post.active_colour == other_colour(pre.active_colour)
        &&& post.state == next_state_spec(pre.board.board@, pre.active_colour, fc, tc)
    }
}

/// The ASCII-lowercase image of a character.
pub open spec fn lower_char(c: char) -> char {
    if 'A' <= c && c <= 'Z' {
        ((c as int) + 32) as char
    } else {
        c
    }
}

/// Case-insensitive equality of two texts, character by character.
pub open spec fn ci_eq(a: Seq<char>, b: Seq<char>) -> bool {
    a.len() == b.len() && (forall|i: int| 0 <= i < a.len() ==> lower_char(a[i]) == lower_char(
        #[trigger] b[i],
    ))
}

/// The piece kind a promotion name denotes, compared case-insensitively;
/// anything unrecognized denotes nothing.
pub open spec fn promotion_kind_spec(s: Seq<char>) -> Option<PieceType> {
    if ci_eq(s, "queen"@) {
        Some(PieceType::Queen)
    } else if ci_eq(s, "knight"@) {
        Some(PieceType::Knight)
    } else if ci_eq(s, "rook"@) {
        Some(PieceType::Rook)
    } else if ci_eq(s, "bishop"@) {
        Some(PieceType::Bishop)
    } else {
        None
    }
}

/// What a promotion request does to the game: a recognized name changes the
/// kind of the piece on the square, an unrecognized one changes nothing;
/// either way, if the king opposing the square's piece then stands
/// attacked, the game state becomes check.
pub open spec fn promotion_transition(pre: Game, post: Game, sq: (i8, i8), name: Seq<char>) -> bool {
    let b0 = pre.board.board@;
    let idx = sq.1 as int * 8 + sq.0 as int;
    let b1 = match promotion_kind_spec(name) {
        Some(k) => b0.update(idx, spec_set_kind(at_sq(b0, sq), k)),
        None => b0,
    };
    &&& post.board.board@ == b1
    &&& post.active_colour == pre.active_colour
    &&& post.state == (if spec_in_check(b1, other_colour(at_sq(b0, sq).colour)) {
        GameState::Check
    } else {
        pre.state
    })
}

/// Case-insensitive ASCII comparison of two texts.
#[verifier::loop_isolation(false)]
fn eq_ignore_case(a: &str, b: &str) -> (r: bool)
    ensures
        r == ci_eq(a@, b@),
{
    let n = a.unicode_len();
    if n != b.unicode_len() {
        return false;
    }
    let mut i: usize = 0;
    while i < n
        invariant
            i <= n,
            n == a@.len(),
            a@.len() == b@.len(),
            forall|j: int| 0 <= j < i ==> lower_char(a@[j]) == lower_char(#[trigger] b@[j]),
        decreases n - i,
    {
        let ca = a.get_char(i);
        let cb = b.get_char(i);
        let va = ca as u32;
        let vb = cb as u32;
        let la = if va >= 65 && va <= 90 {
            va + 32
        } else {
            va
        };
        let lb = if vb >= 65 && vb <= 90 {
            vb + 32
        } else {
            vb
        };
        if la != lb {
            return false;
        }
        i += 1;
    }
    true
}

impl Game {
    /// A new game: standard starting board, White to move, in progress.
    pub fn new() -> (g: Game)
        ensures
            g.board.board@ == spec_start_board(),
            g.active_colour == Colour::White,
            g.state == GameState::InProgress,
            game_wf(g),
    {
        proof {
            lemma_setup_boards_have_kings();
        }
        Game { board: Board::new(), active_colour: Colour::White, state: GameState::InProgress }
    }

    /// A debug game: an empty board with the two kings on their starting
    /// squares, White to move, in progress.
    pub fn new_empty() -> (g: Game)
        ensures
            g.board.board@ == spec_empty_board(),
            g.active_colour == Colour::White,
            g.state == GameState::InProgress,
            game_wf(g),
    {
        proof {
            lemma_setup_boards_have_kings();
        }
        Game {
            board: Board::new_empty(),
            active_colour: Colour::White,
            state: GameState::InProgress,
        }
    }

    /// Request the move `_from -> _to` for the active colour.  An empty
    /// origin or one holding the other colour's piece fails with
    /// `IncorrectTurn`; a destination outside the piece's legal moves fails
    /// with `IllegalMove`; both leave the game untouched.  Otherwise the
    /// move is applied, the turn passes, and the new game state is stored
    /// and returned.
    pub fn make_move(&mut self, _from: String, _to: String) -> (r: Result<GameState, MoveError>)
        requires
            game_wf(*old(self)),
            old(self).state != GameState::GameOver,
            valid_square_text(_from@),
            valid_square_text(_to@),
        ensures
            game_wf(*final(self)),
            move_transition(
                *old(self),
                *final(self),
                spec_filerank_to_num(_from@),
                spec_filerank_to_num(_to@),
            ),
            ({
                let b0 = old(self).board.board@;
                let fc = spec_filerank_to_num(_from@);
                let tc = spec_filerank_to_num(_to@);
                r == (if !turn_ok(*old(self), fc) {
                    Result::<GameState, MoveError>::Err(MoveError::IncorrectTurn)
                } else if !legal_moves_spec(b0, fc).contains(tc) {
                    Result::<GameState, MoveError>::Err(MoveError::IllegalMove)
                } else {
                    Result::<GameState, MoveError>::Ok(
                        next_state_spec(b0, old(self).active_colour, fc, tc),
                    )
                })
            }),
    {
        let from_c = Board::filerank_to_num(&_from);
        let to_c = Board::filerank_to_num(&_to);
        let mover = self.board.piece_at(from_c);
        if mover.get_type() == PieceType::Empty || mover.get_colour() != self.active_colour {
            return Err(MoveError::IncorrectTurn);
        }
        let legal = self.board.legal_coords(from_c);
        if !Board::contains_square(&legal, to_c) {
            return Err(MoveError::IllegalMove);
        }
        let ghost b0 = self.board.board@;
        let captured = self.board.piece_at(to_c);
        proof {
            let i = choose|i: int| 0 <= i < legal@.len() && legal@[i] == to_c;
            assert(move_candidate_ok(b0, from_c, to_c));
            lemma_apply_keeps_kings(b0, from_c, to_c);
            if at_sq(b0, to_c).kind != PieceType::King {
                let (kx, ky) = choose|kx: int, ky: int|
                    within_xy(kx, ky) && #[trigger] king_xy(
                        b0,
                        kx,
                        ky,
                        other_colour(old(self).active_colour),
                    );
                assert(king_xy(
                    apply_move_spec(b0, from_c, to_c),
                    kx,
                    ky,
                    other_colour(old(self).active_colour),
                ));
            }
        }
        self.board.make_pseudo_legal_move(from_c, to_c);
        self.active_colour = if self.active_colour == Colour::White {
            Colour::Black
        } else {
            Colour::White
        };
        let new_state = if captured.get_type() == PieceType::King {
            GameState::GameOver
        } else if self.board.king_in_check(self.active_colour) {
            GameState::Check
        } else {
            GameState::InProgress
        };
        self.state = new_state;
        Ok(new_state)
    }

    /// Promote the piece on the named square to the named kind.  The names
    /// `queen`, `knight`, `rook` and `bishop` are recognized, compared
    /// case-insensitively; any other name is silently ignored.  Afterwards,
    /// if the king opposing the square's piece stands attacked, the game
    /// state becomes check.
    pub fn set_promotion(&mut self, _square: String, _piece: String)
        requires
            game_wf(*old(self)),
            old(self).state != GameState::GameOver,
            valid_square_text(_square@),
            at_sq(old(self).board.board@, spec_filerank_to_num(_square@)).kind
                != PieceType::King,
        ensures
            game_wf(*final(self)),
            promotion_transition(
                *old(self),
                *final(self),
                spec_filerank_to_num(_square@),
                _piece@,
            ),
    {
        let square_c = Board::filerank_to_num(&_square);
        let piece = self.board.piece_at(square_c);
        let colour = piece.get_colour();
        if eq_ignore_case(_piece.as_str(), "queen") {
            self.board.change_kind(square_c, PieceType::Queen);
        } else if eq_ignore_case(_piece.as_str(), "knight") {
            self.board.change_kind(square_c, PieceType::Knight);
        } else if eq_ignore_case(_piece.as_str(), "rook") {
            self.board.change_kind(square_c, PieceType::Rook);
        } else if eq_ignore_case(_piece.as_str(), "bishop") {
            self.board.change_kind(square_c, PieceType::Bishop);
        }
        let enemy = if colour == Colour::White {
            Colour::Black
        } else {
            Colour::White
        };
        proof {
            let b1 = self.board.board@;
            let (kx, ky) = choose|kx: int, ky: int|
                within_xy(kx, ky) && #[trigger] king_xy(old(self).board.board@, kx, ky, enemy);
            assert(king_xy(b1, kx, ky, enemy));
            let (wx, wy) = choose|wx: int, wy: int|
                within_xy(wx, wy) && #[trigger] king_xy(
                    old(self).board.board@,
                    wx,
                    wy,
                    other_colour(enemy),
                );
            assert(king_xy(b1, wx, wy, other_colour(enemy)));
        }
        if self.board.king_in_check(enemy) {
            self.state = GameState::Check;
        }
    }

    /// The current state of the game.
    pub fn get_game_state(&self) -> (s: GameState)
        ensures
            s == self.state,
    {
        self.state
    }

    /// All legal moves of the piece on the named square, as square names in
    /// the fixed generation order.
    pub fn get_possible_moves(&self, _position: String) -> (r: Option<Vec<String>>)
        requires
            game_wf(*self),
            self.state != GameState::GameOver,
            valid_square_text(_position@),
        ensures
            ({
                let lm = legal_moves_spec(
                    self.board.board@,
                    spec_filerank_to_num(_position@),
                );
                r matches Some(moves) && moves@.len() == lm.len() && (forall|i: int|
                    0 <= i < moves@.len() ==> #[trigger] moves@[i]@
                        == crate::chess::board_assoc::spec_num_to_filerank(lm[i]))
            }),
    {
        Some(self.board.get_legal_moves(&_position))
    }

    /// Play a move and discard the outcome: a chaining helper for tests and
    /// debugging.  The game changes exactly as under `make_move`.
    pub fn _then(&mut self, _from: &str, _to: &str)
        requires
            game_wf(*old(self)),
            old(self).state != GameState::GameOver,
            valid_square_text(_from@),
            valid_square_text(_to@),
        ensures
            game_wf(*final(self)),
            move_transition(
                *old(self),
                *final(self),
                spec_filerank_to_num(_from@),
                spec_filerank_to_num(_to@),
            ),
    {
        let from_s = String::from_str(_from);
        let to_s = String::from_str(_to);
        match self.make_move(from_s, to_s) {
            Ok(_) => (),
            Err(_) => (),
        }
    }

    /// Promote and discard nothing: a chaining helper for tests and
    /// debugging.  The game changes exactly as under `set_promotion`.
    pub fn _and_promote(&mut self, _at: &str, _piece: &str)
        requires
            game_wf(*old(self)),
            old(self).state != GameState::GameOver,
            valid_square_text(_at@),
            at_sq(old(self).board.board@, spec_filerank_to_num(_at@)).kind != PieceType::King,
        ensures
            game_wf(*final(self)),
            promotion_transition(
                *old(self),
                *final(self),
                spec_filerank_to_num(_at@),
                _piece@,
            ),
    {
        let at_s = String::from_str(_at);
        let piece_s = String::from_str(_piece);
        self.set_promotion(at_s, piece_s);
    }

    /// Put a piece from outside the game onto the named square: a fixture
    /// helper for tests and debugging.  It must not overwrite a king.
    pub fn _and_add_at(&mut self, _at: &str, _colour: Colour, _piece_type: PieceType)
        requires
            game_wf(*old(self)),
            valid_square_text(_at@),
            at_sq(old(self).board.board@, spec_filerank_to_num(_at@)).kind != PieceType::King,
        ensures
            game_wf(*final(self)),
            final(self).board.board@ == old(self).board.board@.update(
                spec_filerank_to_num(_at@).1 as int * 8 + spec_filerank_to_num(_at@).0 as int,
                Piece {
                    colour: _colour,
                    kind: _piece_type,
                    has_not_moved: false,
                    en_passant: false,
                },
            ),
            final(self).active_colour == old(self).active_colour,
            final(self).state == old(self).state,
    {
        self.board.set_piece(String::from_str(_at), _colour, _piece_type);
        proof {
            let b0 = old(self).board.board@;
            let b1 = self.board.board@;
            if old(self).state != GameState::GameOver {
                let (kx, ky) = choose|kx: int, ky: int|
                    within_xy(kx, ky) && #[trigger] king_xy(b0, kx, ky, Colour::White);
                assert(king_xy(b1, kx, ky, Colour::White));
                let (bx, by) = choose|bx: int, by: int|
                    within_xy(bx, by) && #[trigger] king_xy(b0, bx, by, Colour::Black);
                assert(king_xy(b1, bx, by, Colour::Black));
            }
        }
    }

    /// Empty the named square: a fixture helper for tests and debugging.
    /// It must not remove a king.
    pub fn _and_remove_at(&mut self, _at: &str)
        requires
            game_wf(*old(self)),
            valid_square_text(_at@),
            at_sq(old(self).board.board@, spec_filerank_to_num(_at@)).kind != PieceType::King,
        ensures
            game_wf(*final(self)),
            final(self).board.board@ == old(self).board.board@.update(
                spec_filerank_to_num(_at@).1 as int * 8 + spec_filerank_to_num(_at@).0 as int,
                crate::chess::piece::empty_piece(),
            ),
            final(self).active_colour == old(self).active_colour,
            final(self).state == old(self).state,
    {
        self.board.set_piece(String::from_str(_at), Colour::White, PieceType::Empty);
        proof {
            let b0 = old(self).board.board@;
            let b1 = self.board.board@;
            if old(self).state != GameState::GameOver {
                let (kx, ky) = choose|kx: int, ky: int|
                    within_xy(kx, ky) && #[trigger] king_xy(b0, kx, ky, Colour::White);
                assert(king_xy(b1, kx, ky, Colour::White));
                let (bx, by) = choose|bx: int, by: int|
                    within_xy(bx, by) && #[trigger] king_xy(b0, bx, by, Colour::Black);
                assert(king_xy(b1, bx, by, Colour::Black));
            }
        }
    }
}

} // verus!
