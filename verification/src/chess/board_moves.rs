//! Pseudo-legal move generation, unconditional move application, and the
//! legality filter.
//!
//! A pseudo-legal move satisfies a piece's movement geometry and occupancy
//! rules while ignoring whether it exposes the mover's own king; the
//! legality filter simulates each pseudo-legal move on a copied board and
//! keeps only those that leave the mover's king unattacked.  The enumeration
//! order of every generator is fixed and part of the contract.

use vstd::prelude::*;
use crate::chess::piece_data::{Colour, PieceType, other_colour};
use crate::chess::piece::{Piece, empty_piece};
use crate::chess::board::{
    Board, board_wf, within_xy, mk_sq, at_xy, at_sq, empty_xy, own_xy, king_xy, has_king,
    spec_within_bounds,
};
use crate::chess::threat_map::{
    pawn_dir, ep_capture_ok, threatened, spec_in_check,
};
use crate::chess::board_assoc::{valid_square_text, spec_filerank_to_num, spec_num_to_filerank};

verus! {

/// The candidate square if it is on the board and not held by a piece of the
/// mover's colour, else nothing.
pub open spec fn move_term(b: Seq<Piece>, col: Colour, x: int, y: int) -> Seq<(i8, i8)> {
    if within_xy(x, y) && !own_xy(b, x, y, col) {
        seq![mk_sq(x, y)]
    } else {
        Seq::empty()
    }
}

/// One sliding-piece ray for move purposes, starting one step from
/// `(x, y)`: empty squares along the way are all included; the first
/// occupied square stops the ray and is included only when enemy-held.
pub open spec fn move_ray(
    b: Seq<Piece>,
    col: Colour,
    x: int,
    y: int,
    dx: int,
    dy: int,
    fuel: nat,
) -> Seq<(i8, i8)>
    decreases fuel,
{
    if fuel == 0 {
        Seq::empty()
    } else if !within_xy(x + dx, y + dy) {
        Seq::empty()
    } else if empty_xy(b, x + dx, y + dy) {
        seq![mk_sq(x + dx, y + dy)] + move_ray(b, col, x + dx, y + dy, dx, dy, (fuel - 1) as nat)
    } else if at_xy(b, x + dx, y + dy).colour != col {
        seq![mk_sq(x + dx, y + dy)]
    } else {
        Seq::empty()
    }
}

/// Is the square `j` steps out along a ray from `(x, y)` on the board?
pub open spec fn ray_step_within(x: int, y: int, dx: int, dy: int, j: int) -> bool {
    within_xy(x + j * dx, y + j * dy)
}

/// Is the square `j` steps out along a ray from `(x, y)` empty?
pub open spec fn ray_step_empty(b: Seq<Piece>, x: int, y: int, dx: int, dy: int, j: int) -> bool {
    empty_xy(b, x + j * dx, y + j * dy)
}

/// The moves of a pawn on `(x, y)`: single push, double push (only on the
/// pawn's first move, through an empty single-push square), the two diagonal
/// captures (left then right), then any en-passant captures (left then
/// right).
pub open spec fn pawn_moves_spec(
    b: Seq<Piece>,
    x: int,
    y: int,
    col: Colour,
    first_move: bool,
) -> Seq<(i8, i8)> {
    let d = pawn_dir(col);
    let single = within_xy(x, y + d) && empty_xy(b, x, y + d);
    (if single {
        seq![mk_sq(x, y + d)]
    } else {
        Seq::empty()
    }) + (if single && first_move && within_xy(x, y + 2 * d) && empty_xy(b, x, y + 2 * d) {
        seq![mk_sq(x, y + 2 * d)]
    } else {
        Seq::empty()
    }) + pawn_capture_term(b, x, y, col, -1) + pawn_capture_term(b, x, y, col, 1)
        + pawn_ep_term(b, x, y, col, -1) + pawn_ep_term(b, x, y, col, 1)
}

/// The diagonal capture of a pawn toward file offset `dir`, offered exactly
/// when the diagonal square holds an enemy piece.
pub open spec fn pawn_capture_term(
    b: Seq<Piece>,
    x: int,
    y: int,
    col: Colour,
    dir: int,
) -> Seq<(i8, i8)> {
    let d = pawn_dir(col);
    if within_xy(x + dir, y + d) && !empty_xy(b, x + dir, y + d) && at_xy(
        b,
        x + dir,
        y + d,
    ).colour != col {
        seq![mk_sq(x + dir, y + d)]
    } else {
        Seq::empty()
    }
}

/// The en-passant capture of a pawn toward file offset `dir`, offered
/// exactly when `ep_capture_ok` holds.
pub open spec fn pawn_ep_term(
    b: Seq<Piece>,
    x: int,
    y: int,
    col: Colour,
    dir: int,
) -> Seq<(i8, i8)> {
    if ep_capture_ok(b, x, y, col, dir) {
        seq![mk_sq(x + dir, y + pawn_dir(col))]
    } else {
        Seq::empty()
    }
}

/// The moves of a knight on `(x, y)`: the eight L-shaped offsets, signs
/// outermost (x sign, then y sign), arm assignment innermost, each included
/// when the square is empty or enemy-held.
pub open spec fn knight_moves_spec(b: Seq<Piece>, x: int, y: int, col: Colour) -> Seq<(i8, i8)> {
    move_term(b, col, x - 1, y - 2) + move_term(b, col, x - 2, y - 1) + move_term(
        b,
        col,
        x - 1,
        y + 2,
    ) + move_term(b, col, x - 2, y + 1) + move_term(b, col, x + 1, y - 2) + move_term(
        b,
        col,
        x + 2,
        y - 1,
    ) + move_term(b, col, x + 1, y + 2) + move_term(b, col, x + 2, y + 1)
}

/// The moves of a bishop on `(x, y)`: four diagonal rays, the upward pair
/// before the downward pair, left before right within each pair.
pub open spec fn bishop_moves_spec(b: Seq<Piece>, x: int, y: int, col: Colour) -> Seq<(i8, i8)> {
    move_ray(b, col, x, y, -1, -1, 8) + move_ray(b, col, x, y, 1, -1, 8) + move_ray(
        b,
        col,
        x,
        y,
        -1,
        1,
        8,
    ) + move_ray(b, col, x, y, 1, 1, 8)
}

/// The moves of a rook on `(x, y)`: both horizontal rays, then both
/// vertical rays.
pub open spec fn rook_moves_spec(b: Seq<Piece>, x: int, y: int, col: Colour) -> Seq<(i8, i8)> {
    move_ray(b, col, x, y, -1, 0, 8) + move_ray(b, col, x, y, 1, 0, 8) + move_ray(
        b,
        col,
        x,
        y,
        0,
        -1,
        8,
    ) + move_ray(b, col, x, y, 0, 1, 8)
}

/// The moves of a queen on `(x, y)`: the bishop rays, then the rook rays.
pub open spec fn queen_moves_spec(b: Seq<Piece>, x: int, y: int, col: Colour) -> Seq<(i8, i8)> {
    bishop_moves_spec(b, x, y, col) + rook_moves_spec(b, x, y, col)
}

/// May the king of colour `col` on `(x, y)` castle toward `side_dir`
/// (`1` kingside toward file 7, `-1` queenside toward file 0)?  The king
/// must not have moved and not be attacked where it stands; the rook on the
/// corresponding corner must be an unmoved rook of the king's colour; every
/// square strictly between king and rook must be empty; and both squares of
/// the king's two-step walk toward the rook must exist, be empty, and not be
/// attacked.
pub open spec fn castle_ok(b: Seq<Piece>, x: int, y: int, col: Colour, side_dir: int) -> bool {
    let rook_x: int = if side_dir == 1 {
        7
    } else {
        0
    };
    &&& !threatened(b, other_colour(col), mk_sq(x, y))
    &&& at_xy(b, rook_x, y).kind == PieceType::Rook
    &&& at_xy(b, rook_x, y).colour == col
    &&& at_xy(b, rook_x, y).has_not_moved
    &&& (forall|f: int|
        (if side_dir == 1 {
            x < f < 7
        } else {
            0 < f < x
        }) ==> empty_xy(b, f, y))
    &&& within_xy(x + side_dir, y)
    &&& within_xy(x + 2 * side_dir, y)
    &&& empty_xy(b, x + side_dir, y)
    &&& empty_xy(b, x + 2 * side_dir, y)
    &&& !threatened(b, other_colour(col), mk_sq(x + side_dir, y))
    &&& !threatened(b, other_colour(col), mk_sq(x + 2 * side_dir, y))
}

/// The castling candidate toward `side_dir`: the king's two-step
/// destination, offered exactly when `castle_ok` holds and the king has its
/// has-not-moved flag.
pub open spec fn castle_term(
    b: Seq<Piece>,
    x: int,
    y: int,
    col: Colour,
    first_move: bool,
    side_dir: int,
) -> Seq<(i8, i8)> {
    if first_move && castle_ok(b, x, y, col, side_dir) {
        seq![mk_sq(x + 2 * side_dir, y)]
    } else {
        Seq::empty()
    }
}

/// The moves of a king on `(x, y)`: the eight neighbours (rank offset
/// outermost, file offset innermost, each included when empty or
/// enemy-held), then the kingside castle, then the queenside castle.
pub open spec fn king_moves_spec(
    b: Seq<Piece>,
    x: int,
    y: int,
    col: Colour,
    first_move: bool,
) -> Seq<(i8, i8)> {
    move_term(b, col, x - 1, y - 1) + move_term(b, col, x - 1, y) + move_term(b, col, x - 1, y + 1)
        + move_term(b, col, x, y - 1) + move_term(b, col, x, y) + move_term(b, col, x, y + 1)
        + move_term(b, col, x + 1, y - 1) + move_term(b, col, x + 1, y) + move_term(
        b,
        col,
        x + 1,
        y + 1,
    ) + castle_term(b, x, y, col, first_move, 1) + castle_term(b, x, y, col, first_move, -1)
}

/// Every pseudo-legal move of the piece standing on `c`; nothing for an
/// empty square.
pub open spec fn pseudo_moves_spec(b: Seq<Piece>, c: (i8, i8)) -> Seq<(i8, i8)> {
    let p = at_sq(b, c);
    let x = c.0 as int;
    let y = c.1 as int;
    match p.kind {
        PieceType::Pawn => pawn_moves_spec(b, x, y, p.colour, p.has_not_moved),
        PieceType::Knight => knight_moves_spec(b, x, y, p.colour),
        PieceType::Bishop => bishop_moves_spec(b, x, y, p.colour),
        PieceType::Rook => rook_moves_spec(b, x, y, p.colour),
        PieceType::Queen => queen_moves_spec(b, x, y, p.colour),
        PieceType::King => king_moves_spec(b, x, y, p.colour, p.has_not_moved),
        PieceType::Empty => Seq::empty(),
    }
}

/// The grid with the en-passant flag cleared on every pawn of colour `col`;
/// the flags persist exactly one half-move, so they are wiped before that
/// side's next move is put on the board.
pub open spec fn clear_ep_flags(b: Seq<Piece>, col: Colour) -> Seq<Piece> {
    Seq::new(
        b.len(),
        |i: int|
            if b[i].kind == PieceType::Pawn && b[i].colour == col {
                Piece { en_passant: false, ..b[i] }
            } else {
                b[i]
            },
    )
}

/// The index of a square in the grid.
pub open spec fn sq_index(c: (i8, i8)) -> int {
    c.1 as int * 8 + c.0 as int
}

/// The grid after the unconditional application of the move `from -> to`:
/// first every pawn of the moving side loses its en-passant flag; then the
/// piece value moves from `from` to `to` (capturing whatever stood there),
/// gaining the en-passant flag on a pawn double-step and losing its
/// has-not-moved flag, and `from` is cleared; an en-passant capture (a pawn
/// moving diagonally onto an empty square) also removes the passed-over
/// pawn; a castle (a king moving two files) also relocates the matching
/// rook, clearing its has-not-moved flag.
pub open spec fn apply_move_spec(b: Seq<Piece>, from: (i8, i8), to: (i8, i8)) -> Seq<Piece> {
    let col = at_sq(b, from).colour;
    let b1 = clear_ep_flags(b, col);
    let mover0 = at_sq(b1, from);
    let double_step = to.1 as int - from.1 as int == 2 || from.1 as int - to.1 as int == 2;
    let mover = Piece {
        has_not_moved: false,
        en_passant: if mover0.kind == PieceType::Pawn && double_step {
            true
        } else {
            mover0.en_passant
        },
        ..mover0
    };
    let b2 = b1.update(sq_index(to), mover).update(sq_index(from), empty_piece());
    if mover0.kind == PieceType::Pawn && to.0 != from.0 && at_sq(b1, to).kind == PieceType::Empty {
        b2.update(sq_index((to.0, from.1)), empty_piece())
    } else if mover0.kind == PieceType::King && (to.0 as int - from.0 as int == 2 || from.0 as int
        - to.0 as int == 2) {
        let dir: int = if to.0 > from.0 {
            1
        } else {
            -1
        };
        let rook_from_x: int = if dir == 1 {
            7
        } else {
            0
        };
        let rook = Piece { has_not_moved: false, ..at_xy(b2, rook_from_x, from.1 as int) };
        b2.update(from.1 as int * 8 + (to.0 as int - dir), rook).update(
            from.1 as int * 8 + rook_from_x,
            empty_piece(),
        )
    } else {
        b2
    }
}

impl Board {
    /// Append the candidate square when it is on the board and not held by a
    /// piece of the mover's colour.
    fn push_if_movable(&self, v: &mut Vec<(i8, i8)>, col: Colour, x: i8, y: i8)
        requires
            board_wf(self.board@),
            -16 <= x <= 16,
            -16 <= y <= 16,
        ensures
            final(v)@ == old(v)@ + move_term(self.board@, col, x as int, y as int),
    {
        if x >= 0 && x <= 7 && y >= 0 && y <= 7 {
            let p = self.piece_at((x, y));
            if p.get_type() == PieceType::Empty || p.get_colour() != col {
                v.push((x, y));
            }
        }
        proof {
            assert(v@ =~= old(v)@ + move_term(self.board@, col, x as int, y as int));
        }
    }

    /// Walk one move ray outward from `(x, y)`, appending every square the
    /// mover may land on.
    fn cast_move_ray(&self, v: &mut Vec<(i8, i8)>, col: Colour, x: i8, y: i8, dx: i8, dy: i8, fuel: u8)
        requires
            board_wf(self.board@),
            -1 <= dx <= 1,
            -1 <= dy <= 1,
            -16 <= x <= 16,
            -16 <= y <= 16,
            fuel <= 8,
        ensures
            final(v)@ == old(v)@ + move_ray(
                self.board@,
                col,
                x as int,
                y as int,
                dx as int,
                dy as int,
                fuel as nat,
            ),
        decreases fuel,
    {
        if fuel == 0 {
            proof {
                assert(v@ =~= old(v)@ + Seq::<(i8, i8)>::empty());
            }
            return;
        }
        let nx = x + dx;
        let ny = y + dy;
        if !(nx >= 0 && nx <= 7 && ny >= 0 && ny <= 7) {
            proof {
                assert(v@ =~= old(v)@ + Seq::<(i8, i8)>::empty());
            }
            return;
        }
        if self.is_empty((nx, ny)) {
            v.push((nx, ny));
            self.cast_move_ray(v, col, nx, ny, dx, dy, fuel - 1);
        } else if self.piece_at((nx, ny)).get_colour() != col {
            v.push((nx, ny));
        }
        proof {
            assert(v@ =~= old(v)@ + move_ray(
                self.board@,
                col,
                x as int,
                y as int,
                dx as int,
                dy as int,
                fuel as nat,
            ));
        }
    }

    /// The pseudo-legal moves of the pawn on `coordinates`.
    #[verifier::rlimit(60)]
    fn get_pawn_moves(&self, coordinates: (i8, i8), colour: Colour, first_move: bool) -> (v: Vec<
        (i8, i8),
    >)
        requires
            board_wf(self.board@),
            spec_within_bounds(coordinates),
        ensures
            v@ == pawn_moves_spec(
                self.board@,
                coordinates.0 as int,
                coordinates.1 as int,
                colour,
                first_move,
            ),
    {
        let (x, y) = coordinates;
        let move_direction: i8 = if colour == Colour::White { -1 } else { 1 };
        let mut moves: Vec<(i8, i8)> = Vec::new();
        let single_y = y + move_direction;
        let single = single_y >= 0 && single_y <= 7 && self.is_empty((x, single_y));
        if single {
            moves.push((x, single_y));
        }
        let double_y = y + 2 * move_direction;
        if single && first_move && double_y >= 0 && double_y <= 7 && self.is_empty((x, double_y)) {
            moves.push((x, double_y));
        }
        let tx_l = x - 1;
        if tx_l >= 0 && tx_l <= 7 && single_y >= 0 && single_y <= 7 {
            let p = self.piece_at((tx_l, single_y));
            if p.get_type() != PieceType::Empty && p.get_colour() != colour {
                moves.push((tx_l, single_y));
            }
        }
        let tx_r = x + 1;
        if tx_r >= 0 && tx_r <= 7 && single_y >= 0 && single_y <= 7 {
            let p = self.piece_at((tx_r, single_y));
            if p.get_type() != PieceType::Empty && p.get_colour() != colour {
                moves.push((tx_r, single_y));
            }
        }
        if self.can_capture_en_passant(coordinates, colour, -1) {
            moves.push((tx_l, single_y));
        }
        if self.can_capture_en_passant(coordinates, colour, 1) {
            moves.push((tx_r, single_y));
        }
        proof {
            assert(moves@ =~= pawn_moves_spec(
                self.board@,
                coordinates.0 as int,
                coordinates.1 as int,
                colour,
                first_move,
            ));
        }
        moves
    }

    /// The pseudo-legal moves of the knight on `coordinates`.
    fn get_knight_moves(&self, coordinates: (i8, i8), colour: Colour) -> (v: Vec<(i8, i8)>)
        requires
            board_wf(self.board@),
            spec_within_bounds(coordinates),
        ensures
            v@ == knight_moves_spec(
                self.board@,
                coordinates.0 as int,
                coordinates.1 as int,
                colour,
            ),
    {
        let (x, y) = coordinates;
        let mut moves: Vec<(i8, i8)> = Vec::new();
        self.push_if_movable(&mut moves, colour, x - 1, y - 2);
        self.push_if_movable(&mut moves, colour, x - 2, y - 1);
        self.push_if_movable(&mut moves, colour, x - 1, y + 2);
        self.push_if_movable(&mut moves, colour, x - 2, y + 1);
        self.push_if_movable(&mut moves, colour, x + 1, y - 2);
        self.push_if_movable(&mut moves, colour, x + 2, y - 1);
        self.push_if_movable(&mut moves, colour, x + 1, y + 2);
        self.push_if_movable(&mut moves, colour, x + 2, y + 1);
        proof {
            assert(moves@ =~= knight_moves_spec(
                self.board@,
                coordinates.0 as int,
                coordinates.1 as int,
                colour,
            ));
        }
        moves
    }

    /// The pseudo-legal moves of the bishop on `coordinates`.
    fn get_bishop_moves(&self, coordinates: (i8, i8), colour: Colour) -> (v: Vec<(i8, i8)>)
        requires
            board_wf(self.board@),
            spec_within_bounds(coordinates),
        ensures
            v@ == bishop_moves_spec(
                self.board@,
                coordinates.0 as int,
                coordinates.1 as int,
                colour,
            ),
    {
        let (x, y) = coordinates;
        let mut moves: Vec<(i8, i8)> = Vec::new();
        self.cast_move_ray(&mut moves, colour, x, y, -1, -1, 8);
        self.cast_move_ray(&mut moves, colour, x, y, 1, -1, 8);
        self.cast_move_ray(&mut moves, colour, x, y, -1, 1, 8);
        self.cast_move_ray(&mut moves, colour, x, y, 1, 1, 8);
        proof {
            assert(moves@ =~= bishop_moves_spec(
                self.board@,
                coordinates.0 as int,
                coordinates.1 as int,
                colour,
            ));
        }
        moves
    }

    /// The pseudo-legal moves of the rook on `coordinates`.
    fn get_rook_moves(&self, coordinates: (i8, i8), colour: Colour) -> (v: Vec<(i8, i8)>)
        requires
            board_wf(self.board@),
            spec_within_bounds(coordinates),
        ensures
            v@ == rook_moves_spec(
                self.board@,
                coordinates.0 as int,
                coordinates.1 as int,
                colour,
            ),
    {
        let (x, y) = coordinates;
        let mut moves: Vec<(i8, i8)> = Vec::new();
        self.cast_move_ray(&mut moves, colour, x, y, -1, 0, 8);
        self.cast_move_ray(&mut moves, colour, x, y, 1, 0, 8);
        self.cast_move_ray(&mut moves, colour, x, y, 0, -1, 8);
        self.cast_move_ray(&mut moves, colour, x, y, 0, 1, 8);
        proof {
            assert(moves@ =~= rook_moves_spec(
                self.board@,
                coordinates.0 as int,
                coordinates.1 as int,
                colour,
            ));
        }
        moves
    }

    /// The pseudo-legal moves of the queen on `coordinates`: bishop rays,
    /// then rook rays.
    fn get_queen_moves(&self, coordinates: (i8, i8), colour: Colour) -> (v: Vec<(i8, i8)>)
        requires
            board_wf(self.board@),
            spec_within_bounds(coordinates),
        ensures
            v@ == queen_moves_spec(
                self.board@,
                coordinates.0 as int,
                coordinates.1 as int,
                colour,
            ),
    {
        let mut moves = self.get_bishop_moves(coordinates, colour);
        let mut rook_part = self.get_rook_moves(coordinates, colour);
        moves.append(&mut rook_part);
        moves
    }

    /// Does `castle_ok` hold for the king of colour `colour` on
    /// `coordinates`, toward `side_dir`?
    #[verifier::loop_isolation(false)]
    fn can_castle(&self, coordinates: (i8, i8), colour: Colour, side_dir: i8) -> (r: bool)
        requires
            board_wf(self.board@),
            spec_within_bounds(coordinates),
            side_dir == 1 || side_dir == -1,
        ensures
            r == castle_ok(
                self.board@,
                coordinates.0 as int,
                coordinates.1 as int,
                colour,
                side_dir as int,
            ),
    {
        let (x, y) = coordinates;
        let rook_x: i8 = if side_dir == 1 {
            7
        } else {
            0
        };
        if self.square_threatened_by(if colour == Colour::White {
            Colour::Black
        } else {
            Colour::White
        }, (x, y)) {
            return false;
        }
        let rook = self.piece_at((rook_x, y));
        if !(rook.get_type() == PieceType::Rook && rook.get_colour() == colour
            && rook.has_not_moved) {
            return false;
        }
        let lo: i8 = if side_dir == 1 {
            x
        } else {
            0
        };
        let hi: i8 = if side_dir == 1 {
            7
        } else {
            x
        };
        let mut f: i8 = lo + 1;
        while f < hi
            invariant
                lo < f <= hi || f == lo + 1,
                forall|g: int| lo < g < f ==> empty_xy(self.board@, g, y as int),
            decreases hi - f,
        {
            if !self.is_empty((f, y)) {
                return false;
            }
            f += 1;
        }
        let step1 = x + side_dir;
        let step2 = x + 2 * side_dir;
        if !(step1 >= 0 && step1 <= 7 && step2 >= 0 && step2 <= 7) {
            return false;
        }
        if !self.is_empty((step1, y)) || !self.is_empty((step2, y)) {
            return false;
        }
        let enemy = if colour == Colour::White {
            Colour::Black
        } else {
            Colour::White
        };
        if self.square_threatened_by(enemy, (step1, y)) {
            return false;
        }
        if self.square_threatened_by(enemy, (step2, y)) {
            return false;
        }
        true
    }

    /// The pseudo-legal moves of the king on `coordinates`: the eight
    /// neighbours, then the kingside castle, then the queenside castle.
    fn get_king_moves(&self, coordinates: (i8, i8), colour: Colour, first_move: bool) -> (v: Vec<
        (i8, i8),
    >)
        requires
            board_wf(self.board@),
            spec_within_bounds(coordinates),
        ensures
            v@ == king_moves_spec(
                self.board@,
                coordinates.0 as int,
                coordinates.1 as int,
                colour,
                first_move,
            ),
    {
        let (x, y) = coordinates;
        let mut moves: Vec<(i8, i8)> = Vec::new();
        self.push_if_movable(&mut moves, colour, x - 1, y - 1);
        self.push_if_movable(&mut moves, colour, x - 1, y);
        self.push_if_movable(&mut moves, colour, x - 1, y + 1);
        self.push_if_movable(&mut moves, colour, x, y - 1);
        self.push_if_movable(&mut moves, colour, x, y);
        self.push_if_movable(&mut moves, colour, x, y + 1);
        self.push_if_movable(&mut moves, colour, x + 1, y - 1);
        self.push_if_movable(&mut moves, colour, x + 1, y);
        self.push_if_movable(&mut moves, colour, x + 1, y + 1);
        if first_move && self.can_castle(coordinates, colour, 1) {
            moves.push((x + 2, y));
        }
        if first_move && self.can_castle(coordinates, colour, -1) {
            moves.push((x - 2, y));
        }
        proof {
            assert(moves@ =~= king_moves_spec(
                self.board@,
                coordinates.0 as int,
                coordinates.1 as int,
                colour,
                first_move,
            ));
        }
        moves
    }

    /// Every pseudo-legal move of the piece on `coordinates`, in the fixed
    /// enumeration order; an empty square yields no moves.
    pub fn get_pseudo_legal_moves(&self, coordinates: (i8, i8)) -> (v: Vec<(i8, i8)>)
        requires
            board_wf(self.board@),
            spec_within_bounds(coordinates),
        ensures
            v@ == pseudo_moves_spec(self.board@, coordinates),
    {
        let piece = self.piece_at(coordinates);
        proof {
            assert(mk_sq(coordinates.0 as int, coordinates.1 as int) == coordinates);
        }
        match piece.get_type() {
            PieceType::Pawn => self.get_pawn_moves(
                coordinates,
                piece.get_colour(),
                piece.has_not_moved,
            ),
            PieceType::Knight => self.get_knight_moves(coordinates, piece.get_colour()),
            PieceType::Bishop => self.get_bishop_moves(coordinates, piece.get_colour()),
            PieceType::Rook => self.get_rook_moves(coordinates, piece.get_colour()),
            PieceType::Queen => self.get_queen_moves(coordinates, piece.get_colour()),
            PieceType::King => self.get_king_moves(
                coordinates,
                piece.get_colour(),
                piece.has_not_moved,
            ),
            PieceType::Empty => Vec::new(),
        }
    }
}

impl Board {
    /// Apply the move `from -> to` unconditionally, with no legality check:
    /// exactly the transformation `apply_move_spec` describes.  The cached
    /// threat maps are not touched and therefore go stale.
    #[verifier::loop_isolation(false)]
    pub fn make_pseudo_legal_move(&mut self, from: (i8, i8), to: (i8, i8))
        requires
            board_wf(old(self).board@),
            spec_within_bounds(from),
            spec_within_bounds(to),
        ensures
            final(self).board@ == apply_move_spec(old(self).board@, from, to),
            board_wf(final(self).board@),
            final(self).white_threat_map == old(self).white_threat_map,
            final(self).black_threat_map == old(self).black_threat_map,
    {
        let ghost b0 = self.board@;
        let colour = self.piece_at(from).get_colour();
        let mut j: usize = 0;
        while j < 64
            invariant
                j <= 64,
                board_wf(self.board@),
                forall|i: int| 0 <= i < j ==> self.board@[i] == clear_ep_flags(b0, colour)[i],
                forall|i: int| j <= i < 64 ==> self.board@[i] == b0[i],
                self.white_threat_map == old(self).white_threat_map,
                self.black_threat_map == old(self).black_threat_map,
            decreases 64 - j,
        {
            let x: i8 = (j % 8) as i8;
            let y: i8 = (j / 8) as i8;
            let p = self.piece_at((x, y));
            proof {
                assert(y as int * 8 + x as int == j);
            }
            if p.get_type() == PieceType::Pawn && p.get_colour() == colour {
                let mut q = p;
                q.en_passant = false;
                self.set_piece_at((x, y), q);
            }
            j += 1;
        }
        proof {
            assert(self.board@ =~= clear_ep_flags(b0, colour));
        }
        let dest_empty_before = self.is_empty(to);
        let mut mover = self.piece_at(from);
        let mover_kind = mover.get_type();
        let dy = to.1 - from.1;
        if mover_kind == PieceType::Pawn && (dy == 2 || dy == -2) {
            mover.en_passant = true;
        }
        mover.has_not_moved = false;
        self.set_piece_at(to, mover);
        self.set_piece_at(from, Piece::new(Colour::White, PieceType::Empty));
        if mover_kind == PieceType::Pawn && to.0 != from.0 && dest_empty_before {
            self.set_piece_at((to.0, from.1), Piece::new(Colour::White, PieceType::Empty));
        } else if mover_kind == PieceType::King && (to.0 - from.0 == 2 || from.0 - to.0 == 2) {
            let dir: i8 = if to.0 > from.0 {
                1
            } else {
                -1
            };
            let rook_from: (i8, i8) = (
                if dir == 1 {
                    7
                } else {
                    0
                },
                from.1,
            );
            let mut rook = self.piece_at(rook_from);
            rook.has_not_moved = false;
            self.set_piece_at((to.0 - dir, from.1), rook);
            self.set_piece_at(rook_from, Piece::new(Colour::White, PieceType::Empty));
        }
        proof {
            assert(self.board@ =~= apply_move_spec(b0, from, to));
        }
    }
}

/// A pseudo-legal move is legal when applying it leaves the mover's own
/// king on no square the other colour attacks.
pub open spec fn move_is_legal(b: Seq<Piece>, c: (i8, i8), m: (i8, i8)) -> bool {
    !spec_in_check(apply_move_spec(b, c, m), at_sq(b, c).colour)
}

/// The legal moves of the piece on `c`: its pseudo-legal moves in their
/// enumeration order, with every self-check-inducing move discarded.
pub open spec fn legal_moves_spec(b: Seq<Piece>, c: (i8, i8)) -> Seq<(i8, i8)> {
    pseudo_moves_spec(b, c).filter(|m: (i8, i8)| move_is_legal(b, c, m))
}

/// Sign discipline of a ray square relative to the ray's start: strictly
/// beyond the start along each moving axis, level with it along a still one.
pub open spec fn ray_sign_ok(m: (i8, i8), x: int, y: int, dx: int, dy: int) -> bool {
    &&& (dx == 1 ==> m.0 as int > x)
    &&& (dx == -1 ==> (m.0 as int) < x)
    &&& (dx == 0 ==> m.0 as int == x)
    &&& (dy == 1 ==> m.1 as int > y)
    &&& (dy == -1 ==> (m.1 as int) < y)
    &&& (dy == 0 ==> m.1 as int == y)
}

/// What the generators guarantee about every candidate move they emit: the
/// target is a board square other than the origin and not held by the
/// mover's own colour; a pawn moving diagonally onto an empty square has an
/// enemy pawn on the passed-over square; a king moving two files stays on
/// its rank, has its own rook on the matching corner, and has an empty
/// square where that rook will land.
pub open spec fn move_candidate_ok(b: Seq<Piece>, c: (i8, i8), m: (i8, i8)) -> bool {
    let col = at_sq(b, c).colour;
    &&& spec_within_bounds(m)
    &&& m != c
    &&& !own_xy(b, m.0 as int, m.1 as int, col)
    &&& (at_sq(b, c).kind == PieceType::Pawn && m.0 != c.0 && empty_xy(b, m.0 as int, m.1 as int)
        ==> at_xy(b, m.0 as int, c.1 as int).kind == PieceType::Pawn && at_xy(
        b,
        m.0 as int,
        c.1 as int,
    ).colour != col)
    &&& (at_sq(b, c).kind == PieceType::King && (m.0 as int - c.0 as int == 2 || c.0 as int
        - m.0 as int == 2) ==> {
        let dir: int = if m.0 > c.0 {
            1
        } else {
            -1
        };
        let rx: int = if dir == 1 {
            7
        } else {
            0
        };
        &&& m.1 == c.1
        &&& at_xy(b, rx, c.1 as int).kind == PieceType::Rook
        &&& at_xy(b, rx, c.1 as int).colour == col
        &&& empty_xy(b, m.0 as int - dir, c.1 as int)
    })
}

/// Every square of a move ray is on the board, is not held by the mover's
/// colour, and lies strictly beyond the ray's start along its direction.
proof fn lemma_move_ray_ok(b: Seq<Piece>, col: Colour, x: int, y: int, dx: int, dy: int, fuel: nat)
    requires
        board_wf(b),
        -1 <= dx <= 1,
        -1 <= dy <= 1,
    ensures
        forall|i: int| 0 <= i < move_ray(b, col, x, y, dx, dy, fuel).len() ==> {
            let m = #[trigger] move_ray(b, col, x, y, dx, dy, fuel)[i];
            spec_within_bounds(m) && !own_xy(b, m.0 as int, m.1 as int, col) && ray_sign_ok(
                m,
                x,
                y,
                dx,
                dy,
            )
        },
    decreases fuel,
{
    let r = move_ray(b, col, x, y, dx, dy, fuel);
    if fuel > 0 && within_xy(x + dx, y + dy) && empty_xy(b, x + dx, y + dy) {
        lemma_move_ray_ok(b, col, x + dx, y + dy, dx, dy, (fuel - 1) as nat);
        let tail = move_ray(b, col, x + dx, y + dy, dx, dy, (fuel - 1) as nat);
        assert forall|i: int| 0 <= i < r.len() implies {
            let m = #[trigger] r[i];
            spec_within_bounds(m) && !own_xy(b, m.0 as int, m.1 as int, col) && ray_sign_ok(
                m,
                x,
                y,
                dx,
                dy,
            )
        } by {
            if i > 0 {
                assert(r[i] == tail[i - 1]);
            }
        }
    }
}

/// Every pawn move satisfies `move_candidate_ok`.
#[verifier::rlimit(100)]
proof fn lemma_pawn_moves_ok(b: Seq<Piece>, c: (i8, i8))
    requires
        board_wf(b),
        spec_within_bounds(c),
        at_sq(b, c).kind == PieceType::Pawn,
    ensures
        forall|i: int| 0 <= i < pawn_moves_spec(
            b,
            c.0 as int,
            c.1 as int,
            at_sq(b, c).colour,
            at_sq(b, c).has_not_moved,
        ).len() ==> move_candidate_ok(
            b,
            c,
            #[trigger] pawn_moves_spec(
                b,
                c.0 as int,
                c.1 as int,
                at_sq(b, c).colour,
                at_sq(b, c).has_not_moved,
            )[i],
        ),
{
    let x = c.0 as int;
    let y = c.1 as int;
    let col = at_sq(b, c).colour;
    let ms = pawn_moves_spec(b, x, y, col, at_sq(b, c).has_not_moved);
    assert forall|i: int| 0 <= i < ms.len() implies move_candidate_ok(b, c, #[trigger] ms[i]) by {
        let d = pawn_dir(col);
        if ms[i] == mk_sq(x, y + d) || ms[i] == mk_sq(x, y + 2 * d) {
            assert(move_candidate_ok(b, c, ms[i]));
        } else {
            assert(ms[i] == mk_sq(x - 1, y + d) || ms[i] == mk_sq(x + 1, y + d));
            assert(move_candidate_ok(b, c, ms[i]));
        }
    }
}

/// Every knight move satisfies `move_candidate_ok`.
#[verifier::rlimit(100)]
proof fn lemma_knight_moves_ok(b: Seq<Piece>, c: (i8, i8))
    requires
        board_wf(b),
        spec_within_bounds(c),
        at_sq(b, c).kind == PieceType::Knight,
    ensures
        forall|i: int| 0 <= i < knight_moves_spec(b, c.0 as int, c.1 as int, at_sq(b, c).colour).len()
            ==> move_candidate_ok(
            b,
            c,
            #[trigger] knight_moves_spec(b, c.0 as int, c.1 as int, at_sq(b, c).colour)[i],
        ),
{
    let x = c.0 as int;
    let y = c.1 as int;
    let col = at_sq(b, c).colour;
    let ms = knight_moves_spec(b, x, y, col);
    assert forall|i: int| 0 <= i < ms.len() implies move_candidate_ok(b, c, #[trigger] ms[i]) by {}
}

/// Every bishop move satisfies `move_candidate_ok`.
#[verifier::rlimit(100)]
proof fn lemma_bishop_moves_ok(b: Seq<Piece>, c: (i8, i8))
    requires
        board_wf(b),
        spec_within_bounds(c),
        at_sq(b, c).kind == PieceType::Bishop,
    ensures
        forall|i: int| 0 <= i < bishop_moves_spec(b, c.0 as int, c.1 as int, at_sq(b, c).colour).len()
            ==> move_candidate_ok(
            b,
            c,
            #[trigger] bishop_moves_spec(b, c.0 as int, c.1 as int, at_sq(b, c).colour)[i],
        ),
{
    let x = c.0 as int;
    let y = c.1 as int;
    let col = at_sq(b, c).colour;
    lemma_move_ray_ok(b, col, x, y, -1, -1, 8);
    lemma_move_ray_ok(b, col, x, y, 1, -1, 8);
    lemma_move_ray_ok(b, col, x, y, -1, 1, 8);
    lemma_move_ray_ok(b, col, x, y, 1, 1, 8);
    let ms = bishop_moves_spec(b, x, y, col);
    assert forall|i: int| 0 <= i < ms.len() implies move_candidate_ok(b, c, #[trigger] ms[i]) by {}
}

/// Every rook move satisfies `move_candidate_ok`.
#[verifier::rlimit(100)]
proof fn lemma_rook_moves_ok(b: Seq<Piece>, c: (i8, i8))
    requires
        board_wf(b),
        spec_within_bounds(c),
        at_sq(b, c).kind == PieceType::Rook,
    ensures
        forall|i: int| 0 <= i < rook_moves_spec(b, c.0 as int, c.1 as int, at_sq(b, c).colour).len()
            ==> move_candidate_ok(
            b,
            c,
            #[trigger] rook_moves_spec(b, c.0 as int, c.1 as int, at_sq(b, c).colour)[i],
        ),
{
    let x = c.0 as int;
    let y = c.1 as int;
    let col = at_sq(b, c).colour;
    lemma_move_ray_ok(b, col, x, y, -1, 0, 8);
    lemma_move_ray_ok(b, col, x, y, 1, 0, 8);
    lemma_move_ray_ok(b, col, x, y, 0, -1, 8);
    lemma_move_ray_ok(b, col, x, y, 0, 1, 8);
    let ms = rook_moves_spec(b, x, y, col);
    assert forall|i: int| 0 <= i < ms.len() implies move_candidate_ok(b, c, #[trigger] ms[i]) by {}
}

/// Every queen move satisfies `move_candidate_ok`.
#[verifier::rlimit(100)]
proof fn lemma_queen_moves_ok(b: Seq<Piece>, c: (i8, i8))
    requires
        board_wf(b),
        spec_within_bounds(c),
        at_sq(b, c).kind == PieceType::Queen,
    ensures
        forall|i: int| 0 <= i < queen_moves_spec(b, c.0 as int, c.1 as int, at_sq(b, c).colour).len()
            ==> move_candidate_ok(
            b,
            c,
            #[trigger] queen_moves_spec(b, c.0 as int, c.1 as int, at_sq(b, c).colour)[i],
        ),
{
    let x = c.0 as int;
    let y = c.1 as int;
    let col = at_sq(b, c).colour;
    lemma_move_ray_ok(b, col, x, y, -1, -1, 8);
    lemma_move_ray_ok(b, col, x, y, 1, -1, 8);
    lemma_move_ray_ok(b, col, x, y, -1, 1, 8);
    lemma_move_ray_ok(b, col, x, y, 1, 1, 8);
    lemma_move_ray_ok(b, col, x, y, -1, 0, 8);
    lemma_move_ray_ok(b, col, x, y, 1, 0, 8);
    lemma_move_ray_ok(b, col, x, y, 0, -1, 8);
    lemma_move_ray_ok(b, col, x, y, 0, 1, 8);
    let ms = queen_moves_spec(b, x, y, col);
    assert forall|i: int| 0 <= i < ms.len() implies move_candidate_ok(b, c, #[trigger] ms[i]) by {
        let bs = bishop_moves_spec(b, x, y, col);
        let rs = rook_moves_spec(b, x, y, col);
        if i < bs.len() {
            assert(ms[i] == bs[i]);
        } else {
            assert(ms[i] == rs[i - bs.len()]);
        }
    }
}

/// Every king move satisfies `move_candidate_ok`.
#[verifier::rlimit(100)]
proof fn lemma_king_moves_ok(b: Seq<Piece>, c: (i8, i8))
    requires
        board_wf(b),
        spec_within_bounds(c),
        at_sq(b, c).kind == PieceType::King,
    ensures
        forall|i: int| 0 <= i < king_moves_spec(
            b,
            c.0 as int,
            c.1 as int,
            at_sq(b, c).colour,
            at_sq(b, c).has_not_moved,
        ).len() ==> move_candidate_ok(
            b,
            c,
            #[trigger] king_moves_spec(
                b,
                c.0 as int,
                c.1 as int,
                at_sq(b, c).colour,
                at_sq(b, c).has_not_moved,
            )[i],
        ),
{
    let x = c.0 as int;
    let y = c.1 as int;
    let col = at_sq(b, c).colour;
    let ms = king_moves_spec(b, x, y, col, at_sq(b, c).has_not_moved);
    assert forall|i: int| 0 <= i < ms.len() implies move_candidate_ok(b, c, #[trigger] ms[i]) by {}
}

/// Every pseudo-legal move the generators emit satisfies
/// `move_candidate_ok`.
proof fn lemma_pseudo_moves_ok(b: Seq<Piece>, c: (i8, i8))
    requires
        board_wf(b),
        spec_within_bounds(c),
    ensures
        forall|i: int| 0 <= i < pseudo_moves_spec(b, c).len() ==> move_candidate_ok(
            b,
            c,
            #[trigger] pseudo_moves_spec(b, c)[i],
        ),
{
    match at_sq(b, c).kind {
        PieceType::Pawn => lemma_pawn_moves_ok(b, c),
        PieceType::Knight => lemma_knight_moves_ok(b, c),
        PieceType::Bishop => lemma_bishop_moves_ok(b, c),
        PieceType::Rook => lemma_rook_moves_ok(b, c),
        PieceType::Queen => lemma_queen_moves_ok(b, c),
        PieceType::King => lemma_king_moves_ok(b, c),
        PieceType::Empty => {},
    }
}

/// Distinct board squares live at distinct grid indices.
proof fn lemma_sq_index_injective()
    ensures
        forall|x1: int, y1: int, x2: int, y2: int|
            within_xy(x1, y1) && within_xy(x2, y2) && y1 * 8 + x1 == y2 * 8 + x2 ==> x1 == x2 && y1
                == y2,
{
}

/// Applying a candidate move keeps the mover's own king on the board, and
/// leaves every king of the other colour exactly where it was unless the
/// move captures it.
#[verifier::rlimit(100)]
pub(crate) proof fn lemma_apply_keeps_kings(b: Seq<Piece>, from: (i8, i8), to: (i8, i8))
    requires
        board_wf(b),
        spec_within_bounds(from),
        spec_within_bounds(to),
        at_sq(b, from).kind != PieceType::Empty,
        move_candidate_ok(b, from, to),
    ensures
        has_king(b, at_sq(b, from).colour) ==> has_king(
            apply_move_spec(b, from, to),
            at_sq(b, from).colour,
        ),
        forall|kx: int, ky: int|
            within_xy(kx, ky) && #[trigger] king_xy(b, kx, ky, other_colour(at_sq(b, from).colour))
                && at_sq(b, to).kind != PieceType::King ==> king_xy(
                apply_move_spec(b, from, to),
                kx,
                ky,
                other_colour(at_sq(b, from).colour),
            ),
{
    lemma_sq_index_injective();
    let col = at_sq(b, from).colour;
    let bp = apply_move_spec(b, from, to);
    let fx = from.0 as int;
    let fy = from.1 as int;
    let tx = to.0 as int;
    let ty = to.1 as int;
    if has_king(b, col) {
        let (kx, ky) = choose|kx: int, ky: int| within_xy(kx, ky) && #[trigger] king_xy(
            b,
            kx,
            ky,
            col,
        );
        if kx == fx && ky == fy {
            assert(at_sq(b, from).kind == PieceType::King);
            assert(king_xy(bp, tx, ty, col));
        } else {
            assert(king_xy(bp, kx, ky, col));
        }
    }
    assert forall|kx: int, ky: int|
        within_xy(kx, ky) && #[trigger] king_xy(b, kx, ky, other_colour(col)) && at_sq(
            b,
            to,
        ).kind != PieceType::King implies king_xy(bp, kx, ky, other_colour(col)) by {
        assert(other_colour(col) != col);
        assert(!(kx == fx && ky == fy));
        assert(!(kx == tx && ky == ty));
    }
}

/// Self-check exclusion: a legal move, applied to the board it was generated
/// for, never leaves the mover's own king on an attacked square.
pub proof fn lemma_legal_moves_exclude_self_check(b: Seq<Piece>, c: (i8, i8), m: (i8, i8))
    requires
        board_wf(b),
        spec_within_bounds(c),
        legal_moves_spec(b, c).contains(m),
    ensures
        !spec_in_check(apply_move_spec(b, c, m), at_sq(b, c).colour),
{
    let pred = |mm: (i8, i8)| move_is_legal(b, c, mm);
    let i = choose|i: int|
        0 <= i < legal_moves_spec(b, c).len() && legal_moves_spec(b, c)[i] == m;
    pseudo_moves_spec(b, c).lemma_filter_pred(pred, i);
}

/// The ray-membership law, generalised over the remaining fuel: a square
/// `k` steps along the ray is reached exactly when every strictly closer
/// step is empty and the square itself is empty or enemy-held.
proof fn lemma_ray_membership(
    b: Seq<Piece>,
    col: Colour,
    x: int,
    y: int,
    dx: int,
    dy: int,
    fuel: nat,
    k: int,
)
    requires
        board_wf(b),
        -1 <= dx <= 1,
        -1 <= dy <= 1,
        !(dx == 0 && dy == 0),
        1 <= k <= fuel,
        within_xy(x + k * dx, y + k * dy),
        forall|j: int| 1 <= j < k ==> #[trigger] ray_step_within(x, y, dx, dy, j),
    ensures
        move_ray(b, col, x, y, dx, dy, fuel).contains(mk_sq(x + k * dx, y + k * dy)) <==> ((forall|
            j: int,
        |
            1 <= j < k ==> #[trigger] ray_step_empty(b, x, y, dx, dy, j)) && (empty_xy(
            b,
            x + k * dx,
            y + k * dy,
        ) || at_xy(b, x + k * dx, y + k * dy).colour != col)),
    decreases k,
{
    let r = move_ray(b, col, x, y, dx, dy, fuel);
    let target = mk_sq(x + k * dx, y + k * dy);
    let step1 = mk_sq(x + dx, y + dy);
    assert(x + 1 * dx == x + dx && y + 1 * dy == y + dy) by (nonlinear_arith);
    if k == 1 {
        assert(within_xy(x + dx, y + dy));
    } else {
        assert(ray_step_within(x, y, dx, dy, 1));
        assert(within_xy(x + dx, y + dy));
    }
    if k == 1 {
        assert(target == step1);
        if empty_xy(b, x + dx, y + dy) {
            assert(r[0] == step1);
            assert(r.contains(target));
        } else if at_xy(b, x + dx, y + dy).colour != col {
            assert(r[0] == step1);
            assert(r.contains(target));
        } else {
            assert forall|i: int| 0 <= i < r.len() implies r[i] != target by {}
        }
    } else {
        assert(target != step1) by {
            assert(x + k * dx != x + dx || y + k * dy != y + dy) by (nonlinear_arith)
                requires
                    !(dx == 0 && dy == 0),
                    -1 <= dx <= 1,
                    -1 <= dy <= 1,
                    k != 1,
            ;
        }
        if !empty_xy(b, x + dx, y + dy) {
            // the first step blocks: the ray is at most that one square, and
            // the right-hand side fails at j = 1
            assert(!ray_step_empty(b, x, y, dx, dy, 1));
            assert forall|i: int| 0 <= i < r.len() implies r[i] != target by {
                assert(r[i] == step1);
            }
            assert(!r.contains(target));
        } else {
            let tail = move_ray(b, col, x + dx, y + dy, dx, dy, (fuel - 1) as nat);
            assert forall|j: int| 1 <= j < k - 1 implies #[trigger] ray_step_within(
                x + dx,
                y + dy,
                dx,
                dy,
                j,
            ) by {
                assert((x + dx) + j * dx == x + (j + 1) * dx) by (nonlinear_arith);
                assert((y + dy) + j * dy == y + (j + 1) * dy) by (nonlinear_arith);
                assert(ray_step_within(x, y, dx, dy, j + 1));
            }
            assert((x + dx) + (k - 1) * dx == x + k * dx) by (nonlinear_arith);
            assert((y + dy) + (k - 1) * dy == y + k * dy) by (nonlinear_arith);
            lemma_ray_membership(b, col, x + dx, y + dy, dx, dy, (fuel - 1) as nat, k - 1);
            assert(r == seq![step1] + tail);
            if r.contains(target) {
                let i = choose|i: int| 0 <= i < r.len() && r[i] == target;
                assert(tail[i - 1] == target);
                assert(tail.contains(target));
            }
            if tail.contains(target) {
                let i = choose|i: int| 0 <= i < tail.len() && tail[i] == target;
                assert(r[i + 1] == target);
                assert(r.contains(target));
            }
            assert forall|j: int| 1 <= j < k implies (#[trigger] ray_step_empty(b, x, y, dx, dy, j)
                <==> (j == 1 || ray_step_empty(b, x + dx, y + dy, dx, dy, j - 1))) by {
                assert((x + dx) + (j - 1) * dx == x + j * dx) by (nonlinear_arith);
                assert((y + dy) + (j - 1) * dy == y + j * dy) by (nonlinear_arith);
            }
            if (forall|j: int| 1 <= j < k ==> #[trigger] ray_step_empty(b, x, y, dx, dy, j)) {
                assert forall|j: int| 1 <= j < k - 1 implies #[trigger] ray_step_empty(
                    b,
                    x + dx,
                    y + dy,
                    dx,
                    dy,
                    j,
                ) by {
                    assert(ray_step_empty(b, x, y, dx, dy, j + 1));
                    assert((x + dx) + j * dx == x + (j + 1) * dx) by (nonlinear_arith);
                    assert((y + dy) + j * dy == y + (j + 1) * dy) by (nonlinear_arith);
                }
            }
            if (forall|j: int| 1 <= j < k - 1 ==> #[trigger] ray_step_empty(
                b,
                x + dx,
                y + dy,
                dx,
                dy,
                j,
            )) {
                assert forall|j: int| 1 <= j < k implies #[trigger] ray_step_empty(
                    b,
                    x,
                    y,
                    dx,
                    dy,
                    j,
                ) by {
                    if j > 1 {
                        assert(ray_step_empty(b, x + dx, y + dy, dx, dy, j - 1));
                    }
                }
            }
        }
    }
}

/// Sliding rays stop at the first occupied square: a square `k` steps out
/// along a ray direction is offered as a move exactly when every strictly
/// closer square on the ray is empty and the square itself is empty or
/// holds an enemy piece — so an enemy-occupied stopping square is included
/// and a friendly one is not.
pub proof fn lemma_ray_stops_at_first_occupied(
    b: Seq<Piece>,
    col: Colour,
    x: int,
    y: int,
    dx: int,
    dy: int,
    k: int,
)
    requires
        board_wf(b),
        within_xy(x, y),
        -1 <= dx <= 1,
        -1 <= dy <= 1,
        !(dx == 0 && dy == 0),
        1 <= k,
        within_xy(x + k * dx, y + k * dy),
    ensures
        move_ray(b, col, x, y, dx, dy, 8).contains(mk_sq(x + k * dx, y + k * dy)) <==> ((forall|
            j: int,
        |
            1 <= j < k ==> #[trigger] ray_step_empty(b, x, y, dx, dy, j)) && (empty_xy(
            b,
            x + k * dx,
            y + k * dy,
        ) || at_xy(b, x + k * dx, y + k * dy).colour != col)),
{
    assert(k <= 7) by {
        if dx != 0 {
            assert(k <= 7) by (nonlinear_arith)
                requires
                    dx == 1 || dx == -1,
                    1 <= k,
                    0 <= x <= 7,
                    0 <= x + k * dx <= 7,
            ;
        } else {
            assert(k <= 7) by (nonlinear_arith)
                requires
                    dy == 1 || dy == -1,
                    1 <= k,
                    0 <= y <= 7,
                    0 <= y + k * dy <= 7,
            ;
        }
    }
    assert forall|j: int| 1 <= j < k implies #[trigger] ray_step_within(x, y, dx, dy, j) by {
        assert(0 <= x + j * dx <= 7) by (nonlinear_arith)
            requires
                -1 <= dx <= 1,
                1 <= j < k,
                0 <= x <= 7,
                0 <= x + k * dx <= 7,
        ;
        assert(0 <= y + j * dy <= 7) by (nonlinear_arith)
            requires
                -1 <= dy <= 1,
                1 <= j < k,
                0 <= y <= 7,
                0 <= y + k * dy <= 7,
        ;
    }
    lemma_ray_membership(b, col, x, y, dx, dy, 8, k);
}

impl Board {
    /// The legal destinations of the piece on `coordinates`, in generation
    /// order: each pseudo-legal move is played on a copy of the board and
    /// kept only when the mover's king ends up unattacked.  The live board
    /// is never touched.
    #[verifier::loop_isolation(false)]
    pub(crate) fn legal_coords(&self, coordinates: (i8, i8)) -> (v: Vec<(i8, i8)>)
        requires
            board_wf(self.board@),
            spec_within_bounds(coordinates),
            at_sq(self.board@, coordinates).kind != PieceType::Empty ==> has_king(
                self.board@,
                at_sq(self.board@, coordinates).colour,
            ),
        ensures
            v@ == legal_moves_spec(self.board@, coordinates),
            forall|i: int| 0 <= i < v@.len() ==> move_candidate_ok(
                self.board@,
                coordinates,
                #[trigger] v@[i],
            ),
    {
        let ghost b = self.board@;
        let ghost pred = |m: (i8, i8)| move_is_legal(b, coordinates, m);
        let pseudo = self.get_pseudo_legal_moves(coordinates);
        let colour = self.piece_at(coordinates).get_colour();
        proof {
            lemma_pseudo_moves_ok(b, coordinates);
            reveal(Seq::filter);
            assert(pseudo@.take(0).filter(pred) =~= Seq::<(i8, i8)>::empty());
        }
        let mut legal: Vec<(i8, i8)> = Vec::new();
        let mut i: usize = 0;
        while i < pseudo.len()
            invariant
                i <= pseudo@.len(),
                legal@ == pseudo@.take(i as int).filter(pred),
                forall|n: int| 0 <= n < legal@.len() ==> move_candidate_ok(
                    b,
                    coordinates,
                    #[trigger] legal@[n],
                ),
            decreases pseudo@.len() - i,
        {
            let m = pseudo[i];
            proof {
                assert(at_sq(b, coordinates).kind != PieceType::Empty);
                assert(move_candidate_ok(b, coordinates, m));
                lemma_apply_keeps_kings(b, coordinates, m);
            }
            let mut sim = Board::copy(&self.board);
            sim.make_pseudo_legal_move(coordinates, m);
            let in_check = sim.king_in_check(colour);
            if !in_check {
                legal.push(m);
            }
            proof {
                reveal(Seq::filter);
                assert(pseudo@.take(i + 1).drop_last() =~= pseudo@.take(i as int));
                assert(pseudo@.take(i + 1).last() == m);
                assert(legal@ == pseudo@.take(i + 1).filter(pred));
            }
            i += 1;
        }
        proof {
            assert(pseudo@.take(pseudo@.len() as int) =~= pseudo@);
        }
        legal
    }

    /// The legal moves of the piece on the named square, as square names in
    /// generation order.
    #[verifier::loop_isolation(false)]
    pub fn get_legal_moves(&self, filerank: &String) -> (r: Vec<String>)
        requires
            board_wf(self.board@),
            valid_square_text(filerank@),
            at_sq(self.board@, spec_filerank_to_num(filerank@)).kind != PieceType::Empty
                ==> has_king(
                self.board@,
                at_sq(self.board@, spec_filerank_to_num(filerank@)).colour,
            ),
        ensures
            r@.len() == legal_moves_spec(self.board@, spec_filerank_to_num(filerank@)).len(),
            forall|i: int| 0 <= i < r@.len() ==> #[trigger] r@[i]@ == spec_num_to_filerank(
                legal_moves_spec(self.board@, spec_filerank_to_num(filerank@))[i],
            ),
    {
        let coordinates = Board::filerank_to_num(filerank);
        let legal = self.legal_coords(coordinates);
        let mut out: Vec<String> = Vec::new();
        let mut i: usize = 0;
        while i < legal.len()
            invariant
                i <= legal@.len(),
                out@.len() == i,
                forall|n: int| 0 <= n < i ==> #[trigger] out@[n]@ == spec_num_to_filerank(
                    legal@[n],
                ),
            decreases legal@.len() - i,
        {
            out.push(Board::num_to_filerank(&legal[i]));
            i += 1;
        }
        out
    }

    /// Play `from -> to` if `to` is among the legal moves of the piece on
    /// `from`; otherwise report an illegal move and leave the board alone.
    pub fn make_move(&mut self, from: &String, to: &String) -> (r: Result<(), crate::MoveError>)
        requires
            board_wf(old(self).board@),
            valid_square_text(from@),
            valid_square_text(to@),
            at_sq(old(self).board@, spec_filerank_to_num(from@)).kind != PieceType::Empty
                ==> has_king(
                old(self).board@,
                at_sq(old(self).board@, spec_filerank_to_num(from@)).colour,
            ),
        ensures
            ({
                let b0 = old(self).board@;
                let fc = spec_filerank_to_num(from@);
                let tc = spec_filerank_to_num(to@);
                if legal_moves_spec(b0, fc).contains(tc) {
                    r is Ok && final(self).board@ == apply_move_spec(b0, fc, tc)
                } else {
                    r == Result::<(), crate::MoveError>::Err(crate::MoveError::IllegalMove)
                        && final(self).board@ == b0
                }
            }),
            final(self).white_threat_map == old(self).white_threat_map,
            final(self).black_threat_map == old(self).black_threat_map,
    {
        let from_c = Board::filerank_to_num(from);
        let to_c = Board::filerank_to_num(to);
        let legal = self.legal_coords(from_c);
        if Self::contains_square(&legal, to_c) {
            self.make_pseudo_legal_move(from_c, to_c);
            Ok(())
        } else {
            Err(crate::MoveError::IllegalMove)
        }
    }
}

} // verus!
