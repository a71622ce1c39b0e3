//! Per-piece "attacked or defended" squares and the two whole-board threat
//! maps.  Threat rules differ from move rules on purpose: a pawn threatens
//! only its two forward diagonals (never the push squares); knight and king
//! threats count squares held by friendly pieces (they are defended); and a
//! sliding piece's ray includes the first occupied square whether friend or
//! foe, then stops.

use vstd::prelude::*;
use crate::chess::piece_data::{Colour, PieceType};
use crate::chess::piece::Piece;
use crate::chess::board::{
    Board, board_wf, within_xy, mk_sq, at_xy, at_sq, empty_xy, spec_within_bounds,
    spec_king_square,
};

verus! {

/// The forward direction of a pawn: White moves toward rank index 0.
pub open spec fn pawn_dir(c: Colour) -> int {
    if c == Colour::White {
        -1
    } else {
        1
    }
}

/// May the pawn of colour `col` on `(x, y)` capture en passant toward file
/// offset `dir`?  It must stand on one of the two mid-board ranks, the
/// adjacent square must hold an enemy pawn flagged en-passant-capturable,
/// and the landing square must be an empty board square.
pub open spec fn ep_capture_ok(b: Seq<Piece>, x: int, y: int, col: Colour, dir: int) -> bool {
    &&& (y == 3 || y == 4)
    &&& within_xy(x + dir, y + pawn_dir(col))
    &&& within_xy(x + dir, y)
    &&& at_xy(b, x + dir, y).kind == PieceType::Pawn
    &&& at_xy(b, x + dir, y).colour != col
    &&& at_xy(b, x + dir, y).en_passant
    &&& empty_xy(b, x + dir, y + pawn_dir(col))
}

/// The candidate square `(x, y)` if it is on the board, else nothing.
pub open spec fn within_term(x: int, y: int) -> Seq<(i8, i8)> {
    if within_xy(x, y) {
        seq![mk_sq(x, y)]
    } else {
        Seq::empty()
    }
}

/// One sliding-piece ray for threat purposes, starting one step from
/// `(x, y)`: empty squares along the way are all included; the first
/// occupied square is included whether friend or foe, and stops the ray.
pub open spec fn threat_ray(
    b: Seq<Piece>,
    x: int,
    y: int,
    dx: int,
    dy: int,
    fuel: nat,
) -> Seq<(i8, i8)>
    decreases fuel,
{
    if fuel == 0 {
        Seq::empty()
    } else if !within_xy(x + dx, y + dy) {
        Seq::empty()
    } else if empty_xy(b, x + dx, y + dy) {
        seq![mk_sq(x + dx, y + dy)] + threat_ray(b, x + dx, y + dy, dx, dy, (fuel - 1) as nat)
    } else {
        seq![mk_sq(x + dx, y + dy)]
    }
}

/// Squares a pawn attacks or defends: the two forward diagonals (left then
/// right), then any applicable en-passant target squares (left then right).
pub open spec fn pawn_threats_spec(b: Seq<Piece>, x: int, y: int, col: Colour) -> Seq<(i8, i8)> {
    within_term(x - 1, y + pawn_dir(col)) + within_term(x + 1, y + pawn_dir(col)) + (if ep_capture_ok(
        b,
        x,
        y,
        col,
        -1,
    ) {
        seq![mk_sq(x - 1, y + pawn_dir(col))]
    } else {
        Seq::empty()
    }) + (if ep_capture_ok(b, x, y, col, 1) {
        seq![mk_sq(x + 1, y + pawn_dir(col))]
    } else {
        Seq::empty()
    })
}

/// Squares a knight attacks or defends: the eight L-shaped offsets, signs
/// outermost (x sign, then y sign), arm assignment innermost, every
/// in-bounds square included whether occupied or not.
pub open spec fn knight_threats_spec(x: int, y: int) -> Seq<(i8, i8)> {
    within_term(x - 1, y - 2) + within_term(x - 2, y - 1) + within_term(x - 1, y + 2)
        + within_term(x - 2, y + 1) + within_term(x + 1, y - 2) + within_term(x + 2, y - 1)
        + within_term(x + 1, y + 2) + within_term(x + 2, y + 1)
}

/// Squares a king attacks or defends: the eight neighbours, rank offset
/// outermost, file offset innermost, in-bounds squares included whether
/// occupied or not.
pub open spec fn king_threats_spec(x: int, y: int) -> Seq<(i8, i8)> {
    within_term(x - 1, y - 1) + within_term(x, y - 1) + within_term(x + 1, y - 1)
        + within_term(x - 1, y) + within_term(x + 1, y) + within_term(x - 1, y + 1)
        + within_term(x, y + 1) + within_term(x + 1, y + 1)
}

/// Squares a bishop attacks or defends: four diagonal rays, the upward pair
/// before the downward pair, left before right within each pair.
pub open spec fn bishop_threats_spec(b: Seq<Piece>, x: int, y: int) -> Seq<(i8, i8)> {
    threat_ray(b, x, y, -1, -1, 8) + threat_ray(b, x, y, 1, -1, 8) + threat_ray(b, x, y, -1, 1, 8)
        + threat_ray(b, x, y, 1, 1, 8)
}

/// Squares a rook attacks or defends: both horizontal rays, then both
/// vertical rays.
pub open spec fn rook_threats_spec(b: Seq<Piece>, x: int, y: int) -> Seq<(i8, i8)> {
    threat_ray(b, x, y, -1, 0, 8) + threat_ray(b, x, y, 1, 0, 8) + threat_ray(b, x, y, 0, -1, 8)
        + threat_ray(b, x, y, 0, 1, 8)
}

/// Squares a queen attacks or defends: the bishop rays, then the rook rays.
pub open spec fn queen_threats_spec(b: Seq<Piece>, x: int, y: int) -> Seq<(i8, i8)> {
    bishop_threats_spec(b, x, y) + rook_threats_spec(b, x, y)
}

/// Every square the piece standing on `c` attacks or defends; nothing for an
/// empty square.
pub open spec fn piece_threats_spec(b: Seq<Piece>, c: (i8, i8)) -> Seq<(i8, i8)> {
    let p = at_sq(b, c);
    let x = c.0 as int;
    let y = c.1 as int;
    match p.kind {
        PieceType::Pawn => pawn_threats_spec(b, x, y, p.colour),
        PieceType::Knight => knight_threats_spec(x, y),
        PieceType::Bishop => bishop_threats_spec(b, x, y),
        PieceType::Rook => rook_threats_spec(b, x, y),
        PieceType::Queen => queen_threats_spec(b, x, y),
        PieceType::King => king_threats_spec(x, y),
        PieceType::Empty => Seq::empty(),
    }
}

/// Does some piece of colour `col` attack or defend the square `t`?
pub open spec fn threatened(b: Seq<Piece>, col: Colour, t: (i8, i8)) -> bool {
    exists|x: int, y: int|
        #![trigger piece_threats_spec(b, mk_sq(x, y))]
        within_xy(x, y) && at_xy(b, x, y).colour == col && piece_threats_spec(
            b,
            mk_sq(x, y),
        ).contains(t)
}

/// Is the king of colour `col` on a square the other colour attacks?
pub open spec fn spec_in_check(b: Seq<Piece>, col: Colour) -> bool {
    threatened(b, crate::chess::piece_data::other_colour(col), spec_king_square(b, col))
}

impl Board {
    /// Append the candidate square to the list when it is on the board.
    pub(crate) fn push_if_within(v: &mut Vec<(i8, i8)>, x: i8, y: i8)
        requires
            -16 <= x <= 16,
            -16 <= y <= 16,
        ensures
            final(v)@ == old(v)@ + within_term(x as int, y as int),
    {
        if x >= 0 && x <= 7 && y >= 0 && y <= 7 {
            v.push((x, y));
            proof {
                assert(v@ =~= old(v)@ + within_term(x as int, y as int));
            }
        } else {
            proof {
                assert(v@ =~= old(v)@ + within_term(x as int, y as int));
            }
        }
    }

    /// Does the pawn of colour `colour` on `coordinates` have an en-passant
    /// capture toward file offset `dir`?
    pub(crate) fn can_capture_en_passant(&self, coordinates: (i8, i8), colour: Colour, dir: i8) -> (r: bool)
        requires
            board_wf(self.board@),
            spec_within_bounds(coordinates),
            dir == -1 || dir == 1,
        ensures
            r == ep_capture_ok(
                self.board@,
                coordinates.0 as int,
                coordinates.1 as int,
                colour,
                dir as int,
            ),
    {
        let (x, y) = coordinates;
        if y != 3 && y != 4 {
            return false;
        }
        let move_direction: i8 = if colour == Colour::White { -1 } else { 1 };
        let tx = x + dir;
        let ty = y + move_direction;
        if !(tx >= 0 && tx <= 7 && ty >= 0 && ty <= 7) {
            return false;
        }
        let adjacent = self.piece_at((tx, y));
        adjacent.get_type() == PieceType::Pawn && adjacent.get_colour() != colour
            && adjacent.en_passant && self.is_empty((tx, ty))
    }

    /// Walk one threat ray outward from `(x, y)`, appending every square the
    /// ray reaches.
    fn cast_threat_ray(&self, v: &mut Vec<(i8, i8)>, x: i8, y: i8, dx: i8, dy: i8, fuel: u8)
        requires
            board_wf(self.board@),
            -1 <= dx <= 1,
            -1 <= dy <= 1,
            -16 <= x <= 16,
            -16 <= y <= 16,
            fuel <= 8,
        ensures
            final(v)@ == old(v)@ + threat_ray(
                self.board@,
                x as int,
                y as int,
                dx as int,
                dy as int,
                fuel as nat,
            ),
        decreases fuel,
    {
        if fuel == 0 {
            proof {
                assert(v@ =~= old(v)@ + Seq::<(i8, i8)>::empty());
            }
            return;
        }
        let nx = x + dx;
        let ny = y + dy;
        if !(nx >= 0 && nx <= 7 && ny >= 0 && ny <= 7) {
            proof {
                assert(v@ =~= old(v)@ + Seq::<(i8, i8)>::empty());
            }
            return;
        }
        v.push((nx, ny));
        if self.is_empty((nx, ny)) {
            self.cast_threat_ray(v, nx, ny, dx, dy, fuel - 1);
            proof {
                assert(v@ =~= old(v)@ + threat_ray(
                    self.board@,
                    x as int,
                    y as int,
                    dx as int,
                    dy as int,
                    fuel as nat,
                ));
            }
        } else {
            proof {
                assert(v@ =~= old(v)@ + threat_ray(
                    self.board@,
                    x as int,
                    y as int,
                    dx as int,
                    dy as int,
                    fuel as nat,
                ));
            }
        }
    }

    /// The squares the pawn on `coordinates` attacks or defends.
    fn get_pawn_threats(&self, coordinates: (i8, i8), colour: Colour) -> (v: Vec<(i8, i8)>)
        requires
            board_wf(self.board@),
            spec_within_bounds(coordinates),
        ensures
            v@ == pawn_threats_spec(
                self.board@,
                coordinates.0 as int,
                coordinates.1 as int,
                colour,
            ),
    {
        let (x, y) = coordinates;
        let move_direction: i8 = if colour == Colour::White { -1 } else { 1 };
        let mut moves: Vec<(i8, i8)> = Vec::new();
        Self::push_if_within(&mut moves, x - 1, y + move_direction);
        Self::push_if_within(&mut moves, x + 1, y + move_direction);
        if self.can_capture_en_passant(coordinates, colour, -1) {
            moves.push((x - 1, y + move_direction));
        }
        if self.can_capture_en_passant(coordinates, colour, 1) {
            moves.push((x + 1, y + move_direction));
        }
        proof {
            assert(moves@ =~= pawn_threats_spec(
                self.board@,
                coordinates.0 as int,
                coordinates.1 as int,
                colour,
            ));
        }
        moves
    }

    /// The squares the knight on `coordinates` attacks or defends.
    fn get_knight_threats(&self, coordinates: (i8, i8)) -> (v: Vec<(i8, i8)>)
        requires
            board_wf(self.board@),
            spec_within_bounds(coordinates),
        ensures
            v@ == knight_threats_spec(coordinates.0 as int, coordinates.1 as int),
    {
        let (x, y) = coordinates;
        let mut moves: Vec<(i8, i8)> = Vec::new();
        Self::push_if_within(&mut moves, x - 1, y - 2);
        Self::push_if_within(&mut moves, x - 2, y - 1);
        Self::push_if_within(&mut moves, x - 1, y + 2);
        Self::push_if_within(&mut moves, x - 2, y + 1);
        Self::push_if_within(&mut moves, x + 1, y - 2);
        Self::push_if_within(&mut moves, x + 2, y - 1);
        Self::push_if_within(&mut moves, x + 1, y + 2);
        Self::push_if_within(&mut moves, x + 2, y + 1);
        proof {
            assert(moves@ =~= knight_threats_spec(coordinates.0 as int, coordinates.1 as int));
        }
        moves
    }

    /// The squares the king on `coordinates` attacks or defends.
    fn get_king_threats(&self, coordinates: (i8, i8)) -> (v: Vec<(i8, i8)>)
        requires
            board_wf(self.board@),
            spec_within_bounds(coordinates),
        ensures
            v@ == king_threats_spec(coordinates.0 as int, coordinates.1 as int),
    {
        let (x, y) = coordinates;
        let mut moves: Vec<(i8, i8)> = Vec::new();
        Self::push_if_within(&mut moves, x - 1, y - 1);
        Self::push_if_within(&mut moves, x, y - 1);
        Self::push_if_within(&mut moves, x + 1, y - 1);
        Self::push_if_within(&mut moves, x - 1, y);
        Self::push_if_within(&mut moves, x + 1, y);
        Self::push_if_within(&mut moves, x - 1, y + 1);
        Self::push_if_within(&mut moves, x, y + 1);
        Self::push_if_within(&mut moves, x + 1, y + 1);
        proof {
            assert(moves@ =~= king_threats_spec(coordinates.0 as int, coordinates.1 as int));
        }
        moves
    }

    /// The squares the bishop on `coordinates` attacks or defends.
    fn get_bishop_threats(&self, coordinates: (i8, i8)) -> (v: Vec<(i8, i8)>)
        requires
            board_wf(self.board@),
            spec_within_bounds(coordinates),
        ensures
            v@ == bishop_threats_spec(self.board@, coordinates.0 as int, coordinates.1 as int),
    {
        let (x, y) = coordinates;
        let mut moves: Vec<(i8, i8)> = Vec::new();
        self.cast_threat_ray(&mut moves, x, y, -1, -1, 8);
        self.cast_threat_ray(&mut moves, x, y, 1, -1, 8);
        self.cast_threat_ray(&mut moves, x, y, -1, 1, 8);
        self.cast_threat_ray(&mut moves, x, y, 1, 1, 8);
        proof {
            assert(moves@ =~= bishop_threats_spec(
                self.board@,
                coordinates.0 as int,
                coordinates.1 as int,
            ));
        }
        moves
    }

    /// The squares the rook on `coordinates` attacks or defends.
    fn get_rook_threats(&self, coordinates: (i8, i8)) -> (v: Vec<(i8, i8)>)
        requires
            board_wf(self.board@),
            spec_within_bounds(coordinates),
        ensures
            v@ == rook_threats_spec(self.board@, coordinates.0 as int, coordinates.1 as int),
    {
        let (x, y) = coordinates;
        let mut moves: Vec<(i8, i8)> = Vec::new();
        self.cast_threat_ray(&mut moves, x, y, -1, 0, 8);
        self.cast_threat_ray(&mut moves, x, y, 1, 0, 8);
        self.cast_threat_ray(&mut moves, x, y, 0, -1, 8);
        self.cast_threat_ray(&mut moves, x, y, 0, 1, 8);
        proof {
            assert(moves@ =~= rook_threats_spec(
                self.board@,
                coordinates.0 as int,
                coordinates.1 as int,
            ));
        }
        moves
    }

    /// The squares the queen on `coordinates` attacks or defends.
    fn get_queen_threats(&self, coordinates: (i8, i8)) -> (v: Vec<(i8, i8)>)
        requires
            board_wf(self.board@),
            spec_within_bounds(coordinates),
        ensures
            v@ == queen_threats_spec(self.board@, coordinates.0 as int, coordinates.1 as int),
    {
        let (x, y) = coordinates;
        let mut moves = self.get_bishop_threats(coordinates);
        let mut rook_part = self.get_rook_threats(coordinates);
        moves.append(&mut rook_part);
        moves
    }

    /// Every square the piece on `coordinates` attacks or defends.
    fn get_piece_threat_moves(&self, coordinates: (i8, i8)) -> (v: Vec<(i8, i8)>)
        requires
            board_wf(self.board@),
            spec_within_bounds(coordinates),
        ensures
            v@ == piece_threats_spec(self.board@, coordinates),
    {
        let piece = self.piece_at(coordinates);
        proof {
            assert(mk_sq(coordinates.0 as int, coordinates.1 as int) == coordinates);
        }
        match piece.get_type() {
            PieceType::Pawn => self.get_pawn_threats(coordinates, piece.get_colour()),
            PieceType::Knight => self.get_knight_threats(coordinates),
            PieceType::Bishop => self.get_bishop_threats(coordinates),
            PieceType::Rook => self.get_rook_threats(coordinates),
            PieceType::Queen => self.get_queen_threats(coordinates),
            PieceType::King => self.get_king_threats(coordinates),
            PieceType::Empty => Vec::new(),
        }
    }

    /// Recompute both cached threat maps from the current squares: for every
    /// square of the board, the piece's threat squares are added to its
    /// colour's map.  Membership in the finished maps is exactly the
    /// `threatened` relation; the squares themselves are untouched.
    pub fn generate_threat_maps(&mut self)
        requires
            board_wf(old(self).board@),
        ensures
            final(self).board == old(self).board,
            forall|t: (i8, i8)| #[trigger]
                final(self).white_threat_map@.contains(t) == threatened(
                    old(self).board@,
                    Colour::White,
                    t,
                ),
            forall|t: (i8, i8)| #[trigger]
                final(self).black_threat_map@.contains(t) == threatened(
                    old(self).board@,
                    Colour::Black,
                    t,
                ),
    {
        let ghost b = self.board@;
        let mut white_map: Vec<(i8, i8)> = Vec::new();
        let mut black_map: Vec<(i8, i8)> = Vec::new();
        let mut j: usize = 0;
        while j < 64
            invariant
                j <= 64,
                board_wf(self.board@),
                self.board@ == b,
                forall|t: (i8, i8)| #[trigger] white_map@.contains(t) == exists|x: int, y: int|
                    #![trigger piece_threats_spec(b, mk_sq(x, y))]
                    within_xy(x, y) && x * 8 + y < j && at_xy(b, x, y).colour == Colour::White
                        && piece_threats_spec(b, mk_sq(x, y)).contains(t),
                forall|t: (i8, i8)| #[trigger] black_map@.contains(t) == exists|x: int, y: int|
                    #![trigger piece_threats_spec(b, mk_sq(x, y))]
                    within_xy(x, y) && x * 8 + y < j && at_xy(b, x, y).colour == Colour::Black
                        && piece_threats_spec(b, mk_sq(x, y)).contains(t),
            decreases 64 - j,
        {
            let x: i8 = (j / 8) as i8;
            let y: i8 = (j % 8) as i8;
            let piece = self.piece_at((x, y));
            let mut piece_moves = self.get_piece_threat_moves((x, y));
            proof {
                assert(mk_sq(x as int, y as int) == (x, y));
            }
            if piece.get_colour() == Colour::Black {
                let ghost old_map = black_map@;
                black_map.append(&mut piece_moves);
                proof {
                    assert forall|t: (i8, i8)| #[trigger] black_map@.contains(t)
                        == (old_map.contains(t) || piece_threats_spec(b, mk_sq(x as int, y as int)).contains(
                        t,
                    )) by {
                        let tv = piece_threats_spec(b, mk_sq(x as int, y as int));
                        if black_map@.contains(t) {
                            let i = choose|i: int| 0 <= i < black_map@.len() && black_map@[i] == t;
                            if i < old_map.len() {
                                assert(old_map.contains(t));
                            } else {
                                assert(tv[i - old_map.len()] == t);
                                assert(tv.contains(t));
                            }
                        }
                        if old_map.contains(t) {
                            let i = choose|i: int| 0 <= i < old_map.len() && old_map[i] == t;
                            assert(black_map@[i] == t);
                        }
                        if tv.contains(t) {
                            let i = choose|i: int| 0 <= i < tv.len() && tv[i] == t;
                            assert(black_map@[old_map.len() + i] == t);
                        }
                    }
                }
            } else {
                let ghost old_map = white_map@;
                white_map.append(&mut piece_moves);
                proof {
                    assert forall|t: (i8, i8)| #[trigger] white_map@.contains(t)
                        == (old_map.contains(t) || piece_threats_spec(b, mk_sq(x as int, y as int)).contains(
                        t,
                    )) by {
                        let tv = piece_threats_spec(b, mk_sq(x as int, y as int));
                        if white_map@.contains(t) {
                            let i = choose|i: int| 0 <= i < white_map@.len() && white_map@[i] == t;
                            if i < old_map.len() {
                                assert(old_map.contains(t));
                            } else {
                                assert(tv[i - old_map.len()] == t);
                                assert(tv.contains(t));
                            }
                        }
                        if old_map.contains(t) {
                            let i = choose|i: int| 0 <= i < old_map.len() && old_map[i] == t;
                            assert(white_map@[i] == t);
                        }
                        if tv.contains(t) {
                            let i = choose|i: int| 0 <= i < tv.len() && tv[i] == t;
                            assert(white_map@[old_map.len() + i] == t);
                        }
                    }
                }
            }
            proof {
                assert forall|sx: int, sy: int| within_xy(sx, sy) && sx * 8 + sy < j + 1 implies
                    within_xy(sx, sy) && (sx * 8 + sy < j || (sx == x as int && sy == y as int)) by {
                    if sx * 8 + sy >= j {
                        assert(sx == x as int && sy == y as int);
                    }
                }
            }
            j += 1;
        }
        proof {
            assert forall|sx: int, sy: int| within_xy(sx, sy) implies sx * 8 + sy < 64 by {}
        }
        self.white_threat_map = white_map;
        self.black_threat_map = black_map;
    }

    /// Does some piece of colour `col` attack or defend the square `t`?
    #[verifier::loop_isolation(false)]
    pub fn square_threatened_by(&self, col: Colour, t: (i8, i8)) -> (r: bool)
        requires
            board_wf(self.board@),
        ensures
            r == threatened(self.board@, col, t),
    {
        let ghost b = self.board@;
        let mut j: usize = 0;
        while j < 64
            invariant
                j <= 64,
                board_wf(self.board@),
                self.board@ == b,
                forall|x: int, y: int|
                    #![trigger piece_threats_spec(b, mk_sq(x, y))]
                    within_xy(x, y) && x * 8 + y < j && at_xy(b, x, y).colour == col
                        ==> !piece_threats_spec(b, mk_sq(x, y)).contains(t),
            decreases 64 - j,
        {
            let x: i8 = (j / 8) as i8;
            let y: i8 = (j % 8) as i8;
            let piece = self.piece_at((x, y));
            proof {
                assert(mk_sq(x as int, y as int) == (x, y));
            }
            if piece.get_colour() == col {
                let piece_moves = self.get_piece_threat_moves((x, y));
                let mut k: usize = 0;
                while k < piece_moves.len()
                    invariant
                        k <= piece_moves@.len(),
                        piece_moves@ == piece_threats_spec(b, (x, y)),
                        forall|i: int| 0 <= i < k ==> piece_moves@[i] != t,
                    decreases piece_moves@.len() - k,
                {
                    let m = piece_moves[k];
                    if m.0 == t.0 && m.1 == t.1 {
                        proof {
                            assert(m == t);
                            assert(piece_moves@[k as int] == t);
                            assert(piece_threats_spec(b, mk_sq(x as int, y as int)).contains(t));
                            assert(within_xy(x as int, y as int) && at_xy(
                                b,
                                x as int,
                                y as int,
                            ).colour == col);
                        }
                        return true;
                    }
                    k += 1;
                }
                assert(!piece_threats_spec(b, mk_sq(x as int, y as int)).contains(t));
            }
            proof {
                assert forall|sx: int, sy: int| within_xy(sx, sy) && sx * 8 + sy < j + 1 implies
                    sx * 8 + sy < j || (sx == x as int && sy == y as int) by {}
            }
            j += 1;
        }
        proof {
            assert forall|sx: int, sy: int| within_xy(sx, sy) implies sx * 8 + sy < 64 by {}
        }
        false
    }
}

} // verus!
