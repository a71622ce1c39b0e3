//! The board: 64 squares of piece values, row by row from the top of the
//! board (rank index 0 is the chess 8th rank and rank indices grow downward),
//! plus two cached threat maps, one per colour.  The caches are only
//! meaningful right after `generate_threat_maps` ran; nothing keeps them in
//! step with the squares automatically.
//!
//! A square is addressed as `(file, rank)` with both components between 0
//! and 7; the square `(x, y)` lives at index `y * 8 + x` of the vector.

use vstd::prelude::*;
use vstd::pervasive::VecAdditionalExecFns;
use crate::chess::piece_data::{Colour, PieceType};
use crate::chess::piece::{Piece, empty_piece, spec_piece_from_u8};

verus! {

/// The playing surface and its two cached threat maps.
#[derive(Debug)]
pub struct Board {
    pub board: Vec<Piece>,
    pub white_threat_map: Vec<(i8, i8)>,
    pub black_threat_map: Vec<(i8, i8)>,
}

/// A well-formed grid holds exactly one piece value per square.
pub open spec fn board_wf(b: Seq<Piece>) -> bool {
    b.len() == 64
}

/// Do integer coordinates name a square of the board?
pub open spec fn within_xy(x: int, y: int) -> bool {
    0 <= x < 8 && 0 <= y < 8
}

/// The square value for integer coordinates known to be on the board.
pub open spec fn mk_sq(x: int, y: int) -> (i8, i8) {
    (x as i8, y as i8)
}

/// The piece standing on the square with integer coordinates `(x, y)`.
pub open spec fn at_xy(b: Seq<Piece>, x: int, y: int) -> Piece {
    b[y * 8 + x]
}

/// Is the square `(x, y)` empty?
pub open spec fn empty_xy(b: Seq<Piece>, x: int, y: int) -> bool {
    at_xy(b, x, y).kind == PieceType::Empty
}

/// Does a piece of colour `col` stand on the square `(x, y)`?
pub open spec fn own_xy(b: Seq<Piece>, x: int, y: int, col: Colour) -> bool {
    at_xy(b, x, y).kind != PieceType::Empty && at_xy(b, x, y).colour == col
}

/// Does the king of colour `col` stand on the square `(x, y)`?
pub open spec fn king_xy(b: Seq<Piece>, x: int, y: int, col: Colour) -> bool {
    at_xy(b, x, y).kind == PieceType::King && at_xy(b, x, y).colour == col
}

/// Is a square in bounds, as a predicate on square values?
pub open spec fn spec_within_bounds(c: (i8, i8)) -> bool {
    within_xy(c.0 as int, c.1 as int)
}

/// The piece standing on a square.
pub open spec fn at_sq(b: Seq<Piece>, c: (i8, i8)) -> Piece {
    at_xy(b, c.0 as int, c.1 as int)
}

/// Does the board hold at least one king of this colour?
pub open spec fn has_king(b: Seq<Piece>, col: Colour) -> bool {
    exists|x: int, y: int| within_xy(x, y) && #[trigger] king_xy(b, x, y, col)
}

/// The king search order: files outermost, ranks innermost, both ascending.
/// Step `i` of the scan visits the square `(i / 8, i % 8)`.
pub open spec fn king_scan(b: Seq<Piece>, col: Colour, i: nat) -> (i8, i8)
    decreases 64 - i,
{
    if i >= 64 {
        (0, 0)
    } else if king_xy(b, i as int / 8, i as int % 8, col) {
        mk_sq(i as int / 8, i as int % 8)
    } else {
        king_scan(b, col, i + 1)
    }
}

/// The square of the first king of colour `col` in scan order.
pub open spec fn spec_king_square(b: Seq<Piece>, col: Colour) -> (i8, i8) {
    king_scan(b, col, 0)
}

/// If nothing before scan step `i` is a king of colour `col` and step `i` is,
/// the scan started at step `k` stops exactly there.
proof fn lemma_king_scan_finds(b: Seq<Piece>, col: Colour, k: nat, i: nat)
    requires
        k <= i < 64,
        forall|j: nat| k <= j < i ==> !king_xy(b, #[trigger] (j as int / 8), j as int % 8, col),
        king_xy(b, i as int / 8, i as int % 8, col),
    ensures
        king_scan(b, col, k) == mk_sq(i as int / 8, i as int % 8),
    decreases i - k,
{
    if k < i {
        assert(!king_xy(b, k as int / 8, k as int % 8, col));
        lemma_king_scan_finds(b, col, k + 1, i);
    }
}

/// The packed byte of the piece that starts the game on square `(x, y)`:
/// the black back rank on rank index 0, black pawns on 1, white pawns on 6,
/// the white back rank on 7, nothing in between.  Back-rank pieces and pawns
/// carry the has-not-moved flag, except the knights and bishops, which start
/// without it: the flag only ever matters for pawns, rooks and kings.
pub open spec fn start_byte(x: int, y: int) -> u8 {
    if y == 1 {
        0x83
    } else if y == 6 {
        0x82
    } else if y == 0 {
        if x == 0 || x == 7 {
            0x89
        } else if x == 1 || x == 6 {
            0x05
        } else if x == 2 || x == 5 {
            0x07
        } else if x == 3 {
            0x8B
        } else {
            0x8D
        }
    } else if y == 7 {
        if x == 0 || x == 7 {
            0x88
        } else if x == 1 || x == 6 {
            0x04
        } else if x == 2 || x == 5 {
            0x06
        } else if x == 3 {
            0x8A
        } else {
            0x8C
        }
    } else {
        0
    }
}

/// The standard starting position, row by row from the top of the board.
pub open spec fn spec_start_board() -> Seq<Piece> {
    Seq::new(64, |i: int| spec_piece_from_u8(start_byte(i % 8, i / 8)))
}

/// An empty grid with the two kings on their home squares, e8 and e1, both
/// carrying the has-not-moved flag.
pub open spec fn spec_empty_board() -> Seq<Piece> {
    Seq::new(64, |i: int| if i == 4 {
        spec_piece_from_u8(0x8D)
    } else if i == 60 {
        spec_piece_from_u8(0x8C)
    } else {
        empty_piece()
    })
}

/// Both starting grids hold a king of either colour.
pub proof fn lemma_setup_boards_have_kings()
    ensures
        has_king(spec_start_board(), Colour::White),
        has_king(spec_start_board(), Colour::Black),
        has_king(spec_empty_board(), Colour::White),
        has_king(spec_empty_board(), Colour::Black),
{
    assert(king_xy(spec_start_board(), 4, 7, Colour::White));
    assert(king_xy(spec_start_board(), 4, 0, Colour::Black));
    assert(king_xy(spec_empty_board(), 4, 7, Colour::White));
    assert(king_xy(spec_empty_board(), 4, 0, Colour::Black));
}

impl Board {
    /// A standard chess board with every piece on its starting square.
    pub fn new() -> (b: Board)
        ensures
            b.board@ == spec_start_board(),
            b.white_threat_map@ == Seq::<(i8, i8)>::empty(),
            b.black_threat_map@ == Seq::<(i8, i8)>::empty(),
    {
        let mut board: Vec<Piece> = Vec::new();
        let mut i: usize = 0;
        while i < 64
            invariant
                i <= 64,
                board@.len() == i,
                forall|j: int| 0 <= j < i ==> board@[j] == spec_piece_from_u8(
                    start_byte(j % 8, j / 8),
                ),
            decreases 64 - i,
        {
            let x = i % 8;
            let y = i / 8;
            let byte: u8 = if y == 1 {
                0x83
            } else if y == 6 {
                0x82
            } else if y == 0 {
                if x == 0 || x == 7 {
                    0x89
                } else if x == 1 || x == 6 {
                    0x05
                } else if x == 2 || x == 5 {
                    0x07
                } else if x == 3 {
                    0x8B
                } else {
                    0x8D
                }
            } else if y == 7 {
                if x == 0 || x == 7 {
                    0x88
                } else if x == 1 || x == 6 {
                    0x04
                } else if x == 2 || x == 5 {
                    0x06
                } else if x == 3 {
                    0x8A
                } else {
                    0x8C
                }
            } else {
                0
            };
            board.push(Piece::from_u8(byte));
            i += 1;
        }
        proof {
            assert(board@ =~= spec_start_board());
        }
        Board { board, white_threat_map: Vec::new(), black_threat_map: Vec::new() }
    }

    /// An empty board with only the two kings, each on its starting square.
    pub fn new_empty() -> (b: Board)
        ensures
            b.board@ == spec_empty_board(),
            b.white_threat_map@ == Seq::<(i8, i8)>::empty(),
            b.black_threat_map@ == Seq::<(i8, i8)>::empty(),
    {
        let mut board: Vec<Piece> = Vec::new();
        let mut i: usize = 0;
        while i < 64
            invariant
                i <= 64,
                board@.len() == i,
                forall|j: int| 0 <= j < i ==> board@[j] == spec_empty_board()[j],
            decreases 64 - i,
        {
            if i == 4 {
                board.push(Piece::from_u8(0x8D));
            } else if i == 60 {
                board.push(Piece::from_u8(0x8C));
            } else {
                board.push(Piece::from_u8(0x00));
            }
            i += 1;
        }
        proof {
            assert(board@ =~= spec_empty_board());
        }
        Board { board, white_threat_map: Vec::new(), black_threat_map: Vec::new() }
    }

    /// A fresh board around a copy of an existing grid, with cleared caches.
    pub fn copy(grid: &Vec<Piece>) -> (b: Board)
        ensures
            b.board@ == grid@,
            b.white_threat_map@ == Seq::<(i8, i8)>::empty(),
            b.black_threat_map@ == Seq::<(i8, i8)>::empty(),
    {
        let mut board: Vec<Piece> = Vec::new();
        let mut i: usize = 0;
        while i < grid.len()
            invariant
                i <= grid@.len(),
                board@ == grid@.take(i as int),
            decreases grid@.len() - i,
        {
            board.push(grid[i]);
            proof {
                assert(board@ =~= grid@.take(i + 1));
            }
            i += 1;
        }
        proof {
            assert(board@ =~= grid@);
        }
        Board { board, white_threat_map: Vec::new(), black_threat_map: Vec::new() }
    }

    /// The piece at a coordinate position.
    pub fn piece_at(&self, coordinates: (i8, i8)) -> (p: Piece)
        requires
            board_wf(self.board@),
            spec_within_bounds(coordinates),
        ensures
            p == at_sq(self.board@, coordinates),
    {
        self.board[coordinates.1 as usize * 8 + coordinates.0 as usize]
    }

    /// A mutable reference to the piece at a coordinate position.
    pub fn mut_piece_at(&mut self, coordinates: (i8, i8)) -> (p: &mut Piece)
        requires
            board_wf(old(self).board@),
            spec_within_bounds(coordinates),
        ensures
            *p == at_sq(old(self).board@, coordinates),
            final(self).board@ == old(self).board@.update(
                coordinates.1 as int * 8 + coordinates.0 as int,
                *final(p),
            ),
    {
        &mut self.board[coordinates.1 as usize * 8 + coordinates.0 as usize]
    }

    /// Replace the piece at a coordinate position.
    pub fn set_piece_at(&mut self, coordinates: (i8, i8), piece: Piece)
        requires
            board_wf(old(self).board@),
            spec_within_bounds(coordinates),
        ensures
            final(self).board@ == old(self).board@.update(
                coordinates.1 as int * 8 + coordinates.0 as int,
                piece,
            ),
            final(self).white_threat_map == old(self).white_threat_map,
            final(self).black_threat_map == old(self).black_threat_map,
    {
        self.board.set(coordinates.1 as usize * 8 + coordinates.0 as usize, piece);
    }

    /// True when the given square holds no piece.
    pub fn is_empty(&self, coordinate: (i8, i8)) -> (r: bool)
        requires
            board_wf(self.board@),
            spec_within_bounds(coordinate),
        ensures
            r == empty_xy(self.board@, coordinate.0 as int, coordinate.1 as int),
    {
        self.piece_at(coordinate).get_type() == PieceType::Empty
    }

    /// The coordinates of the first king of the given colour in scan order.
    /// A board without that king is corrupt, so a king is required here.
    pub fn get_king(&self, colour: Colour) -> (r: (i8, i8))
        requires
            board_wf(self.board@),
            has_king(self.board@, colour),
        ensures
            r == spec_king_square(self.board@, colour),
            spec_within_bounds(r),
            king_xy(self.board@, r.0 as int, r.1 as int, colour),
    {
        let mut i: usize = 0;
        while i < 64
            invariant
                i <= 64,
                board_wf(self.board@),
                has_king(self.board@, colour),
                forall|j: nat| j < i ==> !king_xy(
                    self.board@,
                    #[trigger] (j as int / 8),
                    j as int % 8,
                    colour,
                ),
            decreases 64 - i,
        {
            let x: i8 = (i / 8) as i8;
            let y: i8 = (i % 8) as i8;
            let p = self.piece_at((x, y));
            if p.get_type() == PieceType::King && p.get_colour() == colour {
                proof {
                    lemma_king_scan_finds(self.board@, colour, 0, i as nat);
                }
                return (x, y);
            }
            i += 1;
        }
        proof {
            let (kx, ky) = choose|x: int, y: int| within_xy(x, y) && king_xy(
                self.board@,
                x,
                y,
                colour,
            );
            let j = kx * 8 + ky;
            assert(0 <= j < 64);
            assert(j / 8 == kx && j % 8 == ky);
            assert(false);
        }
        // never reached: a king of this colour was required
        (0, 0)
    }

    /// Change the kind of the piece at a square (the promotion primitive).
    pub fn change_kind(&mut self, coordinates: (i8, i8), kind: PieceType)
        requires
            board_wf(old(self).board@),
            spec_within_bounds(coordinates),
        ensures
            final(self).board@ == old(self).board@.update(
                coordinates.1 as int * 8 + coordinates.0 as int,
                crate::chess::piece::spec_set_kind(at_sq(old(self).board@, coordinates), kind),
            ),
            final(self).white_threat_map == old(self).white_threat_map,
            final(self).black_threat_map == old(self).black_threat_map,
    {
        let mut p = self.piece_at(coordinates);
        p.set_type(kind);
        self.set_piece_at(coordinates, p);
    }
}

} // verus!
