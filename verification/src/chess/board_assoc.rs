//! The coordinate codec and the check query.
//!
//! Square text is two ASCII characters, a file letter `a`-`h` and a rank
//! digit `1`-`8`.  The numeric pair is zero-based `(file, rank)` with rank 0
//! at the top of the board (the chess 8th rank), so the rank digit `c` maps
//! to `56 - c` by code point and back.  The codec assumes well-formed text;
//! nothing is promised about anything else.

use vstd::prelude::*;
use crate::chess::piece_data::{Colour, PieceType};
use crate::chess::piece::Piece;
use crate::chess::board::{Board, board_wf, has_king, spec_within_bounds, mk_sq};
use crate::chess::threat_map::{threatened, spec_in_check};

verus! {

/// Is this character a file letter?
pub open spec fn valid_file_char(c: char) -> bool {
    'a' <= c && c <= 'h'
}

/// Is this character a rank digit?
pub open spec fn valid_rank_char(c: char) -> bool {
    '1' <= c && c <= '8'
}

/// Is this text a well-formed square name?
pub open spec fn valid_square_text(s: Seq<char>) -> bool {
    s.len() == 2 && valid_file_char(s[0]) && valid_rank_char(s[1])
}

/// The numeric square a well-formed square name denotes.
pub open spec fn spec_filerank_to_num(s: Seq<char>) -> (i8, i8) {
    mk_sq(s[0] as int - 97, 56 - s[1] as int)
}

/// The file letter of a file index.
pub open spec fn char_of_file(x: int) -> char {
    (x + 97) as char
}

/// The rank digit of a rank index.
pub open spec fn char_of_rank(y: int) -> char {
    (56 - y) as char
}

/// The square name of a numeric square.
pub open spec fn spec_num_to_filerank(c: (i8, i8)) -> Seq<char> {
    seq![char_of_file(c.0 as int), char_of_rank(c.1 as int)]
}

/// Round trip of the codec: the name of the numeric square a well-formed
/// square name denotes is that name again, for all sixty-four squares.
pub proof fn lemma_coordinate_round_trip(s: Seq<char>)
    requires
        valid_square_text(s),
    ensures
        spec_within_bounds(spec_filerank_to_num(s)),
        spec_num_to_filerank(spec_filerank_to_num(s)) == s,
{
    assert(spec_num_to_filerank(spec_filerank_to_num(s)) =~= s);
}

/// The codec the other way: distinct squares get distinct names, and the
/// name of a square in bounds is well-formed and denotes that square.
pub proof fn lemma_square_text_of_coord(c: (i8, i8))
    requires
        spec_within_bounds(c),
    ensures
        valid_square_text(spec_num_to_filerank(c)),
        spec_filerank_to_num(spec_num_to_filerank(c)) == c,
{
}

impl Board {
    /// Is a coordinate pair on the board?
    pub fn within_bounds(coordinates: (i8, i8)) -> (r: bool)
        ensures
            r == spec_within_bounds(coordinates),
    {
        coordinates.0 >= 0 && coordinates.0 <= 7 && coordinates.1 >= 0 && coordinates.1 <= 7
    }

    /// The square name of a numeric square.
    pub fn num_to_filerank(coords: &(i8, i8)) -> (r: String)
        requires
            spec_within_bounds(*coords),
        ensures
            r@ == spec_num_to_filerank(*coords),
    {
        let file: &str = match coords.0 {
            0i8 => "a",
            1i8 => "b",
            2i8 => "c",
            3i8 => "d",
            4i8 => "e",
            5i8 => "f",
            6i8 => "g",
            _ => "h",
        };
        let rank: &str = match coords.1 {
            0i8 => "8",
            1i8 => "7",
            2i8 => "6",
            3i8 => "5",
            4i8 => "4",
            5i8 => "3",
            6i8 => "2",
            _ => "1",
        };
        proof {
            reveal_strlit("a");
            reveal_strlit("b");
            reveal_strlit("c");
            reveal_strlit("d");
            reveal_strlit("e");
            reveal_strlit("f");
            reveal_strlit("g");
            reveal_strlit("h");
            reveal_strlit("1");
            reveal_strlit("2");
            reveal_strlit("3");
            reveal_strlit("4");
            reveal_strlit("5");
            reveal_strlit("6");
            reveal_strlit("7");
            reveal_strlit("8");
        }
        let r = String::from_str(file).concat(rank);
        proof {
            assert(r@ =~= spec_num_to_filerank(*coords));
        }
        r
    }

    /// The numeric square a well-formed square name denotes.
    pub fn filerank_to_num(filerank: &String) -> (r: (i8, i8))
        requires
            valid_square_text(filerank@),
        ensures
            r == spec_filerank_to_num(filerank@),
            spec_within_bounds(r),
    {
        let file_char = filerank.as_str().get_char(0);
        let rank_char = filerank.as_str().get_char(1);
        let x: i8 = (file_char as u32 - 97) as i8;
        let y: i8 = (56 - rank_char as u32) as i8;
        (x, y)
    }

    /// Recompute the threat maps, then ask whether the king of the given
    /// colour stands in the other colour's map.  The maps are left freshly
    /// recomputed; the squares are untouched.
    pub fn king_in_check(&mut self, colour: Colour) -> (r: bool)
        requires
            board_wf(old(self).board@),
            has_king(old(self).board@, colour),
        ensures
            final(self).board == old(self).board,
            r == spec_in_check(old(self).board@, colour),
            forall|t: (i8, i8)| #[trigger]
                final(self).white_threat_map@.contains(t) == threatened(
                    old(self).board@,
                    Colour::White,
                    t,
                ),
            forall|t: (i8, i8)| #[trigger]
                final(self).black_threat_map@.contains(t) == threatened(
                    old(self).board@,
                    Colour::Black,
                    t,
                ),
    {
        self.generate_threat_maps();
        let king = self.get_king(colour);
        if colour == Colour::Black {
            Self::contains_square(&self.white_threat_map, king)
        } else {
            Self::contains_square(&self.black_threat_map, king)
        }
    }

    /// Put a freshly constructed piece on the named square: a board-editing
    /// helper for fixtures, with both transient flags starting cleared.
    pub fn set_piece(&mut self, square: String, colour: Colour, piece_type: PieceType)
        requires
            board_wf(old(self).board@),
            valid_square_text(square@),
        ensures
            final(self).board@ == old(self).board@.update(
                spec_filerank_to_num(square@).1 as int * 8 + spec_filerank_to_num(
                    square@,
                ).0 as int,
                Piece { colour, kind: piece_type, has_not_moved: false, en_passant: false },
            ),
            final(self).white_threat_map == old(self).white_threat_map,
            final(self).black_threat_map == old(self).black_threat_map,
    {
        let c = Board::filerank_to_num(&square);
        self.set_piece_at(c, Piece::new(colour, piece_type));
    }

    /// Is the square `t` listed in `v`?
    pub(crate) fn contains_square(v: &Vec<(i8, i8)>, t: (i8, i8)) -> (r: bool)
        ensures
            r == v@.contains(t),
    {
        let mut k: usize = 0;
        while k < v.len()
            invariant
                k <= v@.len(),
                forall|i: int| 0 <= i < k ==> v@[i] != t,
            decreases v@.len() - k,
        {
            let m = v[k];
            if m.0 == t.0 && m.1 == t.1 {
                assert(v@[k as int] == t);
                return true;
            }
            k += 1;
        }
        false
    }
}

} // verus!
