//! The piece value: colour, kind, and the two transient flags the move rules
//! consult (has the piece not yet moved; is it capturable en passant).
//!
//! A piece is an immutable value record; "mutating" a square means replacing
//! the whole piece value stored there.  Setting the kind to `PieceType::Empty`
//! resets the entire piece to the empty sentinel, so the colour of an empty
//! square is never observable as anything but `Colour::White`.
//!
//! Pieces also travel as packed bytes (`from_u8` / `as_u8`): bit 0 is the
//! colour, bits 1-3 the kind, bit 5 the en-passant flag, bit 7 the
//! has-not-moved flag.

use vstd::prelude::*;
use crate::chess::piece_data::{Colour, PieceType};

verus! {

/// One square's worth of state: a piece, or the empty sentinel.
#[derive(Copy, Clone, PartialEq, Eq, Structural, Debug)]
pub struct Piece {
    pub colour: Colour,
    pub kind: PieceType,
    pub has_not_moved: bool,
    pub en_passant: bool,
}

/// The value stored on a square with nothing on it.
pub open spec fn empty_piece() -> Piece {
    Piece { colour: Colour::White, kind: PieceType::Empty, has_not_moved: false, en_passant: false }
}

/// The kind encoded in bits 1-3 of a packed piece byte, read as the value
/// `d / 2 % 8`: one through six name the six kinds, anything else is empty.
pub open spec fn spec_kind_of_u8(d: u8) -> PieceType {
    match d / 2 % 8 {
        1u8 => PieceType::Pawn,
        2u8 => PieceType::Knight,
        3u8 => PieceType::Bishop,
        4u8 => PieceType::Rook,
        5u8 => PieceType::Queen,
        6u8 => PieceType::King,
        _ => PieceType::Empty,
    }
}

/// The piece a packed byte decodes to.
pub open spec fn spec_piece_from_u8(d: u8) -> Piece {
    Piece {
        colour: if d % 2 == 1 { Colour::Black } else { Colour::White },
        kind: spec_kind_of_u8(d),
        has_not_moved: d / 128 % 2 == 1,
        en_passant: d / 32 % 2 == 1,
    }
}

/// The bits 1-3 pattern for a kind.
pub open spec fn spec_kind_to_u8(k: PieceType) -> u8 {
    match k {
        PieceType::Empty => 0u8,
        PieceType::Pawn => 2u8,
        PieceType::Knight => 4u8,
        PieceType::Bishop => 6u8,
        PieceType::Rook => 8u8,
        PieceType::Queen => 10u8,
        PieceType::King => 12u8,
    }
}

/// The packed byte a piece encodes to.
pub open spec fn spec_piece_to_u8(p: Piece) -> u8 {
    (if p.colour == Colour::Black { 1u8 } else { 0u8 }
        + spec_kind_to_u8(p.kind)
        + (if p.has_not_moved { 0x80u8 } else { 0u8 })
        + (if p.en_passant { 0x20u8 } else { 0u8 })) as u8
}

/// The result of setting a piece's kind: `Empty` resets the whole value to the
/// empty sentinel; any other kind leaves colour and flags untouched.
pub open spec fn spec_set_kind(p: Piece, k: PieceType) -> Piece {
    if k == PieceType::Empty {
        empty_piece()
    } else {
        Piece { kind: k, ..p }
    }
}

impl Piece {
    /// Decode a piece from a packed byte.
    pub fn from_u8(piece_data: u8) -> (p: Piece)
        ensures
            p == spec_piece_from_u8(piece_data),
    {
        let kind = match piece_data / 2 % 8 {
            1u8 => PieceType::Pawn,
            2u8 => PieceType::Knight,
            3u8 => PieceType::Bishop,
            4u8 => PieceType::Rook,
            5u8 => PieceType::Queen,
            6u8 => PieceType::King,
            _ => PieceType::Empty,
        };
        Piece {
            colour: if piece_data % 2 == 1 { Colour::Black } else { Colour::White },
            kind,
            has_not_moved: piece_data / 128 % 2 == 1,
            en_passant: piece_data / 32 % 2 == 1,
        }
    }

    /// A freshly constructed piece: both transient flags start cleared.
    pub fn new(colour: Colour, piece_type: PieceType) -> (p: Piece)
        ensures
            p == (Piece { colour, kind: piece_type, has_not_moved: false, en_passant: false }),
    {
        Piece { colour, kind: piece_type, has_not_moved: false, en_passant: false }
    }

    /// The colour of the piece (White for the empty sentinel).
    pub fn get_colour(&self) -> (c: Colour)
        ensures
            c == self.colour,
    {
        self.colour
    }

    /// The kind of the piece.
    pub fn get_type(&self) -> (k: PieceType)
        ensures
            k == self.kind,
    {
        self.kind
    }

    /// Colour and kind together.
    pub fn get_piece_data(&self) -> (r: (Colour, PieceType))
        ensures
            r == (self.colour, self.kind),
    {
        (self.colour, self.kind)
    }

    /// Change the kind of the piece (the promotion primitive).  Setting the
    /// kind to `Empty` resets the whole piece to the empty sentinel.
    pub fn set_type(&mut self, piece_type: PieceType)
        ensures
            *final(self) == spec_set_kind(*old(self), piece_type),
    {
        if piece_type == PieceType::Empty {
            self.colour = Colour::White;
            self.kind = PieceType::Empty;
            self.has_not_moved = false;
            self.en_passant = false;
        } else {
            self.kind = piece_type;
        }
    }

    /// Empty the square this piece stands for.
    pub fn set_to_none(&mut self)
        ensures
            *final(self) == empty_piece(),
    {
        self.set_type(PieceType::Empty);
    }

    /// Encode the piece as a packed byte.
    pub fn as_u8(&self) -> (d: u8)
        ensures
            d == spec_piece_to_u8(*self),
    {
        let colour_bit: u8 = if self.colour == Colour::Black { 1 } else { 0 };
        let kind_bits: u8 = match self.kind {
            PieceType::Empty => 0,
            PieceType::Pawn => 2,
            PieceType::Knight => 4,
            PieceType::Bishop => 6,
            PieceType::Rook => 8,
            PieceType::Queen => 10,
            PieceType::King => 12,
        };
        let moved_bit: u8 = if self.has_not_moved { 0x80 } else { 0 };
        let passant_bit: u8 = if self.en_passant { 0x20 } else { 0 };
        colour_bit + kind_bits + moved_bit + passant_bit
    }

    /// One-letter display glyph for the kind; a filled square for an empty one.
    pub fn get_icon(&self) -> (c: char)
        ensures
            c == (match self.kind {
                PieceType::Pawn => 'P',
                PieceType::Knight => 'N',
                PieceType::Bishop => 'B',
                PieceType::Rook => 'R',
                PieceType::Queen => 'Q',
                PieceType::King => 'K',
                PieceType::Empty => '\u{25a0}',
            }),
    {
        match self.kind {
            PieceType::Pawn => 'P',
            PieceType::Knight => 'N',
            PieceType::Bishop => 'B',
            PieceType::Rook => 'R',
            PieceType::Queen => 'Q',
            PieceType::King => 'K',
            PieceType::Empty => '\u{25a0}',
        }
    }

    /// Overwrite the piece with the decoding of a packed byte.
    pub fn set_data(&mut self, u8_data: u8)
        ensures
            *final(self) == spec_piece_from_u8(u8_data),
    {
        *self = Piece::from_u8(u8_data);
    }
}

} // verus!
