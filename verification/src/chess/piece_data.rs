//! The two enumerations every other part of the engine is built on: the
//! colour of a piece (also used for the active side) and the kind of a piece.
//! A square holding `PieceType::Empty` is an empty square.

use vstd::prelude::*;

verus! {

/// Colours of the pieces and of the side to move.
#[derive(Copy, Clone, PartialEq, Eq, Structural, Debug)]
pub enum Colour {
    White,
    Black,
}

/// Kinds of chess pieces; `Empty` marks an empty square.
#[derive(Copy, Clone, PartialEq, Eq, Structural, Debug)]
pub enum PieceType {
    Empty,
    Pawn,
    Knight,
    Bishop,
    Rook,
    Queen,
    King,
}

/// The colour of the other side.
pub open spec fn other_colour(c: Colour) -> Colour {
    match c {
        Colour::White => Colour::Black,
        Colour::Black => Colour::White,
    }
}

} // verus!
