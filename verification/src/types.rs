//! The basic vocabulary of the game: piece colors, board points, and actions.

use vstd::prelude::*;

verus! {

/// One of the two sides. White always moves first.
#[derive(Clone, Copy, PartialEq, Eq, Structural, Debug)]
pub enum Color {
    Black,
    White,
}

/// The side whose turn it is, or who submits an action.
pub type Player = Color;

/// What occupies a board point.
pub type Piece = Color;

/// One of the 24 intersections of the board, numbered as follows:
///
/// ```text
/// 0––––––––1 –––––––2
/// |  8–––––9 ––––10 |
/// |  |  16–17–18 |  |
/// 7 –15–23    19–11–3
/// |  |  22–21–20 |  |
/// |  14––––13––––12 |
/// 6––––––––5 –––––––4
/// ```
///
/// Only values below 24 name a point; anything else is rejected.
pub type Point = usize;

/// The other side: a total, involutive swap of the two colors.
pub open spec fn opp(c: Color) -> Color {
    match c {
        Color::Black => Color::White,
        Color::White => Color::Black,
    }
}

impl Color {
    /// Returns the other color.
    pub fn opposite(self) -> (r: Color)
        ensures
            r == opp(self),
    {
        match self {
            Color::Black => Color::White,
            Color::White => Color::Black,
        }
    }
}

/// The request part of an action: place a piece, slide (or fly) a piece from
/// one point to another, or remove an opponent piece after forming a mill.
#[derive(Clone, Copy, PartialEq, Eq, Structural, Debug)]
pub enum ActionKind {
    Place(Point),
    Move(Point, Point),
    Remove(Point),
}

/// A full action: who acts, and what they request.
#[derive(Clone, Copy, PartialEq, Eq, Structural, Debug)]
pub struct Action {
    pub player: Player,
    pub action: ActionKind,
}

} // verus!
