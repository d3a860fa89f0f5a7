//! A rules engine for Nine Men's Morris: a two-player board game on a fixed
//! graph of 24 points, with a placement phase, a movement phase, "flying" for
//! a side reduced to three pieces, capture on completing a mill (a line of
//! three own pieces), and snapshot-based undo.

pub mod types;
pub mod board;
pub mod model;
pub mod game;
pub mod text;
pub mod laws;

pub use types::{Action, ActionKind, Color, Piece, Player, Point};
pub use game::{Game, NmmGame};
