//! A terminal memory-matching game: a grid of face-down cards, each symbol
//! appearing exactly twice; the player reveals two cards per turn, matched
//! pairs stay up, and the game ends when every card is revealed.
#![verifier::loop_isolation(false)]

use vstd::prelude::*;

pub mod card;
pub mod grid;
pub mod input;
pub mod render;
pub mod state;

pub use card::Card;
pub use grid::{FatalError, Grid};
pub use input::parse;
pub use render::{render, render_gameover};
pub use state::GameState;

verus! {

/// Number of distinct card identities; every identity appears on two cards.
pub const CARD_PAIRS: u16 = 6;

/// Cards laid out per row before wrapping to the next row.
pub const CARDS_PER_ROW: u16 = 4;

/// Width of one terminal cell, in characters.
pub const CELL_WIDTH: u16 = 2;

/// Height of one terminal cell, in rows.
pub const CELL_HEIGHT: u16 = 2;

/// Horizontal padding between cells, in characters.
pub const PAD_X: u16 = 2;

/// Vertical padding between cells, in rows.
pub const PAD_Y: u16 = 1;

/// The glyph shown for a face-down card.
pub const HIDDEN_CHR: char = '\u{2588}';

/// A zero-based logical board coordinate `(x, y)`.
pub type Pos = (u16, u16);

} // verus!
