//! Board geometry, piece placement and click-driven selection for an 8x8
//! board.
//!
//! - [`coordinate`] maps square indices to world positions and back, and
//!   tests whether a position is on the board.
//! - [`piece`] holds the kinds and sides of pieces and the letters that
//!   stand for them; [`layout`] reads a line of such letters into pieces.
//! - [`board`] keeps the pieces in a table under stable identifiers.
//! - [`selection`] turns pointer clicks into picking up, moving and
//!   capturing.
//! - [`background`] lists the squares to draw, and [`util`] names the
//!   assets that show the pieces.
//!
//! No rule of chess is enforced: any piece may go to any square.

pub mod background;
pub mod board;
pub mod coordinate;
pub mod layout;
pub mod piece;
pub mod selection;
pub mod util;
