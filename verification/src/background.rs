//! The squares of the board, as the background shows them.

use crate::coordinate::{square_position, vec2_from_index, Vec2};
use crate::piece::Side;
use vstd::prelude::*;

verus! {

/// The number of squares of the board.
pub const TILE_COUNT: u8 = 64;

/// A square of the background.
#[derive(Debug, Clone, Copy, PartialEq, Eq, Structural)]
pub struct Tile {
    /// The square's index.
    pub index: u8,
    /// Where the square is drawn.
    pub position: Vec2,
    /// The square's colour.
    pub side: Side,
}

/// The square `index` of the background.
pub open spec fn tile(index: u8) -> Tile {
    Tile { index, position: square_position(index), side: Side::spec_from_index(index) }
}

/// The 64 squares of the background, from square 0 upward, each with its
/// position and its colour.
pub fn tiles() -> (all: Vec<Tile>)
    ensures
        all@ == Seq::new(TILE_COUNT as nat, |i: int| tile(i as u8)),
{
    let mut all: Vec<Tile> = Vec::new();
    let mut i: u8 = 0;
    while i < TILE_COUNT
        invariant
            i <= TILE_COUNT,
            all@ == Seq::new(i as nat, |k: int| tile(k as u8)),
        decreases TILE_COUNT - i,
    {
        all.push(Tile { index: i, position: vec2_from_index(i), side: Side::from_index(i) });
        i += 1;
        assert(all@ =~= Seq::new(i as nat, |k: int| tile(k as u8)));
    }
    all
}

/// Squares next to each other, in a row or in a column, differ in colour.
pub proof fn lemma_neighbours_differ(index: u8)
    requires
        index < TILE_COUNT,
    ensures
        index % 8 != 7 ==> Side::spec_from_index(index) != Side::spec_from_index(
            (index + 1) as u8,
        ),
        index < 56 ==> Side::spec_from_index(index) != Side::spec_from_index((index + 8) as u8),
{
}

} // verus!
