//! Picking pieces up and putting them down with pointer clicks.
//!
//! A click on a piece picks it up; the next click puts it down on the
//! clicked square, whatever stands there. No rule of the game is enforced.

use crate::board::{
    contains_id, ids_distinct, lemma_occupant, lemma_row_unique, lookup, occupant, occupied,
    relocated, relocated_entry, row_of, squares_distinct, without, Board, Entry, PieceId,
};
use crate::coordinate::{outside_board, square_index, square_under, Vec2};
use vstd::prelude::*;

verus! {

/// What the pointer holds.
#[derive(Debug, Clone, Copy, PartialEq, Eq, Structural)]
pub enum SelectionState {
    /// Nothing is picked up.
    Idle,
    /// The piece with this identifier is picked up.
    Selected(PieceId),
}

/// The table once a capture on `clicked` has been carried out for the
/// picked-up piece `selected`: whatever a scan finds on `clicked` leaves the
/// board, unless it is the picked-up piece itself.
pub open spec fn after_capture(entries: Seq<Entry>, selected: PieceId, clicked: u8) -> Seq<Entry> {
    match occupant(entries, clicked) {
        Some(target) => if target.id != selected {
            without(entries, target.id)
        } else {
            entries
        },
        None => entries,
    }
}

/// State and table after a click on the square `clicked`.
///
/// With nothing picked up, a click on a piece picks it up and a click on an
/// empty square does nothing. With a piece picked up, the occupant of the
/// clicked square is captured, the picked-up piece goes there, and nothing
/// is picked up any more. A picked-up piece that the table no longer has
/// cannot move; the capture and the return to idle happen all the same.
pub open spec fn after_click(state: SelectionState, entries: Seq<Entry>, clicked: u8) -> (
    SelectionState,
    Seq<Entry>,
) {
    match state {
        SelectionState::Idle => match occupant(entries, clicked) {
            Some(target) => (SelectionState::Selected(target.id), entries),
            None => (SelectionState::Idle, entries),
        },
        SelectionState::Selected(selected) => (
            SelectionState::Idle,
            relocated(after_capture(entries, selected, clicked), selected, clicked),
        ),
    }
}

/// State and table after one tick of pointer input: `pressed` says whether
/// the primary button went down in this tick, `cursor` where the pointer
/// is, if that is known.
///
/// Only a press with a known position within the board's bounds is a click;
/// anything else changes nothing.
pub open spec fn after_input(
    state: SelectionState,
    entries: Seq<Entry>,
    pressed: bool,
    cursor: Option<Vec2>,
) -> (SelectionState, Seq<Entry>) {
    match cursor {
        Some(position) => if pressed && !outside_board(position) {
            after_click(state, entries, square_index(position) as u8)
        } else {
            (state, entries)
        },
        None => (state, entries),
    }
}

/// Handles a click on the square `clicked_index`; see [`after_click`].
pub fn click(state: &mut SelectionState, board: &mut Board, clicked_index: u8)
    ensures
        (*final(state), final(board)@) == after_click(*old(state), old(board)@, clicked_index),
        ids_distinct(final(board)@),
{
    let target_piece = board.piece_at(clicked_index);
    match *state {
        SelectionState::Idle => {
            if let Some(target_piece) = target_piece {
                *state = SelectionState::Selected(target_piece.id);
            }
        },
        SelectionState::Selected(selected_piece) => {
            if let Some(target_piece) = target_piece {
                if target_piece.id != selected_piece {
                    board.remove_piece(target_piece.id);
                }
            }
            board.move_piece(selected_piece, clicked_index);
            *state = SelectionState::Idle;
        },
    }
}

/// Handles one tick of pointer input; see [`after_input`].
pub fn input(state: &mut SelectionState, board: &mut Board, pressed: bool, cursor: Option<Vec2>)
    ensures
        (*final(state), final(board)@) == after_input(*old(state), old(board)@, pressed, cursor),
{
    if !pressed {
        return ;
    }
    let Some(cursor) = cursor else {
        return ;
    };
    let Some(clicked_index) = square_under(&cursor) else {
        return ;
    };
    click(state, board, clicked_index);
}

/// With nothing picked up, a click on an occupied square picks up the piece
/// that stands there, and no piece moves.
pub proof fn lemma_click_picks_up(entries: Seq<Entry>, clicked: u8)
    requires
        occupied(entries, clicked),
    ensures
        occupant(entries, clicked) matches Some(target) && target.piece.index == clicked
            && contains_id(entries, target.id) && after_click(
            SelectionState::Idle,
            entries,
            clicked,
        ) == (SelectionState::Selected(target.id), entries),
{
    lemma_occupant(entries, clicked);
}

/// With nothing picked up, a click on an empty square changes nothing.
pub proof fn lemma_click_on_empty_square(entries: Seq<Entry>, clicked: u8)
    requires
        !occupied(entries, clicked),
    ensures
        after_click(SelectionState::Idle, entries, clicked) == (SelectionState::Idle, entries),
{
    lemma_occupant(entries, clicked);
}

/// A picked-up piece that is put down on an empty square stands there
/// afterwards. Every other row stays as it was, and nothing is picked up
/// any more.
pub proof fn lemma_put_down_on_empty_square(
    entries: Seq<Entry>,
    selected: PieceId,
    row: int,
    clicked: u8,
)
    requires
        ids_distinct(entries),
        row_of(entries, selected, row),
        !occupied(entries, clicked),
    ensures
        after_click(SelectionState::Selected(selected), entries, clicked) == (
            SelectionState::Idle,
            entries.update(row, relocated_entry(entries[row], selected, clicked)),
        ),
        relocated_entry(entries[row], selected, clicked).piece.index == clicked,
{
    lemma_occupant(entries, clicked);
    assert(relocated(entries, selected, clicked) =~= entries.update(
        row,
        relocated_entry(entries[row], selected, clicked),
    ));
}

/// A picked-up piece that is put down on a square where another piece
/// stands captures it: the other piece leaves the board, the picked-up
/// piece stands on the square, every other row stays as it was, and nothing
/// is picked up any more.
pub proof fn lemma_put_down_captures(
    entries: Seq<Entry>,
    selected: PieceId,
    row: int,
    clicked: u8,
    target: Entry,
)
    requires
        ids_distinct(entries),
        row_of(entries, selected, row),
        occupant(entries, clicked) == Some(target),
        target.id != selected,
    ensures
        ({
            let (state, after) = after_click(SelectionState::Selected(selected), entries, clicked);
            &&& state == SelectionState::Idle
            &&& after.len() == entries.len() - 1
            &&& !contains_id(after, target.id)
            &&& lookup(after, selected) == Some(relocated_entry(entries[row], selected, clicked))
            &&& relocated_entry(entries[row], selected, clicked).piece.index == clicked
            &&& forall|id: PieceId|
                id != selected && id != target.id ==> lookup(after, id) == lookup(entries, id)
        }),
{
    let (state, after) = after_click(SelectionState::Selected(selected), entries, clicked);
    lemma_occupant(entries, clicked);
    let t = choose|t: int| row_of(entries, target.id, t);
    lemma_row_unique(entries, target.id, t);
    let remaining = entries.remove(t);
    assert(after == relocated(remaining, selected, clicked));
    let new_row = if row < t {
        row
    } else {
        row - 1
    };
    assert(remaining[new_row] == entries[row]);
    assert(ids_distinct(after));
    assert(row_of(after, selected, new_row));
    lemma_row_unique(after, selected, new_row);
    if contains_id(after, target.id) {
        let c = choose|c: int| row_of(after, target.id, c);
        assert(row_of(entries, target.id, if c < t { c } else { c + 1 }));
        assert(false);
    }
    assert forall|id: PieceId| id != selected && id != target.id implies lookup(after, id)
        == lookup(entries, id) by {
        if contains_id(entries, id) {
            let k = choose|k: int| row_of(entries, id, k);
            lemma_row_unique(entries, id, k);
            let new_k = if k < t {
                k
            } else {
                k - 1
            };
            assert(row_of(after, id, new_k));
            lemma_row_unique(after, id, new_k);
        } else {
            if contains_id(after, id) {
                let c = choose|c: int| row_of(after, id, c);
                assert(row_of(entries, id, if c < t { c } else { c + 1 }));
            }
        }
    }
}

/// A picked-up piece that the table no longer has cannot move: the click
/// still captures what stands on the square, and nothing is picked up any
/// more.
pub proof fn lemma_missing_piece_stays_away(entries: Seq<Entry>, selected: PieceId, clicked: u8)
    requires
        !contains_id(entries, selected),
    ensures
        after_click(SelectionState::Selected(selected), entries, clicked) == (
            SelectionState::Idle,
            match occupant(entries, clicked) {
                Some(target) => without(entries, target.id),
                None => entries,
            },
        ),
{
    lemma_occupant(entries, clicked);
    let remaining = after_capture(entries, selected, clicked);
    assert forall|k: int| 0 <= k < remaining.len() implies remaining[k].id != selected by {
        if remaining[k].id == selected {
            if remaining == entries {
                assert(row_of(entries, selected, k));
            } else {
                let target = occupant(entries, clicked)->0;
                let t = choose|t: int| row_of(entries, target.id, t);
                assert(row_of(entries, selected, if k < t { k } else { k + 1 }));
            }
        }
    }
    assert(relocated(remaining, selected, clicked) =~= remaining);
}

/// A press outside the board's bounds changes nothing, whatever is picked
/// up.
pub proof fn lemma_click_outside_board(
    state: SelectionState,
    entries: Seq<Entry>,
    pressed: bool,
    position: Vec2,
)
    requires
        outside_board(position),
    ensures
        after_input(state, entries, pressed, Some(position)) == (state, entries),
{
}

/// Without a press, or without a known pointer position, nothing changes.
pub proof fn lemma_no_click(
    state: SelectionState,
    entries: Seq<Entry>,
    pressed: bool,
    cursor: Option<Vec2>,
)
    requires
        !pressed || cursor is None,
    ensures
        after_input(state, entries, pressed, cursor) == (state, entries),
{
}

/// A click keeps the identifiers distinct, and it never adds a piece.
pub proof fn lemma_click_keeps_ids_distinct(
    state: SelectionState,
    entries: Seq<Entry>,
    clicked: u8,
)
    requires
        ids_distinct(entries),
    ensures
        ids_distinct(after_click(state, entries, clicked).1),
        after_click(state, entries, clicked).1.len() <= entries.len(),
        forall|id: PieceId|
            contains_id(after_click(state, entries, clicked).1, id) ==> contains_id(entries, id),
{
    let after = after_click(state, entries, clicked).1;
    lemma_occupant(entries, clicked);
    match state {
        SelectionState::Idle => {},
        SelectionState::Selected(selected) => {
            let remaining = after_capture(entries, selected, clicked);
            if remaining != entries {
                let target = occupant(entries, clicked)->0;
                let t = choose|t: int| row_of(entries, target.id, t);
                lemma_row_unique(entries, target.id, t);
                assert forall|id: PieceId| contains_id(after, id) implies contains_id(
                    entries,
                    id,
                ) by {
                    let c = choose|c: int| row_of(after, id, c);
                    assert(row_of(entries, id, if c < t { c } else { c + 1 }));
                }
            } else {
                assert forall|id: PieceId| contains_id(after, id) implies contains_id(
                    entries,
                    id,
                ) by {
                    let c = choose|c: int| row_of(after, id, c);
                    assert(row_of(entries, id, c));
                }
            }
        },
    }
}

/// Where no square holds two pieces before a click, none does after it.
pub proof fn lemma_click_keeps_squares_distinct(
    state: SelectionState,
    entries: Seq<Entry>,
    clicked: u8,
)
    requires
        ids_distinct(entries),
        squares_distinct(entries),
    ensures
        squares_distinct(after_click(state, entries, clicked).1),
{
    let after = after_click(state, entries, clicked).1;
    lemma_occupant(entries, clicked);
    match state {
        SelectionState::Idle => {},
        SelectionState::Selected(selected) => {
            let remaining = after_capture(entries, selected, clicked);
            assert(squares_distinct(remaining) && ids_distinct(remaining)) by {
                if remaining != entries {
                    let target = occupant(entries, clicked)->0;
                    let t = choose|t: int| row_of(entries, target.id, t);
                    lemma_row_unique(entries, target.id, t);
                }
            }
            assert forall|k: int| 0 <= k < remaining.len() && remaining[k].piece.index
                == clicked implies remaining[k].id == selected by {
                if occupant(entries, clicked) is Some {
                    let target = occupant(entries, clicked)->0;
                    let t = choose|t: int| row_of(entries, target.id, t);
                    lemma_row_unique(entries, target.id, t);
                    if target.id != selected {
                        let earlier = if k < t {
                            k
                        } else {
                            k + 1
                        };
                        assert(entries[earlier].piece.index == entries[t].piece.index);
                    } else {
                        assert(entries[k].piece.index == entries[t].piece.index);
                    }
                } else {
                    assert(entries[k].piece.index == clicked);
                }
            }
        },
    }
}

} // verus!
