//! Layout descriptions: a line of piece letters that is read square by
//! square from square 0 upward.
//!
//! A letter puts a piece on the current square and moves on to the next
//! one. A `/` skips to the start of the next row; at the start of a row it
//! skips that whole row. Lower-case letters are light pieces, upper-case
//! letters dark ones.

use crate::piece::{Piece, PieceType, Side};
use vstd::prelude::*;
use vstd::set_lib::{lemma_int_range, set_int_range};
use vstd::string::StrSliceExecFns;

verus! {

/// The arrangement that a game starts from.
pub const STARTING_FENN: &'static str = "rnbqkbnrpppppppp////PPPPPPPPRNBQKBNR";

/// The character that skips to the next row.
pub const ROW_SKIP: char = '/';

/// The number of squares of the board.
pub const SQUARE_COUNT: u8 = 64;

/// Why a layout description was refused.
#[derive(Debug, Clone, Copy, PartialEq, Eq, Structural)]
pub enum LayoutError {
    /// The character at `position` is neither a piece letter nor `/`.
    InvalidPiece { position: usize, found: char },
    /// The letter at `position` would put a piece beyond the last square.
    OffBoard { position: usize },
}

/// The square that follows `index` once the character `c` has been read.
pub open spec fn next_index(index: int, c: char) -> int {
    if c == ROW_SKIP {
        index - index % 8 + 8
    } else {
        index + 1
    }
}

/// The current square once the first `n` characters have been read.
pub open spec fn index_after(layout: Seq<char>, n: int) -> int
    decreases n,
{
    if n <= 0 {
        0
    } else {
        next_index(index_after(layout, n - 1), layout[n - 1])
    }
}

/// What is wrong with the character at position `k`, if anything.
pub open spec fn fault_at(layout: Seq<char>, k: int) -> Option<LayoutError> {
    if layout[k] == ROW_SKIP {
        None
    } else if PieceType::spec_from_fenn(layout[k]) is None {
        Some(LayoutError::InvalidPiece { position: k as usize, found: layout[k] })
    } else if index_after(layout, k) >= SQUARE_COUNT {
        Some(LayoutError::OffBoard { position: k as usize })
    } else {
        None
    }
}

/// The side of a piece letter: dark for the letters `A` to `Z`.
pub open spec fn letter_side(c: char) -> Side {
    if 'A' as u32 <= c as u32 <= 'Z' as u32 {
        Side::Dark
    } else {
        Side::Light
    }
}

/// The piece that the letter at position `k` puts on the board.
pub open spec fn piece_of(layout: Seq<char>, k: int) -> Piece {
    Piece {
        ty: PieceType::spec_from_fenn(layout[k])->0,
        side: letter_side(layout[k]),
        index: index_after(layout, k) as u8,
    }
}

/// The pieces that the first `n` characters put on the board, in the order
/// of their letters.
pub open spec fn pieces_of(layout: Seq<char>, n: int) -> Seq<Piece>
    decreases n,
{
    if n <= 0 {
        Seq::empty()
    } else if layout[n - 1] == ROW_SKIP {
        pieces_of(layout, n - 1)
    } else {
        pieces_of(layout, n - 1).push(piece_of(layout, n - 1))
    }
}

/// No character of the description is at fault.
pub open spec fn well_formed(layout: Seq<char>) -> bool {
    forall|k: int| 0 <= k < layout.len() ==> fault_at(layout, k) is None
}

/// The character at `k` is the first one at fault, and `error` says why.
pub open spec fn first_fault(layout: Seq<char>, k: int, error: LayoutError) -> bool {
    &&& 0 <= k < layout.len()
    &&& fault_at(layout, k) == Some(error)
    &&& forall|j: int| 0 <= j < k ==> fault_at(layout, j) is None
}

/// The kind of piece that starts on a file of the first and the last row.
pub open spec fn back_rank(file: int) -> PieceType {
    if file == 0 || file == 7 {
        PieceType::Rook
    } else if file == 1 || file == 6 {
        PieceType::Knight
    } else if file == 2 || file == 5 {
        PieceType::Bishop
    } else if file == 3 {
        PieceType::Queen
    } else {
        PieceType::King
    }
}

/// The piece that starts on a square of the first two or the last two rows:
/// pawns on the second and the seventh row, the light side below.
pub open spec fn starting_piece_on(index: int) -> Piece {
    Piece {
        ty: if 8 <= index < 56 {
            PieceType::Pawn
        } else {
            back_rank(index % 8)
        },
        side: if index < 32 {
            Side::Light
        } else {
            Side::Dark
        },
        index: index as u8,
    }
}

/// The 32 pieces of the starting arrangement, from square 0 upward: the
/// squares 0 to 15, then the squares 48 to 63.
pub open spec fn starting_pieces() -> Seq<Piece> {
    Seq::new(
        32,
        |k: int|
            if k < 16 {
                starting_piece_on(k)
            } else {
                starting_piece_on(k + 32)
            },
    )
}

/// A run of `count` piece letters from position `start` on fills
/// consecutive squares, one piece for each letter.
pub proof fn lemma_letters_fill_squares(layout: Seq<char>, start: int, count: int)
    requires
        0 <= start,
        0 <= count,
        start + count <= layout.len(),
        forall|k: int| start <= k < start + count ==> layout[k] != ROW_SKIP,
    ensures
        index_after(layout, start + count) == index_after(layout, start) + count,
        pieces_of(layout, start + count) == pieces_of(layout, start) + Seq::new(
            count as nat,
            |j: int|
                Piece {
                    ty: PieceType::spec_from_fenn(layout[start + j])->0,
                    side: letter_side(layout[start + j]),
                    index: (index_after(layout, start) + j) as u8,
                },
        ),
    decreases count,
{
    let run = |j: int|
        Piece {
            ty: PieceType::spec_from_fenn(layout[start + j])->0,
            side: letter_side(layout[start + j]),
            index: (index_after(layout, start) + j) as u8,
        };
    if count == 0 {
        assert(pieces_of(layout, start) =~= pieces_of(layout, start) + Seq::new(0, run));
    } else {
        lemma_letters_fill_squares(layout, start, count - 1);
        assert(pieces_of(layout, start + count) =~= pieces_of(layout, start) + Seq::new(
            count as nat,
            run,
        ));
    }
}

/// From the start of a row, a run of `count` skips passes `count` whole
/// rows and puts no piece on the board.
pub proof fn lemma_skips_pass_rows(layout: Seq<char>, start: int, count: int)
    requires
        0 <= start,
        0 <= count,
        start + count <= layout.len(),
        index_after(layout, start) % 8 == 0,
        forall|k: int| start <= k < start + count ==> layout[k] == ROW_SKIP,
    ensures
        index_after(layout, start + count) == index_after(layout, start) + 8 * count,
        pieces_of(layout, start + count) == pieces_of(layout, start),
    decreases count,
{
    if count > 0 {
        lemma_skips_pass_rows(layout, start, count - 1);
    }
}

/// Every piece of a description stands on a later square than the pieces
/// before it, and on one that the description has passed. So no two pieces
/// of a well-formed description share a square, and it has at most 64.
pub proof fn lemma_squares_increase(layout: Seq<char>, n: int)
    requires
        0 <= n <= layout.len(),
        forall|k: int| 0 <= k < n ==> fault_at(layout, k) is None,
    ensures
        0 <= index_after(layout, n),
        pieces_of(layout, n).len() <= index_after(layout, n),
        pieces_of(layout, n).len() <= SQUARE_COUNT,
        forall|i: int|
            0 <= i < pieces_of(layout, n).len() ==> (#[trigger] pieces_of(layout, n)[i]).index
                < index_after(layout, n),
        forall|i: int, j: int|
            0 <= i < j < pieces_of(layout, n).len() ==> pieces_of(layout, n)[i].index < pieces_of(
                layout,
                n,
            )[j].index,
    decreases n,
{
    if n > 0 {
        lemma_squares_increase(layout, n - 1);
        assert(fault_at(layout, n - 1) is None);
    }
}

/// The starting arrangement's description is well formed and describes
/// [`starting_pieces`].
pub proof fn lemma_starting_layout()
    ensures
        STARTING_FENN@.len() == 36,
        well_formed(STARTING_FENN@),
        pieces_of(STARTING_FENN@, 36) == starting_pieces(),
{
    let layout = STARTING_FENN@;
    reveal_strlit("rnbqkbnrpppppppp////PPPPPPPPRNBQKBNR");
    assert(layout =~= seq![
        'r', 'n', 'b', 'q', 'k', 'b', 'n', 'r',
        'p', 'p', 'p', 'p', 'p', 'p', 'p', 'p',
        '/', '/', '/', '/',
        'P', 'P', 'P', 'P', 'P', 'P', 'P', 'P',
        'R', 'N', 'B', 'Q', 'K', 'B', 'N', 'R',
    ]);
    lemma_letters_fill_squares(layout, 0, 16);
    lemma_skips_pass_rows(layout, 16, 4);
    lemma_letters_fill_squares(layout, 20, 16);
    assert(pieces_of(layout, 36) =~= starting_pieces());
    assert forall|k: int| 0 <= k < 36 implies fault_at(layout, k) is None by {
        if k < 16 {
            lemma_letters_fill_squares(layout, 0, k);
        } else if k < 20 {
        } else {
            lemma_letters_fill_squares(layout, 20, k - 20);
        }
    }
}

/// The places of a list of pieces that hold pieces of one side.
pub open spec fn places_of_side(pieces: Seq<Piece>, side: Side) -> Set<int> {
    Set::new(|k: int| 0 <= k < pieces.len() && pieces[k].side == side)
}

/// The starting arrangement has 32 pieces, 16 of each side, no two on one
/// square. Its pawns fill the second and the seventh row, and its two kings
/// stand on the fifth file, on the squares 4 and 60.
pub proof fn lemma_starting_census()
    ensures
        starting_pieces().len() == 32,
        places_of_side(starting_pieces(), Side::Light).len() == 16,
        places_of_side(starting_pieces(), Side::Dark).len() == 16,
        forall|i: int, j: int|
            0 <= i < j < 32 ==> starting_pieces()[i].index != starting_pieces()[j].index,
        forall|k: int|
            0 <= k < 32 ==> (#[trigger] starting_pieces()[k].ty == PieceType::Pawn <==> {
                ||| starting_pieces()[k].index / 8 == 1
                ||| starting_pieces()[k].index / 8 == 6
            }),
        forall|k: int|
            0 <= k < 32 ==> (#[trigger] starting_pieces()[k].ty == PieceType::King <==> {
                ||| starting_pieces()[k].index == 4
                ||| starting_pieces()[k].index == 60
            }),
{
    assert(places_of_side(starting_pieces(), Side::Light) =~= set_int_range(0, 16));
    assert(places_of_side(starting_pieces(), Side::Dark) =~= set_int_range(16, 32));
    lemma_int_range(0, 16);
    lemma_int_range(16, 32);
}

/// Reads a layout description.
///
/// Succeeds where every character is a piece letter or `/` and every letter
/// falls on one of the 64 squares, and then returns the pieces in the order
/// of their letters. Fails at the first character that is neither, or whose
/// piece would stand beyond square 63, and names it.
pub fn parse_layout(layout: &str) -> (parsed: Result<Vec<Piece>, LayoutError>)
    ensures
        match parsed {
            Ok(pieces) => well_formed(layout@) && pieces@ == pieces_of(
                layout@,
                layout@.len() as int,
            ),
            Err(error) => exists|k: int| first_fault(layout@, k, error),
        },
{
    let n: usize = layout.unicode_len();
    let mut pieces: Vec<Piece> = Vec::new();
    let mut i: u8 = 0;
    let mut position: usize = 0;
    for f in fenn: layout.chars()
        invariant
            fenn.seq() == layout@,
            n == layout@.len(),
            position == fenn.index(),
            i == if index_after(layout@, position as int) < SQUARE_COUNT {
                index_after(layout@, position as int)
            } else {
                SQUARE_COUNT as int
            },
            pieces@ == pieces_of(layout@, position as int),
            forall|k: int| 0 <= k < position ==> fault_at(layout@, k) is None,
    {
        if f == ROW_SKIP {
            if i < SQUARE_COUNT {
                i = i - (i % 8) + 8;
            }
        } else {
            let ty = match PieceType::from_fenn(f) {
                Some(ty) => ty,
                None => {
                    let error = LayoutError::InvalidPiece { position, found: f };
                    assert(first_fault(layout@, position as int, error));
                    return Err(error);
                },
            };
            if i >= SQUARE_COUNT {
                let error = LayoutError::OffBoard { position };
                assert(first_fault(layout@, position as int, error));
                return Err(error);
            }
            let side = Side::from_fenn(f);
            pieces.push(Piece { ty, side, index: i });
            i += 1;
        }
        position += 1;
    }
    Ok(pieces)
}

/// The pieces of the starting arrangement, read off [`STARTING_FENN`].
pub fn initial_layout() -> (pieces: Vec<Piece>)
    ensures
        pieces@ == starting_pieces(),
{
    proof {
        lemma_starting_layout();
    }
    match parse_layout(STARTING_FENN) {
        Ok(pieces) => pieces,
        Err(error) => {
            proof {
                let k = choose|k: int| first_fault(STARTING_FENN@, k, error);
                assert(fault_at(STARTING_FENN@, k) is None);
            }
            Vec::new()
        },
    }
}

} // verus!
