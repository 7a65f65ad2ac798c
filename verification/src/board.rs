//! The board model: a table of pieces, each under a stable identifier.

use crate::piece::Piece;
use vstd::prelude::*;

verus! {

/// A stable name for a piece: it stays the same while the piece moves, and
/// no two pieces of one board share it.
#[derive(Debug, Clone, Copy, PartialEq, Eq, Structural)]
pub struct PieceId(pub usize);

/// A row of the table: a piece under its identifier.
#[derive(Debug, Clone, Copy, PartialEq, Eq, Structural)]
pub struct Entry {
    pub id: PieceId,
    pub piece: Piece,
}

/// No identifier occurs in two rows.
pub open spec fn ids_distinct(entries: Seq<Entry>) -> bool {
    forall|i: int, j: int| 0 <= i < j < entries.len() ==> entries[i].id != entries[j].id
}

/// No square holds two pieces.
pub open spec fn squares_distinct(entries: Seq<Entry>) -> bool {
    forall|i: int, j: int|
        0 <= i < j < entries.len() ==> entries[i].piece.index != entries[j].piece.index
}

/// Row `k` is the first whose piece stands on `index`.
pub open spec fn first_on(entries: Seq<Entry>, index: u8, k: int) -> bool {
    &&& 0 <= k < entries.len()
    &&& entries[k].piece.index == index
    &&& forall|j: int| 0 <= j < k ==> entries[j].piece.index != index
}

/// Some piece stands on `index`.
pub open spec fn occupied(entries: Seq<Entry>, index: u8) -> bool {
    exists|k: int| 0 <= k < entries.len() && #[trigger] entries[k].piece.index == index
}

/// The piece that a scan of the table finds on `index`: the first row whose
/// piece stands there.
pub open spec fn occupant(entries: Seq<Entry>, index: u8) -> Option<Entry> {
    if exists|k: int| first_on(entries, index, k) {
        Some(entries[choose|k: int| first_on(entries, index, k)])
    } else {
        None
    }
}

/// Row `k` holds the piece `id`.
pub open spec fn row_of(entries: Seq<Entry>, id: PieceId, k: int) -> bool {
    0 <= k < entries.len() && entries[k].id == id
}

/// The table has a piece `id`.
pub open spec fn contains_id(entries: Seq<Entry>, id: PieceId) -> bool {
    exists|k: int| row_of(entries, id, k)
}

/// The row of the piece `id`, if the table has it.
pub open spec fn lookup(entries: Seq<Entry>, id: PieceId) -> Option<Entry> {
    if contains_id(entries, id) {
        Some(entries[choose|k: int| row_of(entries, id, k)])
    } else {
        None
    }
}

/// The table without the piece `id`; the other rows keep their order.
pub open spec fn without(entries: Seq<Entry>, id: PieceId) -> Seq<Entry> {
    if contains_id(entries, id) {
        entries.remove(choose|k: int| row_of(entries, id, k))
    } else {
        entries
    }
}

/// A row after its piece has gone to `destination`, if it is the piece
/// `id`; unchanged if not.
pub open spec fn relocated_entry(entry: Entry, id: PieceId, destination: u8) -> Entry {
    if entry.id == id {
        Entry { id: entry.id, piece: Piece { index: destination, ..entry.piece } }
    } else {
        entry
    }
}

/// The table after the piece `id` has gone to `destination`. A table that
/// has no such piece stays as it is.
pub open spec fn relocated(entries: Seq<Entry>, id: PieceId, destination: u8) -> Seq<Entry> {
    Seq::new(entries.len(), |k: int| relocated_entry(entries[k], id, destination))
}

/// The rows that a list of pieces starts with: each piece is named by its
/// place in the list.
pub open spec fn numbered(pieces: Seq<Piece>) -> Seq<Entry> {
    Seq::new(pieces.len(), |k: int| Entry { id: PieceId(k as usize), piece: pieces[k] })
}

/// Rows that are named by their place have distinct identifiers, and no two
/// of them share a square exactly where no two of the pieces do.
pub proof fn lemma_numbered(pieces: Seq<Piece>)
    requires
        pieces.len() <= usize::MAX,
    ensures
        numbered(pieces).len() == pieces.len(),
        ids_distinct(numbered(pieces)),
        squares_distinct(numbered(pieces)) <==> forall|i: int, j: int|
            0 <= i < j < pieces.len() ==> pieces[i].index != pieces[j].index,
{
    let entries = numbered(pieces);
    if squares_distinct(entries) {
        assert forall|i: int, j: int| 0 <= i < j < pieces.len() implies pieces[i].index
            != pieces[j].index by {
            assert(entries[i].piece.index != entries[j].piece.index);
        }
    }
}

/// The first row on a square is unique.
pub proof fn lemma_first_on_unique(entries: Seq<Entry>, index: u8, k: int)
    requires
        first_on(entries, index, k),
    ensures
        occupant(entries, index) == Some(entries[k]),
        occupied(entries, index),
{
    let c = choose|c: int| first_on(entries, index, c);
    assert(first_on(entries, index, c));
    if c < k {
        assert(entries[c].piece.index != index);
    }
    if k < c {
        assert(entries[k].piece.index != index);
    }
}

/// A scan finds a piece exactly on the squares where one stands, and what it
/// finds stands there and is a row of the table.
pub proof fn lemma_occupant(entries: Seq<Entry>, index: u8)
    ensures
        occupant(entries, index) is None <==> !occupied(entries, index),
        occupant(entries, index) matches Some(entry) ==> entry.piece.index == index
            && contains_id(entries, entry.id),
    decreases entries.len(),
{
    if occupied(entries, index) {
        let k = choose|k: int| 0 <= k < entries.len() && #[trigger] entries[k].piece.index == index;
        let first = lemma_first_exists(entries, index, k);
        lemma_first_on_unique(entries, index, first);
        assert(row_of(entries, entries[first].id, first));
    } else {
        if exists|k: int| first_on(entries, index, k) {
            let k = choose|k: int| first_on(entries, index, k);
            assert(entries[k].piece.index == index);
        }
    }
}

/// Where some row up to `k` stands on `index`, there is a first such row.
proof fn lemma_first_exists(entries: Seq<Entry>, index: u8, k: int) -> (first: int)
    requires
        0 <= k < entries.len(),
        entries[k].piece.index == index,
    ensures
        first_on(entries, index, first),
        first <= k,
    decreases k,
{
    if exists|j: int| 0 <= j < k && #[trigger] entries[j].piece.index == index {
        let j = choose|j: int| 0 <= j < k && #[trigger] entries[j].piece.index == index;
        lemma_first_exists(entries, index, j)
    } else {
        k
    }
}

/// With distinct identifiers, the row that holds an identifier is unique.
pub proof fn lemma_row_unique(entries: Seq<Entry>, id: PieceId, k: int)
    requires
        ids_distinct(entries),
        row_of(entries, id, k),
    ensures
        contains_id(entries, id),
        (choose|c: int| row_of(entries, id, c)) == k,
        lookup(entries, id) == Some(entries[k]),
        without(entries, id) == entries.remove(k),
{
    let c = choose|c: int| row_of(entries, id, c);
    assert(row_of(entries, id, c));
    if c < k {
        assert(entries[c].id != entries[k].id);
    }
    if k < c {
        assert(entries[k].id != entries[c].id);
    }
}

/// The table of pieces.
///
/// Rows keep the order in which the pieces were handed over; a scan for the
/// piece on a square goes through them in that order.
pub struct Board {
    entries: Vec<Entry>,
}

impl View for Board {
    type V = Seq<Entry>;

    closed spec fn view(&self) -> Seq<Entry> {
        self.entries@
    }
}

impl Board {
    #[verifier::type_invariant]
    spec fn well_formed(self) -> bool {
        ids_distinct(self.entries@)
    }

    /// A board with the given pieces, named `0`, `1`, ... in their order.
    pub fn new(pieces: Vec<Piece>) -> (board: Board)
        ensures
            board@ == numbered(pieces@),
            ids_distinct(board@),
    {
        let mut entries: Vec<Entry> = Vec::new();
        let mut k: usize = 0;
        while k < pieces.len()
            invariant
                k <= pieces.len(),
                entries@ == numbered(pieces@.take(k as int)),
            decreases pieces.len() - k,
        {
            entries.push(Entry { id: PieceId(k), piece: pieces[k] });
            k += 1;
            assert(entries@ =~= numbered(pieces@.take(k as int)));
        }
        assert(pieces@.take(k as int) =~= pieces@);
        Board { entries }
    }

    /// The number of pieces on the board.
    pub fn len(&self) -> (n: usize)
        ensures
            n == self@.len(),
            ids_distinct(self@),
    {
        proof {
            use_type_invariant(self);
        }
        self.entries.len()
    }

    /// The rows of the table, in order.
    pub fn entries(&self) -> (rows: Vec<Entry>)
        ensures
            rows@ == self@,
            ids_distinct(self@),
    {
        proof {
            use_type_invariant(self);
        }
        self.entries.clone()
    }

    /// The piece on a square: the first row of the table that stands there,
    /// or `None` where the square is empty.
    pub fn piece_at(&self, index: u8) -> (found: Option<Entry>)
        ensures
            found == occupant(self@, index),
            found is Some <==> occupied(self@, index),
            ids_distinct(self@),
    {
        proof {
            use_type_invariant(self);
        }
        let mut k: usize = 0;
        while k < self.entries.len()
            invariant
                k <= self.entries.len(),
                ids_distinct(self@),
                forall|j: int| 0 <= j < k ==> self.entries@[j].piece.index != index,
            decreases self.entries.len() - k,
        {
            if self.entries[k].piece.index == index {
                proof {
                    lemma_first_on_unique(self@, index, k as int);
                }
                return Some(self.entries[k]);
            }
            k += 1;
        }
        proof {
            lemma_occupant(self@, index);
        }
        None
    }

    /// The row in which a piece is kept.
    fn find(&self, id: PieceId) -> (row: Option<usize>)
        ensures
            row is Some <==> contains_id(self@, id),
            row matches Some(k) ==> row_of(self@, id, k as int),
    {
        let mut k: usize = 0;
        while k < self.entries.len()
            invariant
                k <= self.entries.len(),
                forall|j: int| 0 <= j < k ==> self.entries@[j].id != id,
            decreases self.entries.len() - k,
        {
            if self.entries[k].id == id {
                assert(row_of(self@, id, k as int));
                return Some(k);
            }
            k += 1;
        }
        None
    }

    /// The piece `id`, or `None` where the board has no such piece.
    pub fn get(&self, id: PieceId) -> (found: Option<Entry>)
        ensures
            found == lookup(self@, id),
            found is Some <==> contains_id(self@, id),
            ids_distinct(self@),
    {
        proof {
            use_type_invariant(self);
        }
        match self.find(id) {
            Some(k) => {
                proof {
                    lemma_row_unique(self@, id, k as int);
                }
                Some(self.entries[k])
            },
            None => None,
        }
    }

    /// Puts the piece `id` on `destination`, whatever stands there. Says
    /// whether the board has such a piece; without one nothing changes.
    pub fn move_piece(&mut self, id: PieceId, destination: u8) -> (moved: bool)
        ensures
            final(self)@ == relocated(old(self)@, id, destination),
            moved == contains_id(old(self)@, id),
            ids_distinct(final(self)@),
    {
        proof {
            use_type_invariant(&*self);
        }
        match self.find(id) {
            Some(k) => {
                let entry = self.entries[k];
                let piece = Piece { ty: entry.piece.ty, side: entry.piece.side, index: destination };
                let mut entries: Vec<Entry> = Vec::new();
                core::mem::swap(&mut entries, &mut self.entries);
                entries.set(k, Entry { id, piece });
                assert(entries@ =~= relocated(old(self)@, id, destination));
                self.entries = entries;
                true
            },
            None => {
                assert forall|k: int| 0 <= k < self@.len() implies self@[k].id != id by {
                    if self@[k].id == id {
                        assert(row_of(self@, id, k));
                    }
                }
                assert(self@ =~= relocated(self@, id, destination));
                false
            },
        }
    }

    /// Takes the piece `id` off the board. Says whether the board had such
    /// a piece; without one nothing changes.
    pub fn remove_piece(&mut self, id: PieceId) -> (removed: bool)
        ensures
            final(self)@ == without(old(self)@, id),
            removed == contains_id(old(self)@, id),
            ids_distinct(final(self)@),
    {
        proof {
            use_type_invariant(&*self);
        }
        match self.find(id) {
            Some(k) => {
                proof {
                    lemma_row_unique(self@, id, k as int);
                }
                let mut entries: Vec<Entry> = Vec::new();
                core::mem::swap(&mut entries, &mut self.entries);
                entries.remove(k);
                self.entries = entries;
                true
            },
            None => false,
        }
    }
}

} // verus!
