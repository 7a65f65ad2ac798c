//! Pieces: their kinds, their sides, and the letters that stand for them.

use vstd::prelude::*;

verus! {

/// The kind of a piece.
#[derive(Debug, Clone, Copy, PartialEq, Eq, Structural)]
pub enum PieceType {
    King,
    Queen,
    Bishop,
    Knight,
    Rook,
    Pawn,
}

/// One of the two opposing sides. A square has a side too: its colour.
#[derive(Debug, Clone, Copy, PartialEq, Eq, Structural)]
pub enum Side {
    Light,
    Dark,
}

/// A piece: its kind, its side, and where it stands.
#[derive(Debug, Clone, Copy, PartialEq, Eq, Structural)]
pub struct Piece {
    pub ty: PieceType,
    pub side: Side,
    /// The square the piece stands on.
    pub index: u8,
}

/// Whether a character has the Unicode property `Uppercase`, as
/// `char::is_uppercase` of the standard library reports it.
pub uninterp spec fn unicode_uppercase(c: char) -> bool;

/// `char::is_uppercase` of the standard library, which vstd does not cover.
/// It reports the Unicode property `Uppercase`; among the ASCII characters
/// exactly the letters `A` to `Z` have that property. Nothing here is
/// proved: the contract restates what the standard library documents.
#[verifier::external_body]
fn is_uppercase(c: char) -> (uppercase: bool)
    ensures
        uppercase == unicode_uppercase(c),
        c as u32 <= 0x7f ==> uppercase == ('A' as u32 <= c as u32 <= 'Z' as u32),
{
    c.is_uppercase()
}

impl PieceType {
    /// The kind that a layout letter stands for, in either case.
    pub open spec fn spec_from_fenn(f: char) -> Option<PieceType> {
        if f == 'k' || f == 'K' {
            Some(PieceType::King)
        } else if f == 'q' || f == 'Q' {
            Some(PieceType::Queen)
        } else if f == 'b' || f == 'B' {
            Some(PieceType::Bishop)
        } else if f == 'n' || f == 'N' {
            Some(PieceType::Knight)
        } else if f == 'r' || f == 'R' {
            Some(PieceType::Rook)
        } else if f == 'p' || f == 'P' {
            Some(PieceType::Pawn)
        } else {
            None
        }
    }

    /// The lower-case letter of a kind.
    pub open spec fn spec_letter(self) -> char {
        match self {
            PieceType::King => 'k',
            PieceType::Queen => 'q',
            PieceType::Bishop => 'b',
            PieceType::Knight => 'n',
            PieceType::Rook => 'r',
            PieceType::Pawn => 'p',
        }
    }

    /// Reads a layout letter: `k`, `q`, `b`, `n`, `r` or `p`, in either
    /// case. Any other character stands for no kind.
    pub fn from_fenn(f: char) -> (ty: Option<PieceType>)
        ensures
            ty == Self::spec_from_fenn(f),
    {
        let p = match f {
            'k' | 'K' => PieceType::King,
            'q' | 'Q' => PieceType::Queen,
            'b' | 'B' => PieceType::Bishop,
            'n' | 'N' => PieceType::Knight,
            'r' | 'R' => PieceType::Rook,
            'p' | 'P' => PieceType::Pawn,
            _ => return None,
        };
        Some(p)
    }

    /// The lower-case letter of a kind, as asset names use it.
    pub fn letter(&self) -> (w: char)
        ensures
            w == self.spec_letter(),
            Self::spec_from_fenn(w) == Some(*self),
    {
        match self {
            PieceType::King => 'k',
            PieceType::Queen => 'q',
            PieceType::Bishop => 'b',
            PieceType::Knight => 'n',
            PieceType::Rook => 'r',
            PieceType::Pawn => 'p',
        }
    }
}

impl Side {
    /// The colour of a square: light where file and rank add up to an even
    /// number, dark elsewhere.
    pub open spec fn spec_from_index(value: u8) -> Side {
        if (value % 8 + value / 8) % 2 == 0 {
            Side::Light
        } else {
            Side::Dark
        }
    }

    /// The side that a letter's case stands for.
    pub open spec fn spec_from_case(uppercase: bool) -> Side {
        if uppercase {
            Side::Dark
        } else {
            Side::Light
        }
    }

    /// The letter of a side.
    pub open spec fn spec_letter(self) -> char {
        match self {
            Side::Light => 'l',
            Side::Dark => 'd',
        }
    }

    /// The colour of the square `value`.
    pub fn from_index(value: u8) -> (side: Side)
        ensures
            side == Self::spec_from_index(value),
    {
        let a: u8 = value % 8;
        let b: u8 = (value - a) / 8;
        if (a + b) % 2 == 0 {
            Side::Light
        } else {
            Side::Dark
        }
    }

    /// The side that a letter's case stands for: upper case is dark,
    /// anything else is light.
    pub fn from_case(uppercase: bool) -> (side: Side)
        ensures
            side == Self::spec_from_case(uppercase),
            (side == Side::Dark) == uppercase,
    {
        if uppercase {
            Side::Dark
        } else {
            Side::Light
        }
    }

    /// The side of a layout letter: dark where the character is upper case,
    /// light where it is not. For an ASCII character, upper case means one
    /// of the letters `A` to `Z`.
    pub fn from_fenn(f: char) -> (side: Side)
        ensures
            side == Self::spec_from_case(unicode_uppercase(f)),
            f as u32 <= 0x7f ==> (side == Side::Dark) == ('A' as u32 <= f as u32 <= 'Z' as u32),
    {
        Side::from_case(is_uppercase(f))
    }

    /// The letter of a side, as asset names use it: `l` or `d`.
    pub fn letter(&self) -> (s: char)
        ensures
            s == self.spec_letter(),
    {
        match self {
            Side::Light => 'l',
            Side::Dark => 'd',
        }
    }
}

} // verus!
