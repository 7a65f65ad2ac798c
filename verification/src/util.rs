//! Names of the assets that show the pieces.

use crate::piece::{PieceType, Side};
use vstd::prelude::*;
use vstd::string::StringExecFns;

verus! {

/// The last character of every asset name.
pub const ASSET_SUFFIX: char = 't';

/// The name of the asset that shows a piece: the letter of its kind, the
/// letter of its side, and `t`.
pub open spec fn asset_name(ty: PieceType, side: Side) -> Seq<char> {
    seq![ty.spec_letter(), side.spec_letter(), ASSET_SUFFIX]
}

/// The name of the asset that shows a piece of kind `ty` and side `side`:
/// `klt` for the light king, `pdt` for a dark pawn.
pub fn get_asset_name(ty: &PieceType, side: &Side) -> (name: String)
    ensures
        name@ == asset_name(*ty, *side),
{
    let s: &str = if *side == Side::Light {
        "l"
    } else {
        "d"
    };
    let w: &str = match ty {
        PieceType::King => "k",
        PieceType::Queen => "q",
        PieceType::Bishop => "b",
        PieceType::Knight => "n",
        PieceType::Rook => "r",
        PieceType::Pawn => "p",
    };
    proof {
        reveal_strlit("l");
        reveal_strlit("d");
        reveal_strlit("k");
        reveal_strlit("q");
        reveal_strlit("b");
        reveal_strlit("n");
        reveal_strlit("r");
        reveal_strlit("p");
        reveal_strlit("t");
    }
    let mut name = w.to_owned();
    name.append(s);
    name.append("t");
    assert(name@ =~= asset_name(*ty, *side));
    name
}

} // verus!
