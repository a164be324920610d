//! Coordinates in the base field of BLS12-381 and their byte form.

use vstd::prelude::*;
use crate::field::{decimal_digits, le_value};

verus! {

/// The order of the base field: the prime `q` of BLS12-381.
pub open spec fn base_modulus() -> nat {
    4002409555221667393417789825735904156556882819939007885332058136124031650490837864442687629129015664037894272559787nat
}

/// The residue held in the 48 bytes of `v` that start at `at`.
pub open spec fn coordinate(v: Seq<u8>, at: int) -> nat {
    le_value(v.subrange(at, at + 48))
}

/// The additive inverse of a residue of the base field.
pub open spec fn base_neg(a: nat) -> nat {
    ((base_modulus() - a) % (base_modulus() as int)) as nat
}

/// The text of the element of the quadratic extension whose two components
/// start at byte `at`. A component that is zero leaves its place empty.
pub open spec fn pair_text(v: Seq<u8>, at: int) -> Seq<char> {
    "QuadExtField("@ + decimal_digits(coordinate(v, at)) + " + "@ + decimal_digits(
        coordinate(v, at + 48),
    ) + " * u)"@
}

} // verus!
