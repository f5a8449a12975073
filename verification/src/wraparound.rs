//! The ring: folding an x-coordinate into the canonical interval of the world.

use vstd::prelude::*;
use crate::vector::fits;

verus! {

/// The largest width of a world whose bodies can be compared.
pub const MAX_BORDER_DISTANCE: i64 = 0x100_0000_0000;

/// Whether a width can be the period of a world: it is positive and no more
/// than [`MAX_BORDER_DISTANCE`].
pub open spec fn valid_border(border_distance: int) -> bool {
    0 < border_distance <= MAX_BORDER_DISTANCE
}

/// Whether a coordinate lies in the canonical interval of a world, which
/// starts half a width below zero and is one width long.
pub open spec fn in_wraparound_space(x: int, border_distance: int) -> bool {
    -(border_distance / 2) <= x < border_distance - border_distance / 2
}

/// The coordinate of the canonical interval that names the same place on the
/// ring as `x`.
pub open spec fn fold(x: int, border_distance: int) -> int {
    (x + border_distance / 2) % border_distance - border_distance / 2
}

/// Calls `modulo::Mod::modulo` on two integers. For a positive modulus that
/// function takes the remainder of the truncating division and adds the modulus
/// to it where it is negative, which is the remainder of the Euclidean division.
#[verifier::external_body]
fn ring_modulo(x: i64, modulus: i64) -> (r: i64)
    requires
        modulus > 0,
    ensures
        r == (x as int) % (modulus as int),
{
    modulo::Mod::modulo(x, modulus)
}

/// Folds a coordinate into the canonical interval of the world.
pub fn coord_space_to_wraparound_space(x: i64, border_distance: i64) -> (r: i64)
    requires
        border_distance > 0,
        fits(x + border_distance / 2),
    ensures
        r == fold(x as int, border_distance as int),
        in_wraparound_space(r as int, border_distance as int),
{
    let half: i64 = border_distance / 2;
    ring_modulo(x + half, border_distance) - half
}

/// Folding lands in the canonical interval, names the same place on the ring,
/// and leaves a coordinate of the canonical interval where it is.
pub proof fn lemma_fold_is_canonical(x: int, border_distance: int)
    requires
        border_distance > 0,
    ensures
        in_wraparound_space(fold(x, border_distance), border_distance),
        (x - fold(x, border_distance)) % border_distance == 0,
        in_wraparound_space(x, border_distance) ==> fold(x, border_distance) == x,
{
    let w = border_distance;
    let s = x + w / 2;
    vstd::arithmetic::div_mod::lemma_fundamental_div_mod(s, w);
    vstd::arithmetic::div_mod::lemma_mod_bound(s, w);
    assert(x - fold(x, w) == w * (s / w));
    vstd::arithmetic::div_mod::lemma_mod_multiples_basic(s / w, w);
    assert((w * (s / w)) % w == 0) by {
        vstd::arithmetic::mul::lemma_mul_is_commutative(w, s / w);
    }
    if in_wraparound_space(x, w) {
        vstd::arithmetic::div_mod::lemma_small_mod(s as nat, w as nat);
    }
}

/// Folding is periodic: a coordinate and the same coordinate one width further
/// fold to the same place.
pub proof fn lemma_fold_is_periodic(x: int, border_distance: int)
    requires
        border_distance > 0,
    ensures
        fold(x + border_distance, border_distance) == fold(x, border_distance),
        fold(x - border_distance, border_distance) == fold(x, border_distance),
{
    let w = border_distance;
    let s = x + w / 2;
    vstd::arithmetic::div_mod::lemma_mod_add_multiples_vanish(s, w);
    vstd::arithmetic::div_mod::lemma_mod_sub_multiples_vanish(s, w);
    assert(x + w + w / 2 == w + s);
    assert(x - w + w / 2 == -w + s);
}

} // verus!
