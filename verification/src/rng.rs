//! The single seeded random generator the battle and the opponent generator
//! draw from, behind trusted declarations of the outside crate's items.

use vstd::prelude::*;

verus! {

/// Declares rand's standard generator type so its values can flow through
/// verified signatures; the generator itself stays opaque.
#[verifier::external_type_specification]
#[verifier::external_body]
pub struct ExStdRng(rand::rngs::StdRng);

/// Relies on rand::Rng::gen_range over `0..bound`: the sample always lies in
/// that range, and the range is nonempty so the call cannot panic. Nothing is
/// assumed about which value comes back.
#[verifier::external_body]
pub(crate) fn draw_index(rng: &mut rand::rngs::StdRng, bound: usize) -> (r: usize)
    requires
        bound >= 1,
    ensures
        r < bound,
{
    rand::Rng::gen_range(rng, 0..bound)
}

/// Relies on rand::Rng::gen_range over `lo..=hi`: the sample always lies in
/// that inclusive range, and the range is nonempty so the call cannot panic.
/// Nothing is assumed about which value comes back.
#[verifier::external_body]
pub(crate) fn draw_inclusive(rng: &mut rand::rngs::StdRng, lo: u64, hi: u64) -> (r: u64)
    requires
        lo <= hi,
    ensures
        lo <= r <= hi,
{
    rand::Rng::gen_range(rng, lo..=hi)
}

} // verus!
