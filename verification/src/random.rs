//! The random source: a seedable generator, and the draws the breeder makes
//! from it.

use rand::rngs::StdRng;
use rand::seq::{IteratorRandom, SliceRandom};
use rand::Rng;
use vstd::prelude::*;

verus! {

/// The generator behind every draw. Its state is opaque: nothing is known
/// of a draw but what the contracts below state.
#[verifier::external_type_specification]
#[verifier::external_body]
pub struct ExStdRng(StdRng);

/// Calls `Rng::gen_range` on an inclusive range of integers. The range must
/// not be empty, and the draw lies within it.
#[verifier::external_body]
pub(crate) fn draw_in_range(rng: &mut StdRng, low: u64, high: u64) -> (r: u64)
    requires
        low <= high,
    ensures
        low <= r <= high,
{
    rng.gen_range(low..=high)
}

/// Calls `IteratorRandom::choose` on the items of a list. It returns `None`
/// if and only if the list is empty, and otherwise one of the list's items.
#[verifier::external_body]
pub(crate) fn choose_from_iter<'a>(rng: &mut StdRng, items: &'a Vec<String>) -> (r: Option<
    &'a String,
>)
    ensures
        r is Some <==> items.len() > 0,
        r matches Some(s) ==> items@.contains(*s),
{
    items.iter().choose(rng)
}

/// Calls `SliceRandom::choose` on a list. It returns `None` if and only if
/// the list is empty, and otherwise one of the list's items.
#[verifier::external_body]
pub(crate) fn choose_from_slice<'a>(rng: &mut StdRng, items: &'a Vec<String>) -> (r: Option<
    &'a String,
>)
    ensures
        r is Some <==> items.len() > 0,
        r matches Some(s) ==> items@.contains(*s),
{
    items.choose(rng)
}

} // verus!
