use rand::RngCore;
use rand::seq::SliceRandom;
use rand_xoshiro::Xoshiro256Plus;
use vstd::prelude::*;

verus! {

/// The random generator that drives every random decision of the library.
#[verifier::external_type_specification]
#[verifier::external_body]
pub struct ExXoshiro256Plus(Xoshiro256Plus);

/// `RngCore::next_u32` of `rand_xoshiro::Xoshiro256Plus`: the upper half
/// of the next 64-bit output. The value depends on the generator's hidden
/// state, so nothing is stated of it.
#[verifier::external_body]
pub(crate) fn next_u32(rng: &mut Xoshiro256Plus) -> (r: u32) {
    rng.next_u32()
}

/// `SliceRandom::shuffle` of `rand` on a table of 256 bytes. Its source is a
/// Fisher-Yates loop made only of swaps, so the result holds the same
/// bytes, each as often as before; which permutation comes out depends on
/// the generator and is not stated.
#[verifier::external_body]
pub(crate) fn shuffle_table(table: &mut [u8; 256], rng: &mut Xoshiro256Plus)
    ensures
        final(table)@.to_multiset() == old(table)@.to_multiset(),
{
    table.shuffle(rng)
}

} // verus!
