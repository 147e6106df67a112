use rand::seq::SliceRandom;
use rand_xoshiro::Xoshiro256Plus;
use vstd::prelude::*;

verus! {

/// One of the three coordinate axes.
#[derive(Clone, Copy, Debug, PartialEq, Eq, Structural)]
pub enum Axis {
    X,
    Y,
    Z,
}

impl Axis {
    /// All three axes, in the order X, Y, Z.
    pub fn xyz() -> (r: [Axis; 3])
        ensures
            r@ == seq![Axis::X, Axis::Y, Axis::Z],
    {
        let r = [Axis::X, Axis::Y, Axis::Z];
        assert(r@ =~= seq![Axis::X, Axis::Y, Axis::Z]);
        r
    }

    /// An axis picked with `SliceRandom::choose` of `rand` from the three
    /// axes; which one depends on the generator, so nothing is stated of it
    /// beyond its type.
    #[verifier::external_body]
    pub fn random(rnd: &mut Xoshiro256Plus) -> (r: &'static Axis) {
        [Axis::X, Axis::Y, Axis::Z].choose(rnd).unwrap()
    }
}

} // verus!
