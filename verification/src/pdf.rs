use vstd::prelude::*;

verus! {

/// The probability density that is uniform over all directions.
#[derive(Clone, Copy, Debug)]
pub struct IsotropicPDF;

} // verus!
