use vstd::arithmetic::div_mod::{lemma_mod_self_0, lemma_small_mod};
use vstd::prelude::*;

verus! {

/// Counts the ray-object intersections found while rendering.
pub struct HitCounter {
    hits: usize,
}

impl HitCounter {
    /// The number of intersections recorded so far, modulo the range of
    /// `usize` (the count wraps around as an atomic counter does).
    pub closed spec fn count(&self) -> nat {
        self.hits as nat
    }

    /// A counter that has seen no intersection yet.
    pub fn new() -> (r: HitCounter)
        ensures
            r.count() == 0,
    {
        HitCounter { hits: 0 }
    }

    /// Records one more intersection.
    pub fn record_hit(&mut self)
        ensures
            final(self).count() == (old(self).count() + 1) % (usize::MAX as nat + 1),
            old(self).count() < usize::MAX ==> final(self).count() == old(self).count() + 1,
    {
        if self.hits == usize::MAX {
            self.hits = 0;
            proof {
                lemma_mod_self_0(usize::MAX as int + 1);
            }
        } else {
            self.hits = self.hits + 1;
            proof {
                lemma_small_mod(old(self).hits as nat + 1, usize::MAX as nat + 1);
            }
        }
    }
}

/// The number of intersections that `counter` has recorded.
pub fn total_hits(counter: &HitCounter) -> (r: usize)
    ensures
        r == counter.count(),
{
    counter.hits
}

/// The object that nothing ever hits.
#[derive(Clone, Copy, Debug)]
pub struct NoHit;

/// An object whose surface normals point the other way.
#[derive(Clone, Debug)]
pub struct FlipNormals<T>(T);

/// `target` with its normals flipped.
pub closed spec fn flipped<T>(target: T) -> FlipNormals<T> {
    FlipNormals(target)
}

impl<T> FlipNormals<T> {
    /// The object whose normals are flipped.
    pub closed spec fn target_spec(&self) -> T {
        self.0
    }

    /// The object whose normals are flipped.
    pub fn target(&self) -> (r: &T)
        ensures
            *r == self.target_spec(),
    {
        &self.0
    }

    /// Flipping the normals of an object whose normals were flipped gives
    /// the object back (the same as the trait's second implementation).
    pub fn flip_normals(self) -> (r: T)
        ensures
            r == self.target_spec(),
    {
        self.0
    }
}

/// Flipping the normals of an object wraps it; flipping those of a wrapped
/// object unwraps it again.
pub trait FlipNormalsOp<I, O>: Sized {
    fn flip_normals(self) -> O;
}

impl<I> FlipNormalsOp<I, FlipNormals<I>> for I {
    fn flip_normals(self) -> (r: FlipNormals<I>)
        ensures
            r == flipped(self),
    {
        FlipNormals(self)
    }
}

impl<I> FlipNormalsOp<FlipNormals<I>, I> for FlipNormals<I> {
    /// Flipping the normals of an object whose normals were flipped gives
    /// the object back.
    fn flip_normals(self) -> (r: I)
        ensures
            r == self.target_spec(),
    {
        self.0
    }
}

/// Flipping the normals twice gives back the object itself, and every
/// object with flipped normals is the flip of its target.
pub proof fn lemma_flip_normals_involution<T>(x: T, f: FlipNormals<T>)
    ensures
        flipped(x).target_spec() == x,
        flipped(f.target_spec()) == f,
{
}

} // verus!
