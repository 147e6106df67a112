use vstd::prelude::*;

verus! {

/// The phase function of a participating medium: it scatters light
/// uniformly in all directions, tinted by `albedo`.
#[derive(Clone, Debug)]
pub struct Isotropic<T> {
    albedo: T,
}

impl<T> Isotropic<T> {
    /// The tint of the scattered light.
    pub closed spec fn albedo_spec(&self) -> T {
        self.albedo
    }

    /// An isotropic medium tinted by `albedo`.
    pub fn new(albedo: T) -> (r: Isotropic<T>)
        ensures
            r.albedo_spec() == albedo,
    {
        Isotropic { albedo }
    }

    /// The tint of the scattered light.
    pub fn albedo(&self) -> (r: &T)
        ensures
            *r == self.albedo_spec(),
    {
        &self.albedo
    }
}

/// The material that neither emits nor scatters light.
#[derive(Clone, Copy, Debug, PartialEq, Eq, Structural)]
pub struct NoMat;

} // verus!
