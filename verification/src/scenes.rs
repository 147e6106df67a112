use rand_xoshiro::Xoshiro256Plus;
use vstd::prelude::*;

use crate::rng::next_u32;

verus! {

/// The kind of a small sphere scattered over the ground of the final
/// scene of the first book.
#[derive(Clone, Copy, Debug, PartialEq, Eq, Structural)]
pub enum SmallSphere {
    /// A diffuse sphere that moves upwards while the shutter is open.
    MovingDiffuse,
    /// A polished metal sphere.
    Metal,
    /// A glass sphere.
    Glass,
}

/// The kind of small sphere chosen by the residue `r` of a roll modulo 100:
/// 0..=80 diffuse, 81..=95 metal, the rest glass.
pub open spec fn kind_of_residue(r: int) -> SmallSphere {
    if r <= 80 {
        SmallSphere::MovingDiffuse
    } else if r <= 95 {
        SmallSphere::Metal
    } else {
        SmallSphere::Glass
    }
}

/// The kind of small sphere chosen by a 32-bit random roll.
pub fn small_sphere_kind(roll: u32) -> (k: SmallSphere)
    ensures
        k == kind_of_residue((roll % 100) as int),
{
    let r = roll % 100;
    if r <= 80 {
        SmallSphere::MovingDiffuse
    } else if r <= 95 {
        SmallSphere::Metal
    } else {
        SmallSphere::Glass
    }
}

/// Draws the next 32-bit roll from the generator and the kind of small
/// sphere it chooses.
pub fn roll_small_sphere(rng: &mut Xoshiro256Plus) -> (r: (u32, SmallSphere))
    ensures
        r.1 == kind_of_residue((r.0 % 100) as int),
{
    let roll = next_u32(rng);
    (roll, small_sphere_kind(roll))
}

/// How many of the residues `0..n` choose `kind`.
pub open spec fn residues_choosing(kind: SmallSphere, n: nat) -> nat
    decreases n,
{
    if n == 0 {
        0
    } else {
        residues_choosing(kind, (n - 1) as nat) + if kind_of_residue(n - 1) == kind {
            1nat
        } else {
            0nat
        }
    }
}

proof fn lemma_residue_counts(n: nat)
    requires
        n <= 100,
    ensures
        residues_choosing(SmallSphere::MovingDiffuse, n) == if n <= 81 {
            n
        } else {
            81
        },
        residues_choosing(SmallSphere::Metal, n) == if n <= 81 {
            0
        } else if n <= 96 {
            (n - 81) as nat
        } else {
            15
        },
        residues_choosing(SmallSphere::Glass, n) == if n <= 96 {
            0
        } else {
            (n - 96) as nat
        },
    decreases n,
{
    if n > 0 {
        lemma_residue_counts((n - 1) as nat);
    }
}

/// Of the 100 residues of a roll, 81 choose a diffuse sphere, 15 a metal
/// one and 4 a glass one.
pub proof fn lemma_small_sphere_shares()
    ensures
        residues_choosing(SmallSphere::MovingDiffuse, 100) == 81,
        residues_choosing(SmallSphere::Metal, 100) == 15,
        residues_choosing(SmallSphere::Glass, 100) == 4,
{
    lemma_residue_counts(100);
}

} // verus!
