use rand_xoshiro::Xoshiro256Plus;
use vstd::prelude::*;

use crate::bytes::{be_byte, lemma_be_byte_xor3, u64_from_be_bytes, u64_to_be_bytes};
use crate::rng::shuffle_table;

verus! {

/// `t` holds every byte value exactly once.
pub open spec fn is_byte_permutation(t: Seq<u8>) -> bool {
    &&& t.len() == 256
    &&& forall|v: u8| #[trigger] t.to_multiset().count(v) == 1
}

/// The lattice cell reached from cell coordinate `c` by the offset `d`,
/// on a lattice that wraps around after 256 cells.
pub open spec fn wrap_cell(c: int, d: int) -> int {
    (c % 256 + d) % 256
}

/// Gradient index of corner `b` (`0 <= b < 8`) of the cell `(ci, cj, ck)`:
/// bit 2 of `b` moves along x, bit 1 along y, bit 0 along z, and the
/// index is the exclusive or of the three permuted coordinates.
pub open spec fn corner_index(
    px: Seq<u8>,
    py: Seq<u8>,
    pz: Seq<u8>,
    ci: int,
    cj: int,
    ck: int,
    b: int,
) -> u8 {
    px[wrap_cell(ci, (b / 4) % 2)] ^ py[wrap_cell(cj, (b / 2) % 2)] ^ pz[wrap_cell(ck, b % 2)]
}

/// The hashing lattice of Perlin noise: three permutations of the byte
/// values, one per axis.
#[derive(Clone, Copy)]
pub struct PerlinLattice {
    permx: [u8; 256],
    permy: [u8; 256],
    permz: [u8; 256],
}

/// The identity table holds every byte value exactly once.
proof fn lemma_identity_is_permutation(t: Seq<u8>)
    requires
        t.len() == 256,
        forall|k: int| 0 <= k < 256 ==> #[trigger] t[k] == k,
    ensures
        is_byte_permutation(t),
{
    broadcast use vstd::seq_lib::group_to_multiset_ensures;

    assert(t.no_duplicates());
    t.lemma_multiset_has_no_duplicates();
    assert forall|v: u8| #[trigger] t.to_multiset().count(v) == 1 by {
        assert(t[v as int] == v);
        assert(t.contains(v));
    }
}

impl PerlinLattice {
    /// The permutation of the x coordinates.
    pub closed spec fn perm_x(&self) -> Seq<u8> {
        self.permx@
    }

    /// The permutation of the y coordinates.
    pub closed spec fn perm_y(&self) -> Seq<u8> {
        self.permy@
    }

    /// The permutation of the z coordinates.
    pub closed spec fn perm_z(&self) -> Seq<u8> {
        self.permz@
    }

    /// The three permutations, in the order x, y, z.
    pub fn tables(&self) -> (r: (&[u8; 256], &[u8; 256], &[u8; 256]))
        ensures
            r.0@ == self.perm_x(),
            r.1@ == self.perm_y(),
            r.2@ == self.perm_z(),
    {
        (&self.permx, &self.permy, &self.permz)
    }

    /// A random permutation of the 256 byte values: the identity table,
    /// shuffled.
    pub fn generate_permutations(rnd: &mut Xoshiro256Plus) -> (r: [u8; 256])
        ensures
            is_byte_permutation(r@),
    {
        let mut result: [u8; 256] = [0u8; 256];
        let mut i: usize = 0;
        while i < 256
            invariant
                0 <= i <= 256,
                forall|k: int| 0 <= k < i ==> #[trigger] result@[k] == k,
            decreases 256 - i,
        {
            result[i] = i as u8;
            i = i + 1;
        }
        proof {
            lemma_identity_is_permutation(result@);
        }
        shuffle_table(&mut result, rnd);
        result
    }

    /// A lattice with three freshly shuffled permutations, drawn in the
    /// order x, y, z.
    pub fn new(rnd: &mut Xoshiro256Plus) -> (r: PerlinLattice)
        ensures
            is_byte_permutation(r.perm_x()),
            is_byte_permutation(r.perm_y()),
            is_byte_permutation(r.perm_z()),
    {
        let permx = Self::generate_permutations(rnd);
        let permy = Self::generate_permutations(rnd);
        let permz = Self::generate_permutations(rnd);
        PerlinLattice { permx, permy, permz }
    }

    /// Gradient indices of the eight corners of the lattice cell whose
    /// integer coordinates are `(ci, cj, ck)`; entry `b` is the corner
    /// `corner_index(.., b)`. The three coordinates of each corner are
    /// packed into 64-bit words and combined with one exclusive or.
    pub fn lattice_indices(&self, ci: usize, cj: usize, ck: usize) -> (r: [u8; 8])
        ensures
            forall|b: int|
                0 <= b < 8 ==> #[trigger] r@[b] == corner_index(
                    self.perm_x(),
                    self.perm_y(),
                    self.perm_z(),
                    ci as int,
                    cj as int,
                    ck as int,
                    b,
                ),
    {
        let i = ci & 255;
        let j = cj & 255;
        let k = ck & 255;
        assert(ci & 255 == ci % 256) by (bit_vector);
        assert(cj & 255 == cj % 256) by (bit_vector);
        assert(ck & 255 == ck % 256) by (bit_vector);
        let next_i = (i + 1) & 255;
        let next_j = (j + 1) & 255;
        let next_k = (k + 1) & 255;
        assert(next_i == (i + 1) % 256) by (bit_vector)
            requires
                i < 256,
                next_i == ((i + 1) as usize) & 255,
        ;
        assert(next_j == (j + 1) % 256) by (bit_vector)
            requires
                j < 256,
                next_j == ((j + 1) as usize) & 255,
        ;
        assert(next_k == (k + 1) % 256) by (bit_vector)
            requires
                k < 256,
                next_k == ((k + 1) as usize) & 255,
        ;

        let perm_i = self.permx[i];
        let perm_j = self.permy[j];
        let perm_k = self.permz[k];
        let perm_next_i = self.permx[next_i];
        let perm_next_j = self.permy[next_j];
        let perm_next_k = self.permz[next_k];

        let wi = u64_from_be_bytes(
            [perm_i, perm_i, perm_i, perm_i, perm_next_i, perm_next_i, perm_next_i, perm_next_i],
        );
        let wj = u64_from_be_bytes(
            [perm_j, perm_j, perm_next_j, perm_next_j, perm_j, perm_j, perm_next_j, perm_next_j],
        );
        let wk = u64_from_be_bytes(
            [perm_k, perm_next_k, perm_k, perm_next_k, perm_k, perm_next_k, perm_k, perm_next_k],
        );
        let indices = u64_to_be_bytes(wi ^ wj ^ wk);
        assert forall|b: int| 0 <= b < 8 implies #[trigger] indices@[b] == corner_index(
            self.perm_x(),
            self.perm_y(),
            self.perm_z(),
            ci as int,
            cj as int,
            ck as int,
            b,
        ) by {
            lemma_be_byte_xor3(wi, wj, wk, b);
            assert(be_byte(wi, b) == (if b < 4 { perm_i } else { perm_next_i }));
            assert(be_byte(wj, b) == (if (b / 2) % 2 == 0 { perm_j } else { perm_next_j }));
            assert(be_byte(wk, b) == (if b % 2 == 0 { perm_k } else { perm_next_k }));
        }
        indices
    }
}

} // verus!
