use rand::SeedableRng;
use rand_xoshiro::Xoshiro256Plus;
use raytracer::noise::PerlinLattice;

fn counts(table: &[u8; 256]) -> [u32; 256] {
    let mut c = [0u32; 256];
    for v in table.iter() {
        c[*v as usize] += 1;
    }
    c
}

#[test]
fn generated_table_is_a_permutation() {
    let mut rng = Xoshiro256Plus::seed_from_u64(7);
    let table = PerlinLattice::generate_permutations(&mut rng);
    assert!(counts(&table).iter().all(|c| *c == 1));
}

#[test]
fn generated_table_is_shuffled() {
    let mut rng = Xoshiro256Plus::seed_from_u64(7);
    let table = PerlinLattice::generate_permutations(&mut rng);
    let identity: Vec<u8> = (0..=255u8).collect();
    assert_ne!(table.to_vec(), identity);
}

#[test]
fn lattice_tables_are_permutations_and_differ() {
    let mut rng = Xoshiro256Plus::seed_from_u64(1);
    let lattice = PerlinLattice::new(&mut rng);
    let (px, py, pz) = lattice.tables();
    for t in [px, py, pz] {
        assert!(counts(t).iter().all(|c| *c == 1));
    }
    assert_ne!(px, py);
    assert_ne!(py, pz);
}

fn expected(lattice: &PerlinLattice, ci: usize, cj: usize, ck: usize) -> [u8; 8] {
    let (px, py, pz) = lattice.tables();
    let mut r = [0u8; 8];
    for b in 0..8usize {
        let di = (b >> 2) & 1;
        let dj = (b >> 1) & 1;
        let dk = b & 1;
        r[b] = px[(ci % 256 + di) % 256] ^ py[(cj % 256 + dj) % 256] ^ pz[(ck % 256 + dk) % 256];
    }
    r
}

#[test]
fn lattice_indices_combine_the_three_permutations() {
    let mut rng = Xoshiro256Plus::seed_from_u64(3);
    let lattice = PerlinLattice::new(&mut rng);
    for (ci, cj, ck) in [(0, 0, 0), (1, 2, 3), (17, 200, 99), (254, 13, 128)] {
        assert_eq!(lattice.lattice_indices(ci, cj, ck), expected(&lattice, ci, cj, ck));
    }
}

#[test]
fn lattice_indices_wrap_around() {
    let mut rng = Xoshiro256Plus::seed_from_u64(4);
    let lattice = PerlinLattice::new(&mut rng);
    assert_eq!(lattice.lattice_indices(255, 255, 255), expected(&lattice, 255, 255, 255));
    assert_eq!(lattice.lattice_indices(256, 512, 1000), lattice.lattice_indices(0, 0, 232));
    assert_eq!(
        lattice.lattice_indices(usize::MAX, 7, 8),
        expected(&lattice, usize::MAX, 7, 8)
    );
}

#[test]
fn lattice_corner_zero_is_xor_of_cell_entries() {
    let mut rng = Xoshiro256Plus::seed_from_u64(5);
    let lattice = PerlinLattice::new(&mut rng);
    let (px, py, pz) = lattice.tables();
    let r = lattice.lattice_indices(10, 20, 30);
    assert_eq!(r[0], px[10] ^ py[20] ^ pz[30]);
    assert_eq!(r[7], px[11] ^ py[21] ^ pz[31]);
    assert_eq!(r[4], px[11] ^ py[20] ^ pz[30]);
    assert_eq!(r[1], px[10] ^ py[20] ^ pz[31]);
}
