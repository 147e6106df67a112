use raytracer::bvh::{construction_step, pick_split, BvhStep};
use raytracer::scenes::{roll_small_sphere, small_sphere_kind, SmallSphere};
use rand::SeedableRng;
use rand_xoshiro::Xoshiro256Plus;

#[test]
fn small_sphere_ranges() {
    assert_eq!(small_sphere_kind(0), SmallSphere::MovingDiffuse);
    assert_eq!(small_sphere_kind(80), SmallSphere::MovingDiffuse);
    assert_eq!(small_sphere_kind(81), SmallSphere::Metal);
    assert_eq!(small_sphere_kind(95), SmallSphere::Metal);
    assert_eq!(small_sphere_kind(96), SmallSphere::Glass);
    assert_eq!(small_sphere_kind(99), SmallSphere::Glass);
    assert_eq!(small_sphere_kind(180), SmallSphere::MovingDiffuse);
    assert_eq!(small_sphere_kind(u32::MAX), SmallSphere::Metal);
    assert_eq!(small_sphere_kind(4_294_967_196), SmallSphere::Glass);
}

#[test]
fn small_sphere_shares() {
    let kinds: Vec<SmallSphere> = (0..100u32).map(small_sphere_kind).collect();
    let diffuse = kinds.iter().filter(|k| **k == SmallSphere::MovingDiffuse).count();
    let metal = kinds.iter().filter(|k| **k == SmallSphere::Metal).count();
    let glass = kinds.iter().filter(|k| **k == SmallSphere::Glass).count();
    assert_eq!((diffuse, metal, glass), (81, 15, 4));
}

#[test]
fn rolled_spheres_follow_the_generator() {
    let mut a = Xoshiro256Plus::seed_from_u64(11);
    let mut b = Xoshiro256Plus::seed_from_u64(11);
    let ka: Vec<(u32, SmallSphere)> = (0..50).map(|_| roll_small_sphere(&mut a)).collect();
    let kb: Vec<(u32, SmallSphere)> = (0..50).map(|_| roll_small_sphere(&mut b)).collect();
    assert_eq!(ka, kb);
    for (roll, kind) in &ka {
        assert_eq!(*kind, small_sphere_kind(*roll));
    }
    assert!(ka.iter().any(|(_, k)| *k == SmallSphere::MovingDiffuse));
}

#[test]
fn bvh_steps() {
    assert_eq!(construction_step(0), BvhStep::List);
    assert_eq!(construction_step(1), BvhStep::Single);
    assert_eq!(construction_step(2), BvhStep::List);
    assert_eq!(construction_step(8), BvhStep::List);
    assert_eq!(construction_step(9), BvhStep::Split { mid: 4 });
    assert_eq!(construction_step(101), BvhStep::Split { mid: 50 });
    assert_eq!(pick_split(7), 3);
}

fn leaves_of(lo: usize, len: usize, out: &mut Vec<(usize, usize)>) {
    match construction_step(len) {
        BvhStep::Split { mid } => {
            leaves_of(lo, mid, out);
            leaves_of(lo + mid, len - mid, out);
        }
        _ => out.push((lo, len)),
    }
}

#[test]
fn bvh_leaves_partition_the_objects() {
    let mut leaves = Vec::new();
    leaves_of(0, 20, &mut leaves);
    assert_eq!(leaves, vec![(0, 5), (5, 5), (10, 5), (15, 5)]);
    for len in 1..300usize {
        let mut leaves = Vec::new();
        leaves_of(0, len, &mut leaves);
        let mut next = 0;
        for (start, count) in leaves {
            assert_eq!(start, next);
            assert!(1 <= count && count <= 8);
            next = start + count;
        }
        assert_eq!(next, len);
    }
}
