use raytracer::axis::Axis;
use raytracer::hittable::{total_hits, FlipNormals, FlipNormalsOp, HitCounter, NoHit};
use raytracer::material::{Isotropic, NoMat};
use raytracer::texture::clamp;
use rand::SeedableRng;
use rand_xoshiro::Xoshiro256Plus;

#[test]
fn axes_in_order() {
    assert_eq!(Axis::xyz(), [Axis::X, Axis::Y, Axis::Z]);
}

#[test]
fn random_axis_is_an_axis() {
    let mut rng = Xoshiro256Plus::seed_from_u64(2);
    let mut seen = [false; 3];
    for _ in 0..100 {
        let a = Axis::random(&mut rng);
        let k = match a {
            Axis::X => 0,
            Axis::Y => 1,
            Axis::Z => 2,
        };
        seen[k] = true;
    }
    assert_eq!(seen, [true, true, true]);
}

#[test]
fn hit_counter_counts() {
    let mut c = HitCounter::new();
    assert_eq!(total_hits(&c), 0);
    for _ in 0..5 {
        c.record_hit();
    }
    assert_eq!(total_hits(&c), 5);
}

#[test]
fn flipping_twice_gives_back_the_object() {
    let flipped: FlipNormals<u32> = 42u32.flip_normals();
    assert_eq!(*flipped.target(), 42);
    let back: u32 = flipped.flip_normals();
    assert_eq!(back, 42);
    let _nothing: FlipNormals<NoHit> = NoHit.flip_normals();
}

#[test]
fn flipping_through_the_trait_unwraps() {
    let flipped: FlipNormals<u32> = FlipNormalsOp::<u32, FlipNormals<u32>>::flip_normals(7u32);
    let back: u32 = FlipNormalsOp::<FlipNormals<u32>, u32>::flip_normals(flipped);
    assert_eq!(back, 7);
}

#[test]
fn isotropic_keeps_albedo() {
    let m = Isotropic::new((0.2f32, 0.4f32, 0.9f32));
    assert_eq!(*m.albedo(), (0.2, 0.4, 0.9));
    assert_eq!(NoMat, NoMat.clone());
}

#[test]
fn clamp_limits() {
    assert_eq!(clamp(5, 0, 3), 3);
    assert_eq!(clamp(-5, 0, 3), 0);
    assert_eq!(clamp(2, 0, 3), 2);
    assert_eq!(clamp(1.5f64, 0.0, 1.0), 1.0);
    assert_eq!(clamp(-0.25f64, 0.0, 1.0), 0.0);
    assert_eq!(clamp(0.5f64, 0.0, 1.0), 0.5);
}
