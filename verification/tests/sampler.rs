use raytracer::sampler::{pixel_seed, ppm_header, ppm_row};

#[test]
fn header_of_default_image() {
    assert_eq!(ppm_header(512, 512), "P3\n512 512\n255\n");
    assert_eq!(ppm_header(0, 7), "P3\n0 7\n255\n");
}

#[test]
fn row_lists_components() {
    assert_eq!(ppm_row(&vec![(0, 10, 255), (1, 2, 3)]), "0 10 255 1 2 3 \n");
    assert_eq!(ppm_row(&vec![]), "\n");
}

#[test]
fn row_text_concatenates() {
    let a = vec![(5, 6, 7)];
    let b = vec![(100, 200, 0), (9, 9, 9)];
    let ab: Vec<(u32, u32, u32)> = a.iter().chain(b.iter()).cloned().collect();
    let left = ppm_row(&a);
    let right = ppm_row(&b);
    let joined = format!("{}{}", left.trim_end_matches('\n'), right);
    assert_eq!(ppm_row(&ab), joined);
}

#[test]
fn seeds_of_pixels() {
    assert_eq!(pixel_seed(0, 0), 0);
    assert_eq!(pixel_seed(1, 0), 13);
    assert_eq!(pixel_seed(0, 1), 65537 % 44497);
    assert_eq!(pixel_seed(511, 511), ((511 * 13 + 511 * 65537) % 44497) as u64);
    for j in 0..64u32 {
        for i in 0..64u32 {
            assert!(pixel_seed(i, j) < 44497);
        }
    }
}
