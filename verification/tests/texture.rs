use image::codecs::png::PngEncoder;
use image::{ColorType, ImageEncoder};
use raytracer::texture::{ImageTexture, Rgb8Image};

fn png_bytes(width: u32, height: u32, rgb: &[u8]) -> Vec<u8> {
    let mut out: Vec<u8> = Vec::new();
    PngEncoder::new(&mut out).write_image(rgb, width, height, ColorType::Rgb8).unwrap();
    out
}

#[test]
fn loads_a_png_as_rgb() {
    let rgb: Vec<u8> = vec![255, 0, 0, 0, 255, 0, 0, 0, 255, 10, 20, 30, 40, 50, 60, 70, 80, 90];
    let bytes = png_bytes(3, 2, &rgb);
    let img = ImageTexture::load("./textures/stone.png", &bytes);
    assert_eq!((img.width, img.height), (3, 2));
    assert_eq!(img.data, rgb);
    assert_eq!(img.pixel(0, 0), (255, 0, 0));
    assert_eq!(img.pixel(2, 0), (0, 0, 255));
    assert_eq!(img.pixel(1, 1), (40, 50, 60));
}

#[test]
fn try_load_agrees_with_load() {
    let bytes = png_bytes(2, 1, &[1, 2, 3, 4, 5, 6]);
    let a = ImageTexture::try_load("a.png", &bytes).unwrap();
    let b = ImageTexture::load("a.png", &bytes);
    assert_eq!((a.width, a.height, a.data), (b.width, b.height, b.data));
}

#[test]
fn unknown_extension_does_not_load() {
    let bytes = png_bytes(1, 1, &[7, 8, 9]);
    assert!(ImageTexture::try_load("stone.unknownformat", &bytes).is_none());
    assert!(ImageTexture::try_load("stone", &bytes).is_none());
}

#[test]
fn broken_bytes_do_not_load() {
    assert!(ImageTexture::try_load("stone.png", &[1, 2, 3, 4]).is_none());
    assert!(ImageTexture::try_load("stone.png", &[]).is_none());
}

#[test]
fn pixel_reads_row_by_row() {
    let img = Rgb8Image { width: 2, height: 2, data: (0u8..12).collect() };
    assert_eq!(img.pixel(0, 0), (0, 1, 2));
    assert_eq!(img.pixel(1, 0), (3, 4, 5));
    assert_eq!(img.pixel(0, 1), (6, 7, 8));
    assert_eq!(img.pixel(1, 1), (9, 10, 11));
}
