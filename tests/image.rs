use raytracer::{Color, Image};

#[test]
fn new_image_is_black() {
    let image = Image::new(3, 2);
    assert_eq!(image.width(), 3);
    assert_eq!(image.height(), 2);
    for row in &image.rows {
        assert_eq!(row.len(), 3);
        assert!(row.iter().all(|p| *p == Color::black()));
    }
}

#[test]
fn empty_image_has_no_width() {
    let image = Image::new(5, 0);
    assert_eq!(image.width(), 0);
    assert_eq!(image.height(), 0);
}

const BINARY: char = '6';
const PLAIN: char = '3';

/// The pixmap header with the given magic digit.
fn header(magic: char, width: usize, height: usize) -> String {
    format!("P{}\n{} {}\n255\n", magic, width, height)
}

fn sample_image() -> Image {
    let mut image = Image::new(2, 1);
    image.rows[0][0] = Color { r: 255, g: 0, b: 10 };
    image.rows[0][1] = Color { r: 1, g: 128, b: 64 };
    image
}

#[test]
fn binary_ppm_bytes() {
    let mut out = Vec::new();
    sample_image().write_binary_ppm(&mut out);
    let mut expected = header(BINARY, 2, 1).into_bytes();
    expected.extend_from_slice(&[255, 0, 10, 1, 128, 64]);
    assert_eq!(out, expected);
}

#[test]
fn ascii_ppm_text() {
    let mut out = Vec::new();
    sample_image().write_ascii_ppm(&mut out);
    let expected = header(PLAIN, 2, 1) + "255 0 10 1 128 64 \n";
    assert_eq!(String::from_utf8(out).unwrap(), expected);
}

#[test]
fn ppm_appends_after_existing_bytes() {
    let mut out = b"xy".to_vec();
    Image::new(0, 0).write_binary_ppm(&mut out);
    assert_eq!(out, (String::from("xy") + &header(BINARY, 0, 0)).into_bytes());
}

#[test]
fn ascii_ppm_wide_header() {
    let mut out = Vec::new();
    Image::new(1280, 2).write_ascii_ppm(&mut out);
    let text = String::from_utf8(out).unwrap();
    assert!(text.starts_with(&(header(PLAIN, 1280, 2) + "0 0 0 0 0 0 ")));
    assert_eq!(text.lines().count(), 5);
}
