use musializer::cover::{centred_square, cover_square_from_bytes, cover_square_of};
use std::io::Cursor;

fn png_bytes(width: u32, height: u32, pixels: Vec<u8>) -> Vec<u8> {
    let img = image::RgbaImage::from_raw(width, height, pixels).unwrap();
    let mut out = Vec::new();
    img.write_to(&mut Cursor::new(&mut out), image::ImageFormat::Png).unwrap();
    out
}

#[test]
fn wide_image_keeps_its_middle_column() {
    // 3 x 1 pixels: the square is the middle pixel
    let pixels: Vec<u8> = (0u8..12).collect();
    assert_eq!(centred_square(3, 1, &pixels), (1, vec![4, 5, 6, 7]));
}

#[test]
fn tall_image_keeps_its_middle_rows() {
    // 2 x 4 pixels: the square is rows 1 and 2
    let pixels: Vec<u8> = (0u8..32).collect();
    let (side, square) = centred_square(2, 4, &pixels);
    assert_eq!(side, 2);
    assert_eq!(square, (8u8..24).collect::<Vec<u8>>());
}

#[test]
fn offset_rounds_down_for_odd_margins() {
    // 4 x 1 pixels: margin of 3 columns, offset 1
    let pixels: Vec<u8> = (0u8..16).collect();
    assert_eq!(centred_square(4, 1, &pixels), (1, vec![4, 5, 6, 7]));
}

#[test]
fn square_image_is_kept_whole() {
    let pixels: Vec<u8> = (0u8..16).collect();
    assert_eq!(centred_square(2, 2, &pixels), (2, pixels.clone()));
}

#[test]
fn empty_image_gives_empty_square() {
    assert_eq!(centred_square(0, 5, &[]), (0, vec![]));
}

#[test]
fn png_cover_is_decoded_and_cropped() {
    let pixels: Vec<u8> = vec![
        10, 20, 30, 255, //
        40, 50, 60, 255, //
        70, 80, 90, 128,
    ];
    let bytes = png_bytes(3, 1, pixels);
    assert_eq!(cover_square_from_bytes(&bytes), Ok((1, vec![40, 50, 60, 255])));
}

#[test]
fn png_cover_of_a_tall_image() {
    let pixels: Vec<u8> = (0u8..24).collect();
    let bytes = png_bytes(1, 6, pixels);
    assert_eq!(cover_square_from_bytes(&bytes), Ok((1, vec![8, 9, 10, 11])));
}

#[test]
fn undecodable_cover_reports_the_decoder_error() {
    let err = cover_square_from_bytes(b"definitely not an image").unwrap_err();
    assert!(err.starts_with("Failed to decode image: "));
    assert!(err.len() > "Failed to decode image: ".len());
}

#[test]
fn decoded_outcome_is_cropped() {
    let pixels: Vec<u8> = (0u8..12).collect();
    assert_eq!(cover_square_of(Ok((3, 1, pixels))), Ok((1, vec![4, 5, 6, 7])));
}

#[test]
fn decoder_error_is_prefixed() {
    assert_eq!(
        cover_square_of(Err("Format error: unknown".to_string())),
        Err("Failed to decode image: Format error: unknown".to_string())
    );
}
