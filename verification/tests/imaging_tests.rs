use squisher::imaging::{prepare_source, SourceFormat};
use std::io::Cursor;

fn png_bytes(width: u32, height: u32) -> Vec<u8> {
    let img = image::DynamicImage::ImageLuma8(image::GrayImage::from_pixel(width, height, image::Luma([128u8])));
    let mut out = Cursor::new(Vec::new());
    img.write_to(&mut out, image::ImageFormat::Png).unwrap();
    out.into_inner()
}

fn jpeg_bytes(width: u32, height: u32) -> Vec<u8> {
    let img = image::DynamicImage::ImageLuma8(image::GrayImage::from_pixel(width, height, image::Luma([90u8])));
    let mut out = Cursor::new(Vec::new());
    img.write_to(&mut out, image::ImageFormat::Jpeg).unwrap();
    out.into_inner()
}

fn dims_of(bytes: &[u8]) -> (u32, u32) {
    image::ImageReader::new(Cursor::new(bytes))
        .with_guessed_format()
        .unwrap()
        .into_dimensions()
        .unwrap()
}

#[test]
fn small_source_is_untouched() {
    let bytes = png_bytes(64, 64);
    let prepared = prepare_source(bytes.clone(), SourceFormat::Png).unwrap();
    assert_eq!(prepared, bytes);
}

#[test]
fn source_at_limit_is_untouched() {
    let bytes = png_bytes(8, 4096);
    let prepared = prepare_source(bytes.clone(), SourceFormat::Png).unwrap();
    assert_eq!(prepared, bytes);
}

#[test]
fn tall_source_is_resized_to_fit() {
    let bytes = png_bytes(8, 8192);
    let prepared = prepare_source(bytes.clone(), SourceFormat::Png).unwrap();
    assert_ne!(prepared, bytes);
    let (w, h) = dims_of(&prepared);
    assert!(w <= 4096 && h <= 4096);
    assert_eq!(h, 4096);
}

#[test]
fn tall_jpeg_is_resized_and_reencoded_losslessly() {
    let bytes = jpeg_bytes(4, 8192);
    let prepared = prepare_source(bytes.clone(), SourceFormat::Jpeg).unwrap();
    assert_ne!(prepared, bytes);
    // The intermediate is PNG, and it fits within the bound.
    assert_eq!(&prepared[1..4], b"PNG");
    let (w, h) = dims_of(&prepared);
    assert!(w <= 4096 && h <= 4096);
}

#[test]
fn undecodable_source_fails() {
    let garbage = vec![0u8; 32];
    assert!(prepare_source(garbage, SourceFormat::Png).is_err());
    // Bytes of one format forced to be read as the other fail too.
    let png = png_bytes(4, 4);
    assert!(prepare_source(png, SourceFormat::Jpeg).is_err());
}
