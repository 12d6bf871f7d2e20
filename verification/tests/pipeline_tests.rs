use squisher::classify::WorkItem;
use squisher::document::{Buffer, BufferView, Document, Image, ImageSource, Material, Texture};
use squisher::pipeline::{prepare_item, PrepareOutcome, RunConfig};
use squisher::texture::{TextureFormat, TextureType};
use squisher::SquishError;
use std::io::Cursor;

fn png_bytes(width: u32, height: u32) -> Vec<u8> {
    let img = image::DynamicImage::ImageLuma8(image::GrayImage::from_pixel(width, height, image::Luma([77u8])));
    let mut out = Cursor::new(Vec::new());
    img.write_to(&mut out, image::ImageFormat::Png).unwrap();
    out.into_inner()
}

fn single_image_document(image_bytes: &[u8], mime: &str) -> (Document, Vec<u8>) {
    let doc = Document {
        materials: vec![Material {
            base_color: Some(0),
            metallic_roughness: None,
            normal: None,
            emissive: None,
            occlusion: None,
        }],
        textures: vec![Texture { source: 0 }],
        images: vec![Image {
            source: ImageSource::Embedded { view: 0, mime: mime.to_string() },
        }],
        buffer_views: vec![BufferView { byte_offset: 0, byte_length: image_bytes.len() }],
        buffers: vec![Buffer { byte_length: image_bytes.len() }],
    };
    (doc, image_bytes.to_vec())
}

fn astc_config() -> RunConfig {
    RunConfig { format: TextureFormat::Astc, use_cache: true, supercompression: true }
}

#[test]
fn embedded_png_yields_role_correct_job() {
    let bytes = png_bytes(16, 16);
    let (doc, blob) = single_image_document(&bytes, "image/png");
    let item = WorkItem { image: 0, role: TextureType::BaseColor };
    let outcome = prepare_item(&doc, &blob, item, &astc_config()).unwrap();
    let job = match outcome {
        PrepareOutcome::Encode(job) => job,
        PrepareOutcome::Skip => panic!("expected an encode job"),
    };
    assert_eq!(job.image, 0);
    // The input is small enough to be handed on untouched, and the key is
    // the fingerprint of the raw source bytes.
    assert_eq!(job.input, bytes);
    let mut material = vec![1u8, 1];
    material.extend_from_slice(&bytes);
    assert_eq!(job.key, seahash::hash(&material));
    assert!(job.options.srgb);
    assert!(!job.options.normalize);
    assert!(job.options.mipmaps);
    assert!(job.options.supercompression);
    assert_eq!(job.options.block_size, "6x6");
    assert_eq!(job.options.format, TextureFormat::Astc);
}

#[test]
fn already_compressed_image_is_skipped() {
    let (doc, blob) = single_image_document(&[1, 2, 3, 4], "image/ktx2");
    let item = WorkItem { image: 0, role: TextureType::BaseColor };
    match prepare_item(&doc, &blob, item, &astc_config()).unwrap() {
        PrepareOutcome::Skip => {}
        PrepareOutcome::Encode(_) => panic!("a compressed image must be skipped"),
    }
}

#[test]
fn external_reference_is_skipped() {
    let (mut doc, blob) = single_image_document(&[1, 2, 3, 4], "image/png");
    doc.images[0].source = ImageSource::External { uri: "a.png".to_string() };
    let item = WorkItem { image: 0, role: TextureType::Normal };
    match prepare_item(&doc, &blob, item, &astc_config()).unwrap() {
        PrepareOutcome::Skip => {}
        PrepareOutcome::Encode(_) => panic!("an external reference must be skipped"),
    }
}

#[test]
fn unsupported_mime_fails() {
    let (doc, blob) = single_image_document(&[0x42, 0x4d, 0, 0], "image/bmp");
    let item = WorkItem { image: 0, role: TextureType::BaseColor };
    match prepare_item(&doc, &blob, item, &astc_config()) {
        Err(SquishError::UnsupportedMime { mime }) => assert_eq!(mime, "image/bmp"),
        _ => panic!("an unsupported MIME type must fail the run"),
    }
}

#[test]
fn undecodable_supported_mime_fails() {
    let (doc, blob) = single_image_document(&[0u8; 16], "image/png");
    let item = WorkItem { image: 0, role: TextureType::BaseColor };
    match prepare_item(&doc, &blob, item, &astc_config()) {
        Err(SquishError::ImageDecode) => {}
        _ => panic!("bytes that do not decode must fail the run"),
    }
}

#[test]
fn error_message_names_the_mime_type() {
    let err = SquishError::UnsupportedMime { mime: "image/bmp".to_string() };
    assert_eq!(err.message(), "unsupported image MIME type: image/bmp");
}
