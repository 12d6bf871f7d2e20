//! End-to-end scenarios: the whole pipeline run against an in-memory
//! container, with a stand-in for the external encoder process.

use squisher::cache::Cache;
use squisher::document::{Buffer, BufferView, Document, Image, ImageSource, Material, Texture};
use squisher::glb::{assemble_glb, parse_glb};
use squisher::pipeline::{
    consult_cache, new_image_map, plan_document, prepare_item, set_image, store_result,
    PrepareOutcome, RunConfig,
};
use squisher::rewrite::rewrite_document;
use squisher::texture::{EncodeOptions, TextureFormat, TextureType};
use squisher::SquishError;
use std::io::Cursor;

fn png_bytes(width: u32, height: u32) -> Vec<u8> {
    let img = image::DynamicImage::ImageLuma8(image::GrayImage::from_pixel(width, height, image::Luma([50u8])));
    let mut out = Cursor::new(Vec::new());
    img.write_to(&mut out, image::ImageFormat::Png).unwrap();
    out.into_inner()
}

fn jpeg_bytes(width: u32, height: u32) -> Vec<u8> {
    let img = image::DynamicImage::ImageLuma8(image::GrayImage::from_pixel(width, height, image::Luma([99u8])));
    let mut out = Cursor::new(Vec::new());
    img.write_to(&mut out, image::ImageFormat::Jpeg).unwrap();
    out.into_inner()
}

fn dims_of(bytes: &[u8]) -> (u32, u32) {
    image::ImageReader::new(Cursor::new(bytes))
        .with_guessed_format()
        .unwrap()
        .into_dimensions()
        .unwrap()
}

/// A stand-in for the external encoder: deterministic output derived from
/// the options, so the test can tell role-correct invocations apart.
fn fake_encoder(input: &[u8], options: &EncodeOptions) -> Vec<u8> {
    let mut out = Vec::new();
    out.extend_from_slice(b"KTX2");
    out.push(options.srgb as u8);
    out.push(options.normalize as u8);
    out.extend_from_slice(&(input.len() as u32).to_le_bytes());
    out
}

/// Runs the whole pipeline on a document and blob, as the binary around the
/// library would, returning the output container bytes and the rewritten
/// document; `encoder_runs` counts encoder invocations.
fn run(
    doc: Document,
    blob: Vec<u8>,
    config: RunConfig,
    cache: &mut Cache,
    encoder_runs: &mut usize,
) -> Result<(Vec<u8>, Document), SquishError> {
    let plan = plan_document(&doc, &blob)?;
    let mut encoded = new_image_map(doc.images.len());
    let mut jobs = Vec::new();
    for item in plan {
        match prepare_item(&doc, &blob, item, &config)? {
            PrepareOutcome::Skip => {}
            PrepareOutcome::Encode(job) => jobs.push(job),
        }
    }
    for job in jobs {
        let bytes = match consult_cache(cache, config.use_cache, job.key) {
            Some(hit) => hit,
            None => {
                *encoder_runs += 1;
                let fresh = fake_encoder(&job.input, &job.options);
                store_result(cache, config.use_cache, job.key, fresh.clone());
                fresh
            }
        };
        set_image(&mut encoded, job.image, bytes);
    }
    let out = rewrite_document(doc, &blob, &encoded);
    let json = b"{}".to_vec();
    let container = assemble_glb(&json, &out.blob).map_err(|_| SquishError::MalformedDocument)?;
    Ok((container, out.document))
}

/// One base-color image (embedded PNG, 512 by 512) and one normal-map image
/// (embedded JPEG, 8192 tall): the normal map is resized to fit within 4096
/// before encoding, the base color is tagged sRGB, the normal map is tagged
/// linear with normalization requested, and the output container parses
/// with both images reporting the compressed MIME type.
#[test]
fn base_color_and_oversized_normal_map() {
    let base = png_bytes(512, 512);
    let normal = jpeg_bytes(64, 8192);
    let mut blob = base.clone();
    blob.extend_from_slice(&normal);
    let doc = Document {
        materials: vec![Material {
            base_color: Some(0),
            metallic_roughness: None,
            normal: Some(1),
            emissive: None,
            occlusion: None,
        }],
        textures: vec![Texture { source: 0 }, Texture { source: 1 }],
        images: vec![
            Image { source: ImageSource::Embedded { view: 0, mime: "image/png".to_string() } },
            Image { source: ImageSource::Embedded { view: 1, mime: "image/jpeg".to_string() } },
        ],
        buffer_views: vec![
            BufferView { byte_offset: 0, byte_length: base.len() },
            BufferView { byte_offset: base.len(), byte_length: normal.len() },
        ],
        buffers: vec![Buffer { byte_length: blob.len() }],
    };
    let config = RunConfig { format: TextureFormat::Astc, use_cache: false, supercompression: true };

    // Check the prepared jobs before running the whole pipeline.
    let plan = plan_document(&doc, &blob).unwrap();
    assert_eq!(plan.len(), 2);
    for item in &plan {
        match prepare_item(&doc, &blob, *item, &config).unwrap() {
            PrepareOutcome::Encode(job) => {
                if job.image == 0 {
                    assert!(job.options.srgb);
                    assert!(!job.options.normalize);
                    assert_eq!(job.input, base);
                } else {
                    assert!(!job.options.srgb);
                    assert!(job.options.normalize);
                    // The oversized normal map was resized before encoding.
                    assert_ne!(job.input, normal);
                    let (w, h) = dims_of(&job.input);
                    assert!(w.max(h) <= 4096);
                }
            }
            PrepareOutcome::Skip => panic!("both images must be encoded"),
        }
    }

    let mut cache = Cache::new();
    let mut encoder_runs = 0;
    let (container, out_doc) = run(doc, blob, config, &mut cache, &mut encoder_runs).unwrap();
    assert_eq!(encoder_runs, 2);

    // The output container parses successfully.
    let chunks = parse_glb(&container).unwrap();
    assert_eq!(chunks.bin.len() % 4, 0);

    // Both images report the compressed MIME type.
    for image in &out_doc.images {
        match &image.source {
            ImageSource::Embedded { mime, .. } => assert_eq!(mime, "image/ktx2"),
            _ => panic!("both images must stay embedded"),
        }
    }
    // The fake encoder saw sRGB for the base color, linear plus
    // normalization for the normal map.
    let views = &out_doc.buffer_views;
    let b0 = &chunks.bin[views[0].byte_offset..views[0].byte_offset + views[0].byte_length];
    let b1 = &chunks.bin[views[1].byte_offset..views[1].byte_offset + views[1].byte_length];
    assert_eq!(&b0[0..6], &[b'K', b'T', b'X', b'2', 1, 0]);
    assert_eq!(&b1[0..6], &[b'K', b'T', b'X', b'2', 0, 1]);
}

/// An image referenced by an unsupported MIME type fails the run fast, and
/// no output is assembled.
#[test]
fn unsupported_mime_fails_the_run() {
    let doc = Document {
        materials: vec![Material {
            base_color: Some(0),
            metallic_roughness: None,
            normal: None,
            emissive: None,
            occlusion: None,
        }],
        textures: vec![Texture { source: 0 }],
        images: vec![Image {
            source: ImageSource::Embedded { view: 0, mime: "image/bmp".to_string() },
        }],
        buffer_views: vec![BufferView { byte_offset: 0, byte_length: 4 }],
        buffers: vec![Buffer { byte_length: 4 }],
    };
    let blob = vec![0x42u8, 0x4d, 0, 0];
    let config = RunConfig { format: TextureFormat::Rgba8, use_cache: true, supercompression: false };
    let mut cache = Cache::new();
    let mut encoder_runs = 0;
    match run(doc, blob, config, &mut cache, &mut encoder_runs) {
        Err(SquishError::UnsupportedMime { mime }) => assert_eq!(mime, "image/bmp"),
        _ => panic!("an unsupported MIME type must abort the run"),
    }
    // The run failed before any encode: no output was produced.
    assert_eq!(encoder_runs, 0);
}

/// Re-running over a shared cache encodes nothing the second time and
/// returns byte-identical images.
#[test]
fn second_run_is_served_from_the_cache() {
    let image_bytes = png_bytes(32, 32);
    let make_doc = |bytes: &[u8]| Document {
        materials: vec![Material {
            base_color: Some(0),
            metallic_roughness: None,
            normal: None,
            emissive: None,
            occlusion: None,
        }],
        textures: vec![Texture { source: 0 }],
        images: vec![Image {
            source: ImageSource::Embedded { view: 0, mime: "image/png".to_string() },
        }],
        buffer_views: vec![BufferView { byte_offset: 0, byte_length: bytes.len() }],
        buffers: vec![Buffer { byte_length: bytes.len() }],
    };
    let config = RunConfig { format: TextureFormat::Astc, use_cache: true, supercompression: true };
    let mut cache = Cache::new();
    let mut encoder_runs = 0;
    let (first, _) = run(
        make_doc(&image_bytes),
        image_bytes.clone(),
        config,
        &mut cache,
        &mut encoder_runs,
    )
    .unwrap();
    assert_eq!(encoder_runs, 1);
    let (second, _) = run(
        make_doc(&image_bytes),
        image_bytes.clone(),
        config,
        &mut cache,
        &mut encoder_runs,
    )
    .unwrap();
    // The second run hit the cache for the same fingerprint.
    assert_eq!(encoder_runs, 1);
    assert_eq!(first, second);
}
