//! Per-image pipeline steps: resolving an image's source bytes, validating
//! its MIME type, fingerprinting for the cache, deriving encoder options and
//! preparing the encoder input. The external encoder itself runs outside;
//! each step here states exactly what it hands it.

use crate::cache::{fingerprint, fingerprint_spec, Cache};
use crate::classify::{classify_document, classify_spec, dedup_spec, plan_unique, WorkItem};
use crate::document::{Document, ImageSource};
use crate::glb::copy_range;
use crate::imaging::{prepare_source, prepared_source, SourceFormat};
use crate::texture::{EncodeOptions, TextureFormat, TextureType};
use crate::SquishError;
use vstd::prelude::*;

verus! {

/// The configuration of one run.
#[derive(Clone, Copy, Debug)]
pub struct RunConfig {
    /// Target texture format.
    pub format: TextureFormat,
    /// Whether the content-addressable cache serves and stores results.
    pub use_cache: bool,
    /// Whether entropy supercompression is requested.
    pub supercompression: bool,
}

/// Everything the external encoder needs for one image: which image it is,
/// its cache fingerprint, the prepared input bytes, and the derived options.
pub struct EncodeJob {
    pub image: usize,
    pub key: u64,
    pub input: Vec<u8>,
    pub options: EncodeOptions,
}

/// What preparing one work item decides: skip the image, or encode it.
pub enum PrepareOutcome {
    Skip,
    Encode(EncodeJob),
}

/// Role-correct options: the derived option set is sRGB exactly for base
/// color and emissive roles, requests normalization exactly for the normal
/// role, follows the role's block size, always requests mip generation, and
/// follows the run's format and supercompression choice.
pub open spec fn options_match(
    o: EncodeOptions,
    role: TextureType,
    format: TextureFormat,
    supercompression: bool,
) -> bool {
    &&& o.format == format
    &&& o.srgb == role.is_srgb_spec()
    &&& o.normalize == (role == TextureType::Normal)
    &&& o.mipmaps
    &&& o.supercompression == supercompression
    &&& o.block_size@ == role.block_size_spec()
}

/// The raw bytes of an embedded image: the view's range of the blob.
pub open spec fn embedded_bytes(doc: Document, blob: Seq<u8>, view: int) -> Seq<u8> {
    blob.subrange(
        doc.buffer_views@[view].byte_offset as int,
        doc.buffer_views@[view].byte_offset + doc.buffer_views@[view].byte_length,
    )
}

/// Prepares one work item. An external reference is skipped; an image
/// already in the compressed format is skipped; a supported source (PNG or
/// JPEG) is sliced out of the blob, fingerprinted over the run's options and
/// the raw bytes, and handed on with role-correct options and an input
/// resized when oversized; any other MIME type fails the run.
pub fn prepare_item(doc: &Document, blob: &Vec<u8>, item: WorkItem, config: &RunConfig) -> (r:
    Result<PrepareOutcome, SquishError>)
    requires
        doc.wf(blob@.len() as int),
        item.image < doc.images@.len(),
        blob@.len() + 2 <= usize::MAX,
    ensures
        ({
            match doc.images@[item.image as int].source {
                ImageSource::External { .. } => r matches Ok(o) && o is Skip,
                ImageSource::Embedded { view, mime } => {
                    if mime@ == "image/ktx2"@ {
                        r matches Ok(o) && o is Skip
                    } else if mime@ != "image/png"@ && mime@ != "image/jpeg"@ {
                        r matches Err(e) && e matches SquishError::UnsupportedMime { mime: m }
                            && m@ == mime@
                    } else {
                        let raw = embedded_bytes(*doc, blob@, view as int);
                        let png = mime@ == "image/png"@;
                        match prepared_source(raw, png) {
                            Some(s) => r matches Ok(o) && o matches PrepareOutcome::Encode(job)
                                && job.image == item.image && job.key == fingerprint_spec(
                                config.format,
                                config.supercompression,
                                raw,
                            ) && job.input@ == s && options_match(
                                job.options,
                                item.role,
                                config.format,
                                config.supercompression,
                            ),
                            None => r matches Err(e) && (if crate::imaging::image_dims(raw, png)
                                is None {
                                e == SquishError::ImageDecode
                            } else {
                                e == SquishError::ImageEncode
                            }),
                        }
                    }
                },
            }
        }),
{
    let image = &doc.images[item.image];
    let (view, png): (usize, bool) = match &image.source {
        ImageSource::External { .. } => {
            return Ok(PrepareOutcome::Skip);
        },
        ImageSource::Embedded { view, mime } => {
            proof {
                reveal_strlit("image/ktx2");
                reveal_strlit("image/png");
                reveal_strlit("image/jpeg");
                assert("image/ktx2"@.len() == 10);
                assert("image/png"@.len() == 9);
                assert("image/jpeg"@.len() == 10);
                assert("image/ktx2"@ != "image/png"@);
                assert("image/ktx2"@[6] != "image/jpeg"@[6]);
                assert("image/ktx2"@ != "image/jpeg"@);
                assert("image/png"@ != "image/jpeg"@);
            }
            if *mime == String::from_str("image/ktx2") {
                return Ok(PrepareOutcome::Skip);
            }
            if *mime == String::from_str("image/png") {
                (*view, true)
            } else if *mime == String::from_str("image/jpeg") {
                (*view, false)
            } else {
                return Err(SquishError::UnsupportedMime { mime: mime.clone() });
            }
        },
    };
    let bv = doc.buffer_views[view];
    let raw = copy_range(blob, bv.byte_offset, bv.byte_length);
    let key = fingerprint(config.format, config.supercompression, &raw);
    let options = EncodeOptions::derive_options(&item.role, config.format, config.supercompression);
    let format = if png {
        SourceFormat::Png
    } else {
        SourceFormat::Jpeg
    };
    let input = match prepare_source(raw, format) {
        Ok(v) => v,
        Err(e) => {
            return Err(e);
        },
    };
    Ok(PrepareOutcome::Encode(EncodeJob { image: item.image, key, input, options }))
}

/// Validates a document against its blob and plans the run's work list:
/// every populated material slot classified in document order, then reduced
/// to the first work item per distinct image. Fails exactly when the
/// document graph does not hold together.
pub fn plan_document(doc: &Document, blob: &Vec<u8>) -> (r: Result<Vec<WorkItem>, SquishError>)
    ensures
        doc.wf(blob@.len() as int) ==> (r matches Ok(items) && items@ == dedup_spec(
            classify_spec(*doc),
        ) && forall|k: int|
            0 <= k < items@.len() ==> (#[trigger] items@[k]).image < doc.images@.len()),
        !doc.wf(blob@.len() as int) ==> (r matches Err(e) && e == SquishError::MalformedDocument),
{
    if !crate::document::validate_document(doc, blob) {
        return Err(SquishError::MalformedDocument);
    }
    let items = classify_document(doc);
    proof {
        crate::classify::lemma_classify_in_range(*doc, doc.materials@.len() as int);
        crate::classify::lemma_dedup_image_bound(classify_spec(*doc), doc.images@.len() as int);
    }
    Ok(plan_unique(&items))
}

/// A fresh index-to-bytes mapping with no image processed yet.
pub fn new_image_map(n_images: usize) -> (r: Vec<Option<Vec<u8>>>)
    ensures
        r@.len() == n_images,
        forall|i: int| 0 <= i < n_images ==> r@[i] is None,
{
    let mut r: Vec<Option<Vec<u8>>> = Vec::new();
    let mut k: usize = 0;
    while k < n_images
        invariant
            k <= n_images,
            r@.len() == k,
            forall|i: int| 0 <= i < k ==> r@[i] is None,
        decreases n_images - k,
    {
        r.push(None);
        k = k + 1;
    }
    r
}

/// Records one image's compressed bytes in the mapping, keyed by the
/// image's index so that repeated texture slots land on one entry.
pub fn set_image(map: &mut Vec<Option<Vec<u8>>>, image: usize, bytes: Vec<u8>)
    requires
        image < old(map)@.len(),
    ensures
        final(map)@.len() == old(map)@.len(),
        final(map)@[image as int] matches Some(b) && b@ == bytes@,
        forall|i: int| 0 <= i < old(map)@.len() && i != image ==> final(map)@[i] == old(map)@[i],
{
    map.set(image, Some(bytes));
}

/// Serves one job from the cache when caching is enabled and the
/// fingerprint was stored; otherwise the caller must run the encoder and
/// store the result.
pub fn consult_cache(cache: &Cache, use_cache: bool, key: u64) -> (r: Option<Vec<u8>>)
    ensures
        use_cache && cache@.contains_key(key) ==> (r matches Some(v) && v@ == cache@[key]),
        !(use_cache && cache@.contains_key(key)) ==> r is None,
{
    if use_cache {
        cache.lookup(key)
    } else {
        None
    }
}

/// Stores a freshly encoded result when caching is enabled.
pub fn store_result(cache: &mut Cache, use_cache: bool, key: u64, value: Vec<u8>)
    ensures
        use_cache ==> final(cache)@ == old(cache)@.insert(key, value@),
        !use_cache ==> final(cache)@ == old(cache)@,
{
    if use_cache {
        cache.store(key, value);
    }
}

} // verus!
