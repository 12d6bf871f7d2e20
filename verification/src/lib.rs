//! Rewrites binary glTF (GLB) containers so that their embedded raster
//! images are replaced by re-encoded, GPU-ready compressed images.
//!
//! The library covers the container rewrite and image re-encoding pipeline:
//! parsing the GLB chunk framing, classifying each texture by its role in
//! the material model, fingerprinting source bytes for the content-addressed
//! cache, deriving encoder options, and reassembling a correctly-offset,
//! correctly-padded container around the new image bytes.

pub mod cache;
pub mod classify;
pub mod document;
pub mod glb;
pub mod imaging;
pub mod pipeline;
pub mod rewrite;
pub mod texture;

use vstd::prelude::*;

verus! {

/// A fatal fault of a run: malformed input, an unsupported image, or a
/// failed image transform. Every error aborts the whole run; there is no
/// partial output.
#[derive(Debug)]
pub enum SquishError {
    /// The requested texture format is not a known one.
    UnknownTextureFormat,
    /// An embedded image carries a MIME type outside the supported input
    /// encodings.
    UnsupportedMime { mime: String },
    /// The document graph or a buffer view does not hold together.
    MalformedDocument,
    /// The image bytes could not be decoded far enough to read dimensions,
    /// or not at all.
    ImageDecode,
    /// The resized image could not be re-encoded to the lossless
    /// intermediate format.
    ImageEncode,
}

impl SquishError {
    /// A human-readable description of the fault.
    pub fn message(&self) -> (r: String)
        ensures
            self matches SquishError::UnsupportedMime { mime } ==> r@ =~= (
            "unsupported image MIME type: "@ + mime@),
    {
        match self {
            SquishError::UnknownTextureFormat => String::from_str(
                "unknown texture format, expected 'rgba8' or 'astc'",
            ),
            SquishError::UnsupportedMime { mime } => String::from_str(
                "unsupported image MIME type: ",
            ).concat(mime.as_str()),
            SquishError::MalformedDocument => String::from_str(
                "document graph is not internally consistent",
            ),
            SquishError::ImageDecode => String::from_str("failed to decode image"),
            SquishError::ImageEncode => String::from_str("failed to re-encode resized image"),
        }
    }
}

} // verus!
