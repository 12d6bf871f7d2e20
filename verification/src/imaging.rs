//! Preparing raw image bytes for the external encoder: probing dimensions,
//! and decoding, resizing and losslessly re-encoding sources that exceed the
//! size limit. The image crate does the pixel work behind trusted wrappers;
//! the resize decision itself is verified.

use crate::SquishError;
use vstd::prelude::*;

verus! {

/// Largest accepted height of an encoder input; taller sources are resized
/// to fit within a square of this size.
pub const MAX_SIZE: u32 = 4096;

/// The supported source encodings of an embedded image.
#[derive(Clone, Copy, PartialEq, Eq, Structural, Debug)]
pub enum SourceFormat {
    Png,
    Jpeg,
}

impl SourceFormat {
    /// Whether this is the PNG encoding.
    pub open spec fn is_png_spec(&self) -> bool {
        *self == SourceFormat::Png
    }
}

/// The (width, height) the image crate reads from an image header: present
/// exactly when the bytes decode under the given format, and a function of
/// the bytes and the format alone.
pub uninterp spec fn image_dims(bytes: Seq<u8>, png: bool) -> Option<(u32, u32)>;

/// Relies on image::ImageReader::into_dimensions: reads (width, height)
/// from the image header under a forced format; success and the value
/// depend on the bytes and the format alone.
#[verifier::external_body]
fn probe_dimensions(bytes: &Vec<u8>, png: bool) -> (r: Option<(u32, u32)>)
    ensures
        r == image_dims(bytes@, png),
{
    let format = if png {
        image::ImageFormat::Png
    } else {
        image::ImageFormat::Jpeg
    };
    let mut reader = image::ImageReader::new(std::io::Cursor::new(bytes.as_slice()));
    reader.set_format(format);
    reader.into_dimensions().ok()
}

/// The source fully decoded, resized to the largest size that fits within
/// `max` by `max` preserving aspect ratio, and re-encoded losslessly as
/// PNG: present exactly when decoding and re-encoding succeed, and a
/// function of the bytes, the format and the bound alone.
pub uninterp spec fn resized_png(bytes: Seq<u8>, png: bool, max: u32) -> Option<Seq<u8>>;

/// Relies on image::ImageReader::decode, image::DynamicImage::resize with
/// the Lanczos3 filter, and image::codecs::png::PngEncoder::write_image:
/// all three depend on the bytes, the format and the bound alone.
#[verifier::external_body]
fn resize_and_reencode(bytes: &Vec<u8>, png: bool, max: u32) -> (r: Option<Vec<u8>>)
    ensures
        match resized_png(bytes@, png, max) {
            Some(s) => r matches Some(v) && v@ == s,
            None => r is None,
        },
{
    let format = if png {
        image::ImageFormat::Png
    } else {
        image::ImageFormat::Jpeg
    };
    let mut reader = image::ImageReader::new(std::io::Cursor::new(bytes.as_slice()));
    reader.set_format(format);
    let img = reader.decode().ok()?;
    let img = img.resize(max, max, image::imageops::FilterType::Lanczos3);
    let mut out = Vec::new();
    let encoder = image::codecs::png::PngEncoder::new(std::io::Cursor::new(&mut out));
    image::ImageEncoder::write_image(encoder, img.as_bytes(), img.width(), img.height(), img.color().into()).ok()?;
    Some(out)
}

/// What preparing a source yields: the bytes themselves when the height is
/// within the limit, the resized lossless re-encode when it is not, and
/// nothing when the source cannot be read.
pub open spec fn prepared_source(bytes: Seq<u8>, png: bool) -> Option<Seq<u8>> {
    match image_dims(bytes, png) {
        None => None,
        Some(dims) => if dims.1 > MAX_SIZE {
            resized_png(bytes, png, MAX_SIZE)
        } else {
            Some(bytes)
        },
    }
}

/// Prepares raw source bytes for the external encoder: reads the
/// dimensions, and when the height exceeds the limit, fully decodes,
/// resizes to fit within the limit preserving aspect ratio, and re-encodes
/// losslessly as PNG; otherwise hands the bytes on untouched. Fails exactly
/// when the source cannot be decoded or the resized image cannot be
/// re-encoded.
pub fn prepare_source(bytes: Vec<u8>, format: SourceFormat) -> (r: Result<Vec<u8>, SquishError>)
    ensures
        match prepared_source(bytes@, format.is_png_spec()) {
            Some(s) => r matches Ok(v) && v@ == s,
            None => r is Err,
        },
        image_dims(bytes@, format.is_png_spec()) is None ==> (r matches Err(e) && e
            == SquishError::ImageDecode),
        (image_dims(bytes@, format.is_png_spec()) matches Some(dims) && dims.1 > MAX_SIZE
            && resized_png(bytes@, format.is_png_spec(), MAX_SIZE) is None) ==> (r matches Err(e)
            && e == SquishError::ImageEncode),
{
    let png = matches!(format, SourceFormat::Png);
    let dims = match probe_dimensions(&bytes, png) {
        Some(d) => d,
        None => {
            return Err(SquishError::ImageDecode);
        },
    };
    let (_width, height) = dims;
    if height > MAX_SIZE {
        match resize_and_reencode(&bytes, png, MAX_SIZE) {
            Some(resized) => Ok(resized),
            None => Err(SquishError::ImageEncode),
        }
    } else {
        Ok(bytes)
    }
}

} // verus!
