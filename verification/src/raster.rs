//! The image codec library, as far as the conversion relies on it.
//!
//! Nothing in this file is proved. Each declaration states what the
//! conversion takes for granted of the `image` crate; the decoder, the
//! resampling filter and the encoders themselves are not modelled.

use vstd::prelude::*;
use crate::pixels::Raster;

verus! {

/// A decoded image of any of the pixel layouts that the codec library
/// knows. Opaque here: the declarations below are all that is known of it.
#[verifier::external_type_specification]
#[verifier::external_body]
pub struct ExDynamicImage(image::DynamicImage);

/// What the codec library reports when it cannot decode or encode.
#[verifier::external_type_specification]
#[verifier::external_body]
pub struct ExImageError(image::ImageError);

/// The image as a grid of RGBA pixels of 8 bits per channel: its
/// dimensions, and the samples that `DynamicImage::to_rgba8` computes.
pub uninterp spec fn image_raster(img: image::DynamicImage) -> Raster;

/// The bit patterns of the image's samples where it stores them as binary
/// fractions of 32 bits, in storage order; empty for the integer layouts.
pub uninterp spec fn image_float_bits(img: image::DynamicImage) -> Seq<u32>;

/// What is known of a decoded image: its pixels as RGBA samples of 8
/// bits, and whether it stores its samples as binary fractions.
pub struct Decoded {
    pub raster: Raster,
    pub fractional: bool,
}

/// The text that the codec library describes an error with (its
/// `Display`).
pub uninterp spec fn image_error_message(e: image::ImageError) -> Seq<char>;

/// The image that `image::load_from_memory` decodes from `bytes`, or the
/// message of the error that it reports.
pub uninterp spec fn decoded_image(bytes: Seq<u8>) -> Result<Decoded, Seq<char>>;

/// What `DynamicImage::write_to` writes for an image and a target: the
/// bytes of the container, or the message of the error that the encoder
/// reports. The encoders read the image and the target and nothing else.
pub uninterp spec fn encoded_image(img: image::DynamicImage, target: RasterTarget) -> Result<
    Seq<u8>,
    Seq<char>,
>;

/// A raster target of the encoders.
#[derive(Clone, Copy, Debug, PartialEq, Eq, Structural)]
pub enum RasterTarget {
    Png,
    Jpeg { quality: u8 },
    Ico,
}

/// Whether a pattern of 32 bits stands for "not a number": all exponent
/// bits set and a fraction other than zero.
pub open spec fn is_nan_bits(bits: u32) -> bool {
    bits & 0x7f80_0000 == 0x7f80_0000 && bits & 0x007f_ffff != 0
}

/// `image::load_from_memory`: guesses the container format from the first
/// bytes and decodes the image. Whether it succeeds, and the image that it
/// returns, depend on the bytes alone.
#[verifier::external_body]
pub(crate) fn load_image(bytes: &[u8]) -> (r: Result<image::DynamicImage, image::ImageError>)
    ensures
        match r {
            Ok(img) => decoded_image(bytes@) == Ok::<Decoded, Seq<char>>(
                Decoded {
                    raster: image_raster(img),
                    fractional: image_float_bits(img).len() > 0,
                },
            ),
            Err(e) => decoded_image(bytes@) == Err::<Decoded, Seq<char>>(image_error_message(e)),
        },
{
    image::load_from_memory(bytes)
}

/// `DynamicImage::width`: the number of columns.
#[verifier::external_body]
pub(crate) fn image_width(img: &image::DynamicImage) -> (w: u32)
    ensures
        w == image_raster(*img).width,
{
    img.width()
}

/// `DynamicImage::height`: the number of rows.
#[verifier::external_body]
pub(crate) fn image_height(img: &image::DynamicImage) -> (h: u32)
    ensures
        h == image_raster(*img).height,
{
    img.height()
}

/// `DynamicImage::resize_exact` with the Lanczos filter of window 3: a new
/// image of exactly the requested dimensions and of the source's pixel
/// layout, whatever the proportions of the source. Where the requested
/// dimensions are the source's, the result is a copy and nothing is
/// resampled. The call reads source pixels for every target pixel, and
/// allocates one buffer of `width x height` pixels and one of
/// `source width x height` pixels of up to 16 bytes each; the
/// preconditions keep the source non-empty and both buffers within what a
/// vector can hold.
#[verifier::external_body]
pub(crate) fn resize_image(img: &image::DynamicImage, width: u32, height: u32) -> (out:
    image::DynamicImage)
    requires
        image_raster(*img).width > 0,
        image_raster(*img).height > 0,
        16 * width * height <= isize::MAX,
        16 * image_raster(*img).width * height <= isize::MAX,
    ensures
        image_raster(out).width == width,
        image_raster(out).height == height,
        image_raster(*img).width == width && image_raster(*img).height == height ==> image_raster(
            out,
        ) == image_raster(*img),
        image_float_bits(*img).len() == 0 ==> image_float_bits(out).len() == 0,
{
    img.resize_exact(width, height, image::imageops::FilterType::Lanczos3)
}

/// The samples of an image that stores binary fractions, as bit patterns
/// (`DynamicImage::as_flat_samples_f32`, each sample through `to_bits`).
#[verifier::external_body]
pub(crate) fn float_sample_bits(img: &image::DynamicImage) -> (bits: Vec<u32>)
    ensures
        bits@ == image_float_bits(*img),
{
    match img.as_flat_samples_f32() {
        Some(flat) => flat.samples.iter().map(|s| s.to_bits()).collect(),
        None => Vec::new(),
    }
}

/// `DynamicImage::to_rgba8`, then `ImageBuffer::into_raw`: the image as
/// RGBA samples of 8 bits, four for each pixel, row by row from the top.
/// The conversion scales binary fractions to 0..=255 and fails on one that
/// is not a number, and it allocates four bytes per pixel; the
/// preconditions leave both out.
#[verifier::external_body]
pub(crate) fn rgba_samples(img: &image::DynamicImage) -> (samples: Vec<u8>)
    requires
        4 * image_raster(*img).width * image_raster(*img).height <= isize::MAX,
        forall|i: int|
            0 <= i < image_float_bits(*img).len() ==> !is_nan_bits(
                #[trigger] image_float_bits(*img)[i],
            ),
    ensures
        samples@ == image_raster(*img).samples,
        samples@.len() == 4 * image_raster(*img).width * image_raster(*img).height,
{
    img.to_rgba8().into_raw()
}

/// `DynamicImage::write_to` into a buffer in memory: the image in the
/// target's container format, or the encoder's error. Which of the two,
/// and which bytes, depends on the image and the target alone; the
/// encoders themselves are not modelled.
#[verifier::external_body]
pub(crate) fn save_image(img: &image::DynamicImage, target: RasterTarget) -> (r: Result<
    Vec<u8>,
    image::ImageError,
>)
    ensures
        match r {
            Ok(bytes) => encoded_image(*img, target) == Ok::<Seq<u8>, Seq<char>>(bytes@),
            Err(e) => encoded_image(*img, target) == Err::<Seq<u8>, Seq<char>>(
                image_error_message(e),
            ),
        },
{
    let format = match target {
        RasterTarget::Png => image::ImageOutputFormat::Png,
        RasterTarget::Jpeg { quality } => image::ImageOutputFormat::Jpeg(quality),
        RasterTarget::Ico => image::ImageOutputFormat::Ico,
    };
    let mut buffer: Vec<u8> = Vec::new();
    match img.write_to(&mut std::io::Cursor::new(&mut buffer), format) {
        Ok(()) => Ok(buffer),
        Err(e) => Err(e),
    }
}

/// The codec library's own description of an error (its `Display`).
#[verifier::external_body]
pub(crate) fn image_error_text(e: &image::ImageError) -> (text: String)
    ensures
        text@ == image_error_message(*e),
{
    e.to_string()
}

} // verus!
