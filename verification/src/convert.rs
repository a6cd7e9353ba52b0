//! Conversion of an encoded image to another format at given dimensions.
//!
//! The input is decoded, stretched or squashed to exactly the requested
//! box, and then either handed to the encoder of a raster format or
//! written out as a vector document with one square per visible pixel.

use vstd::prelude::*;
use vstd::string::StringExecFns;
use vstd::utf8::encode_utf8;
use crate::pixels::{PixelGrid, Raster};
use crate::raster::{
    decoded_image,
    encoded_image,
    float_sample_bits,
    image_error_text,
    image_float_bits,
    image_height,
    image_raster,
    image_width,
    is_nan_bits,
    load_image,
    resize_image,
    rgba_samples,
    save_image,
    Decoded,
    RasterTarget,
};
use crate::svg::{
    fully_transparent,
    lemma_document_declares_dimensions,
    lemma_single_pixel_document,
    lemma_transparent_document,
    rect_text,
    render_svg,
    svg_footer,
    svg_header,
    svg_text,
};

verus! {

/// The quality, on a scale from 1 to 100, of every JPEG that is written.
pub const JPEG_QUALITY: u8 = 90;

/// The formats that a conversion can write.
#[derive(Clone, Copy, Debug, PartialEq, Eq, Structural)]
pub enum OutputFormat {
    Png,
    Jpeg,
    Ico,
    Svg,
}

/// The format that a tag names. Tags are matched exactly, in lower case;
/// `jpeg` and `jpg` name the same format.
pub open spec fn format_of(tag: Seq<char>) -> Option<OutputFormat> {
    if tag == "svg"@ {
        Some(OutputFormat::Svg)
    } else if tag == "ico"@ {
        Some(OutputFormat::Ico)
    } else if tag == "png"@ {
        Some(OutputFormat::Png)
    } else if tag == "jpeg"@ || tag == "jpg"@ {
        Some(OutputFormat::Jpeg)
    } else {
        None
    }
}

/// The label of a format in messages.
pub open spec fn format_label(format: OutputFormat) -> Seq<char> {
    match format {
        OutputFormat::Png => "PNG"@,
        OutputFormat::Jpeg => "JPEG"@,
        OutputFormat::Ico => "ICO"@,
        OutputFormat::Svg => "SVG"@,
    }
}

/// How the encoder of a raster format is to be set up; `None` for the
/// vector format, which no encoder writes.
pub open spec fn target_of(format: OutputFormat) -> Option<RasterTarget> {
    match format {
        OutputFormat::Png => Some(RasterTarget::Png),
        OutputFormat::Jpeg => Some(RasterTarget::Jpeg { quality: 90 }),
        OutputFormat::Ico => Some(RasterTarget::Ico),
        OutputFormat::Svg => None,
    }
}

/// Why a conversion failed, as a mathematical value.
pub enum ConvertFailure {
    /// The input is no image that the decoder recognises.
    Decode(Seq<char>),
    /// The requested format tag names no supported format.
    UnsupportedFormat(Seq<char>),
    /// The image could not be written in the requested format.
    Encode { format: OutputFormat, detail: Seq<char> },
}

/// The message that a failure is reported with.
pub open spec fn failure_message(failure: ConvertFailure) -> Seq<char> {
    match failure {
        ConvertFailure::Decode(detail) => "无法加载图像: "@ + detail,
        ConvertFailure::UnsupportedFormat(tag) => "不支持的格式: "@ + tag,
        ConvertFailure::Encode { format, detail } => format_label(format) + "转换失败: "@ + detail,
    }
}

/// The detail of the failure for dimensions that cannot be resampled.
pub open spec fn size_detail() -> Seq<char> {
    "图像尺寸超出范围"@
}

/// The detail of the failure for a sample that is not a number.
pub open spec fn sample_detail() -> Seq<char> {
    "像素值不是数字"@
}

/// Why a conversion failed.
#[derive(Clone, Debug, PartialEq, Eq)]
pub enum ConvertError {
    /// The input is no image that the decoder recognises; with the
    /// decoder's message.
    Decode(String),
    /// The requested format tag names no supported format; with the tag.
    UnsupportedFormat(String),
    /// The image could not be written in the requested format; with the
    /// reason.
    Encode { format: OutputFormat, detail: String },
}

impl View for ConvertError {
    type V = ConvertFailure;

    open spec fn view(&self) -> ConvertFailure {
        match self {
            ConvertError::Decode(detail) => ConvertFailure::Decode(detail@),
            ConvertError::UnsupportedFormat(tag) => ConvertFailure::UnsupportedFormat(tag@),
            ConvertError::Encode { format, detail } => ConvertFailure::Encode {
                format: *format,
                detail: detail@,
            },
        }
    }
}

impl OutputFormat {
    /// The format that `tag` names, if any.
    pub fn parse(tag: &String) -> (format: Option<OutputFormat>)
        ensures
            format == format_of(tag@),
    {
        if *tag == String::from_str("svg") {
            Some(OutputFormat::Svg)
        } else if *tag == String::from_str("ico") {
            Some(OutputFormat::Ico)
        } else if *tag == String::from_str("png") {
            Some(OutputFormat::Png)
        } else if *tag == String::from_str("jpeg") || *tag == String::from_str("jpg") {
            Some(OutputFormat::Jpeg)
        } else {
            None
        }
    }

    /// The label of the format in messages.
    pub fn label(self) -> (text: &'static str)
        ensures
            text@ == format_label(self),
    {
        match self {
            OutputFormat::Png => "PNG",
            OutputFormat::Jpeg => "JPEG",
            OutputFormat::Ico => "ICO",
            OutputFormat::Svg => "SVG",
        }
    }

    /// The encoder set-up for the format: JPEG is always written at
    /// quality 90, the other raster formats with the encoder's defaults.
    pub fn target(self) -> (target: Option<RasterTarget>)
        ensures
            target == target_of(self),
            self == OutputFormat::Jpeg ==> target == Some(RasterTarget::Jpeg { quality: 90 }),
            target is None <==> self == OutputFormat::Svg,
    {
        match self {
            OutputFormat::Png => Some(RasterTarget::Png),
            OutputFormat::Jpeg => Some(RasterTarget::Jpeg { quality: JPEG_QUALITY }),
            OutputFormat::Ico => Some(RasterTarget::Ico),
            OutputFormat::Svg => None,
        }
    }
}

impl ConvertError {
    /// The message that the failure is reported with.
    pub fn message(&self) -> (text: String)
        ensures
            text@ == failure_message(self@),
    {
        match self {
            ConvertError::Decode(detail) => {
                let mut text = String::from_str("无法加载图像: ");
                text.append(detail.as_str());
                text
            },
            ConvertError::UnsupportedFormat(tag) => {
                let mut text = String::from_str("不支持的格式: ");
                text.append(tag.as_str());
                text
            },
            ConvertError::Encode { format, detail } => {
                let mut text = String::from_str(format.label());
                text.append("转换失败: ");
                text.append(detail.as_str());
                text
            },
        }
    }
}

/// Whether an image of the given dimensions can be resampled to
/// `width x height`: it has pixels, and neither the result nor the
/// intermediate image of `source_width x height` pixels, at 16 bytes per
/// pixel, is larger than a vector can be.
pub open spec fn can_resize(source_width: nat, source_height: nat, width: nat, height: nat) -> bool {
    &&& source_width > 0
    &&& source_height > 0
    &&& 16 * width * height <= isize::MAX
    &&& 16 * source_width * height <= isize::MAX
}

/// Decides `can_resize`.
pub fn check_resize(source_width: u32, source_height: u32, width: u32, height: u32) -> (ok: bool)
    ensures
        ok == can_resize(source_width as nat, source_height as nat, width as nat, height as nat),
{
    assert(16 * width * height == 16 * (width * height) && width * height <= 0xffff_ffff
        * 0xffff_ffff) by (nonlinear_arith)
        requires
            width <= 0xffff_ffff,
            height <= 0xffff_ffff,
    ;
    assert(16 * source_width * height == 16 * (source_width * height) && source_width * height
        <= 0xffff_ffff * 0xffff_ffff) by (nonlinear_arith)
        requires
            source_width <= 0xffff_ffff,
            height <= 0xffff_ffff,
    ;
    let limit: u128 = isize::MAX as u128;
    let target: u128 = 16 * ((width as u128) * (height as u128));
    let between: u128 = 16 * ((source_width as u128) * (height as u128));
    source_width > 0 && source_height > 0 && target <= limit && between <= limit
}

/// Whether one of the bit patterns stands for "not a number".
pub open spec fn holds_nan(bits: Seq<u32>) -> bool {
    exists|i: int| 0 <= i < bits.len() && is_nan_bits(#[trigger] bits[i])
}

/// Decides `holds_nan`.
pub fn contains_nan(bits: &Vec<u32>) -> (found: bool)
    ensures
        found == holds_nan(bits@),
{
    let mut i: usize = 0;
    while i < bits.len()
        invariant
            i <= bits@.len(),
            forall|j: int| 0 <= j < i ==> !is_nan_bits(#[trigger] bits@[j]),
        decreases bits@.len() - i,
    {
        let b: u32 = bits[i];
        if b & 0x7f80_0000 == 0x7f80_0000 && b & 0x007f_ffff != 0 {
            return true;
        }
        i = i + 1;
    }
    false
}

/// What a conversion returns once the encoder has answered: the encoded
/// bytes as they are, or the encoder's message as an encoding failure of
/// the requested format.
pub fn encoding_outcome(format: OutputFormat, outcome: Result<Vec<u8>, String>) -> (r: Result<
    Vec<u8>,
    ConvertError,
>)
    ensures
        match outcome {
            Ok(bytes) => r == Ok::<Vec<u8>, ConvertError>(bytes),
            Err(detail) => r matches Err(e) && e@ == (ConvertFailure::Encode {
                format,
                detail: detail@,
            }),
        },
{
    match outcome {
        Ok(bytes) => Ok(bytes),
        Err(detail) => Err(ConvertError::Encode { format, detail }),
    }
}

/// What writing an image to a raster target returns: the encoder's bytes
/// as they are, or an encoding failure of `format` with the encoder's
/// message where the encoder refuses the image.
pub open spec fn encoded_as(
    r: Result<Vec<u8>, ConvertError>,
    img: image::DynamicImage,
    format: OutputFormat,
    target: RasterTarget,
) -> bool {
    match encoded_image(img, target) {
        Ok(bytes) => r matches Ok(written) && written@ == bytes,
        Err(message) => r matches Err(e) && e@ == (ConvertFailure::Encode {
            format,
            detail: message,
        }),
    }
}

/// Writing one image to one target twice gives one result: the same
/// bytes, or the same failure.
pub proof fn lemma_encoding_is_repeatable(
    first: Result<Vec<u8>, ConvertError>,
    second: Result<Vec<u8>, ConvertError>,
    img: image::DynamicImage,
    format: OutputFormat,
    target: RasterTarget,
)
    requires
        encoded_as(first, img, format, target),
        encoded_as(second, img, format, target),
    ensures
        first is Ok <==> second is Ok,
        first is Ok ==> first->Ok_0@ == second->Ok_0@,
        first is Err ==> first->Err_0@ == second->Err_0@,
{
}

/// What writing an image as a vector document returns: the document of
/// the image's pixels, and a failure exactly where one of its samples is
/// not a number.
pub open spec fn drawn_as_svg(r: Result<Vec<u8>, ConvertError>, img: image::DynamicImage) -> bool {
    match r {
        Ok(bytes) => {
            &&& !holds_nan(image_float_bits(img))
            &&& image_raster(img).well_formed()
            &&& bytes@ == encode_utf8(svg_text(image_raster(img)))
        },
        Err(e) => {
            &&& holds_nan(image_float_bits(img))
            &&& e@ == (ConvertFailure::Encode {
                format: OutputFormat::Svg,
                detail: sample_detail(),
            })
        },
    }
}

/// What writing an image in a format returns: for a raster format what
/// its encoder returns, set up as `target_of` says, and for the vector
/// format the image's document.
pub open spec fn written_as(
    r: Result<Vec<u8>, ConvertError>,
    img: image::DynamicImage,
    format: OutputFormat,
) -> bool {
    match target_of(format) {
        Some(target) => encoded_as(r, img, format, target),
        None => drawn_as_svg(r, img),
    }
}

/// Writes `img` with the encoder of a raster format, set up as
/// `target_of` says: the encoder's bytes, or its refusal as an encoding
/// failure of `format`.
fn encode_raster(img: &image::DynamicImage, format: OutputFormat, target: RasterTarget) -> (r:
    Result<Vec<u8>, ConvertError>)
    requires
        target_of(format) == Some(target),
    ensures
        encoded_as(r, *img, format, target),
{
    let outcome = match save_image(img, target) {
        Ok(bytes) => Ok(bytes),
        Err(e) => Err(image_error_text(&e)),
    };
    encoding_outcome(format, outcome)
}

/// Writes `img` as PNG, with the encoder's defaults.
fn convert_to_png(img: &image::DynamicImage) -> (r: Result<Vec<u8>, ConvertError>)
    ensures
        encoded_as(r, *img, OutputFormat::Png, RasterTarget::Png),
{
    encode_raster(img, OutputFormat::Png, RasterTarget::Png)
}

/// Writes `img` as an icon.
fn convert_to_ico(img: &image::DynamicImage) -> (r: Result<Vec<u8>, ConvertError>)
    ensures
        encoded_as(r, *img, OutputFormat::Ico, RasterTarget::Ico),
{
    encode_raster(img, OutputFormat::Ico, RasterTarget::Ico)
}

/// Writes `img` as JPEG at quality 90.
fn convert_to_jpeg(img: &image::DynamicImage) -> (r: Result<Vec<u8>, ConvertError>)
    ensures
        encoded_as(r, *img, OutputFormat::Jpeg, RasterTarget::Jpeg { quality: 90 }),
{
    encode_raster(img, OutputFormat::Jpeg, RasterTarget::Jpeg { quality: JPEG_QUALITY })
}

/// Writes `img`, which has the given dimensions, as a vector document.
/// It fails exactly where a sample of the image is not a number.
fn convert_to_svg(img: &image::DynamicImage, width: u32, height: u32) -> (r: Result<
    Vec<u8>,
    ConvertError,
>)
    requires
        image_raster(*img).width == width,
        image_raster(*img).height == height,
        4 * width * height <= isize::MAX,
    ensures
        drawn_as_svg(r, *img),
{
    let bits = float_sample_bits(img);
    if contains_nan(&bits) {
        return Err(
            ConvertError::Encode {
                format: OutputFormat::Svg,
                detail: String::from_str("像素值不是数字"),
            },
        );
    }
    let grid = PixelGrid::from_samples(width, height, rgba_samples(img));
    Ok(render_svg(&grid))
}

/// Whether `resized` can be what resampling `source` to
/// `width x height` gives: an image of exactly those dimensions, which
/// holds the source's own pixels where the dimensions are the source's,
/// and integer samples where the source does.
pub open spec fn resampled(
    resized: image::DynamicImage,
    source: Decoded,
    width: nat,
    height: nat,
) -> bool {
    &&& image_raster(resized).width == width
    &&& image_raster(resized).height == height
    &&& source.raster.width == width && source.raster.height == height ==> image_raster(resized)
        == source.raster
    &&& !source.fractional ==> image_float_bits(resized).len() == 0
}

/// What `convert_image` returns for an input that decodes to `source`:
/// a tag that names no format is refused, and so are dimensions that
/// cannot be resampled; otherwise the result is what writing the
/// resampled image in the format returns.
pub open spec fn converted(
    r: Result<Vec<u8>, ConvertError>,
    source: Decoded,
    tag: Seq<char>,
    width: nat,
    height: nat,
) -> bool {
    match format_of(tag) {
        None => r matches Err(e) && e@ == ConvertFailure::UnsupportedFormat(tag),
        Some(format) => if !can_resize(source.raster.width, source.raster.height, width, height) {
            r matches Err(e) && e@ == (ConvertFailure::Encode { format, detail: size_detail() })
        } else {
            exists|resized: image::DynamicImage|
                resampled(resized, source, width, height) && #[trigger] written_as(
                    r,
                    resized,
                    format,
                )
        },
    }
}

/// A source of integer samples that can be resampled is always written
/// as a vector document: that conversion has no failure of its own.
pub proof fn lemma_integer_source_is_drawn(
    r: Result<Vec<u8>, ConvertError>,
    source: Decoded,
    tag: Seq<char>,
    width: nat,
    height: nat,
)
    requires
        format_of(tag) == Some(OutputFormat::Svg),
        !source.fractional,
        can_resize(source.raster.width, source.raster.height, width, height),
        converted(r, source, tag, width, height),
    ensures
        r is Ok,
{
}

/// Whatever the source, a vector document that a conversion returns is
/// the document of a pixel grid of exactly the requested dimensions, and
/// declares them in its opening tag.
pub proof fn lemma_document_declares_request(
    r: Result<Vec<u8>, ConvertError>,
    source: Decoded,
    tag: Seq<char>,
    width: nat,
    height: nat,
)
    requires
        format_of(tag) == Some(OutputFormat::Svg),
        converted(r, source, tag, width, height),
        r is Ok,
    ensures
        exists|raster: Raster|
            raster.well_formed() && raster.width == width && raster.height == height && r->Ok_0@
                == encode_utf8(#[trigger] svg_text(raster)) && svg_header(width, height).is_prefix_of(
                svg_text(raster),
            ) && svg_footer().is_suffix_of(svg_text(raster)),
{
    let resized = choose|resized: image::DynamicImage|
        resampled(resized, source, width, height) && #[trigger] written_as(
            r,
            resized,
            OutputFormat::Svg,
        );
    let raster = image_raster(resized);
    lemma_document_declares_dimensions(raster);
    assert(svg_header(width, height).is_prefix_of(svg_text(raster)));
}

/// A source of integer samples without a visible pixel, converted to the
/// vector format at its own dimensions, gives a document that declares
/// those dimensions and holds no square.
pub proof fn lemma_transparent_source(
    r: Result<Vec<u8>, ConvertError>,
    source: Decoded,
    tag: Seq<char>,
)
    requires
        format_of(tag) == Some(OutputFormat::Svg),
        !source.fractional,
        fully_transparent(source.raster),
        can_resize(
            source.raster.width,
            source.raster.height,
            source.raster.width,
            source.raster.height,
        ),
        converted(r, source, tag, source.raster.width, source.raster.height),
    ensures
        r matches Ok(bytes) && bytes@ == encode_utf8(
            svg_header(source.raster.width, source.raster.height) + svg_footer(),
        ),
{
    lemma_transparent_document(source.raster);
}

/// A source of one pixel of integer samples that is not fully transparent,
/// converted to the vector format at one by one, gives a document with
/// exactly one square, at the origin and in the pixel's colour.
pub proof fn lemma_single_pixel_source(
    r: Result<Vec<u8>, ConvertError>,
    source: Decoded,
    tag: Seq<char>,
)
    requires
        format_of(tag) == Some(OutputFormat::Svg),
        !source.fractional,
        source.raster.width == 1,
        source.raster.height == 1,
        source.raster.alpha(0, 0) != 0,
        converted(r, source, tag, 1, 1),
    ensures
        r matches Ok(bytes) && bytes@ == encode_utf8(
            svg_header(1, 1) + rect_text(
                0,
                0,
                source.raster.red(0, 0),
                source.raster.green(0, 0),
                source.raster.blue(0, 0),
                source.raster.alpha(0, 0),
            ) + svg_footer(),
        ),
{
    lemma_single_pixel_document(source.raster);
}

/// The two tags of JPEG give one result, and that result is what the
/// encoder writes at quality 90 for the resampled image.
pub proof fn lemma_jpeg_is_written_at_quality_90(
    r: Result<Vec<u8>, ConvertError>,
    source: Decoded,
    tag: Seq<char>,
    width: nat,
    height: nat,
)
    requires
        tag == "jpeg"@ || tag == "jpg"@,
        format_of(tag) == Some(OutputFormat::Jpeg),
        can_resize(source.raster.width, source.raster.height, width, height),
        converted(r, source, tag, width, height),
    ensures
        converted(r, source, "jpeg"@, width, height) <==> converted(r, source, "jpg"@, width, height),
        exists|resized: image::DynamicImage|
            resampled(resized, source, width, height) && #[trigger] encoded_as(
                r,
                resized,
                OutputFormat::Jpeg,
                RasterTarget::Jpeg { quality: 90 },
            ),
{
    let resized = choose|resized: image::DynamicImage|
        resampled(resized, source, width, height) && #[trigger] written_as(
            r,
            resized,
            OutputFormat::Jpeg,
        );
    assert(encoded_as(r, resized, OutputFormat::Jpeg, RasterTarget::Jpeg { quality: 90 }));
    reveal_strlit("svg");
    reveal_strlit("ico");
    reveal_strlit("png");
    reveal_strlit("jpeg");
    reveal_strlit("jpg");
    assert("svg"@.len() == 3 && "ico"@.len() == 3 && "png"@.len() == 3 && "jpeg"@.len() == 4
        && "jpg"@.len() == 3);
    assert("jpg"@[0] == 'j' && "svg"@[0] == 's' && "ico"@[0] == 'i' && "png"@[0] == 'p');
    assert(format_of("jpeg"@) == Some(OutputFormat::Jpeg));
    assert(format_of("jpg"@) == Some(OutputFormat::Jpeg));
}

/// Converts the encoded image `image_data` to `format` at exactly
/// `width x height` pixels.
///
/// The input is decoded first: bytes that are no image fail with
/// `Decode` and the decoder's message, whatever the format tag. Next the
/// tag is read: one that names no format fails with `UnsupportedFormat`
/// and the tag. Then the image is resampled to the requested box without
/// regard to its proportions, and for `svg` written as a document of one
/// square per visible pixel, for the raster formats handed to the
/// encoder, whose bytes are returned as they are and whose refusal comes
/// back as `Encode` with its message.
pub fn convert_image(image_data: Vec<u8>, format: String, width: u32, height: u32) -> (r: Result<
    Vec<u8>,
    ConvertError,
>)
    ensures
        match decoded_image(image_data@) {
            Err(message) => r matches Err(e) && e@ == ConvertFailure::Decode(message),
            Ok(source) => converted(r, source, format@, width as nat, height as nat),
        },
{
    let img = match load_image(image_data.as_slice()) {
        Ok(img) => img,
        Err(e) => {
            return Err(ConvertError::Decode(image_error_text(&e)));
        },
    };
    let ghost source = decoded_image(image_data@)->Ok_0;
    let kind = match OutputFormat::parse(&format) {
        Some(kind) => kind,
        None => {
            return Err(ConvertError::UnsupportedFormat(format));
        },
    };
    if !check_resize(image_width(&img), image_height(&img), width, height) {
        return Err(
            ConvertError::Encode { format: kind, detail: String::from_str("图像尺寸超出范围") },
        );
    }
    let resized = resize_image(&img, width, height);
    let r = match kind {
        OutputFormat::Svg => {
            assert(4 * width * height <= 16 * width * height) by (nonlinear_arith);
            convert_to_svg(&resized, width, height)
        },
        OutputFormat::Ico => convert_to_ico(&resized),
        OutputFormat::Png => convert_to_png(&resized),
        OutputFormat::Jpeg => convert_to_jpeg(&resized),
    };
    assert(resampled(resized, source, width as nat, height as nat) && written_as(r, resized, kind));
    r
}

} // verus!
