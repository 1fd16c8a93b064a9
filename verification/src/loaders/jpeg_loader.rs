use crate::component_type::ComponentType;
use crate::error::ImageError;
use crate::image::{buffer_len, Image, ImageView};
use crate::loaders::reduce::{lemma_reduce_after_swap, luma_bytes, rgb_bytes, to_luma8, to_rgb8};
use crate::pixel_format::PixelFormat;
use std::io::Cursor;
use vstd::prelude::*;

verus! {

/// Pixel format of a decoded JPEG frame.
#[derive(Debug, Clone, Copy, PartialEq, Eq, Hash, Structural)]
pub enum JpegPixelFormat {
    /// Luminance, 8 bits.
    L8,
    /// Luminance, 16 bits.
    L16,
    /// Red, green, blue, 8 bits each.
    RGB24,
    /// Cyan, magenta, yellow, black, 8 bits each.
    CMYK32,
}

/// What the JPEG decoder says of a decoded frame.
#[derive(Debug, Clone, Copy, PartialEq, Eq, Hash, Structural)]
pub struct JpegInfo {
    pub width: u16,
    pub height: u16,
    pub format: JpegPixelFormat,
}

/// Colour type that pixels are handed to the JPEG encoder as.
#[derive(Debug, Clone, Copy, PartialEq, Eq, Hash, Structural)]
pub enum JpegColor {
    /// One byte per pixel.
    Luma,
    /// Red, green, blue: three bytes per pixel.
    Rgb,
}

/// What the JPEG encoder returns for the given pixels: the bytes of the
/// file, or the text of its error.
pub uninterp spec fn jpeg_encoded(
    pixels: Seq<u8>,
    width: u16,
    height: u16,
    color: JpegColor,
    quality: u8,
) -> Result<Seq<u8>, Seq<char>>;

/// Decodes a JPEG file.
///
/// Trusted: the body calls `jpeg_decoder::Decoder::new` on the bytes,
/// `decode`, and then `info`, of which it copies width, height and pixel
/// format, variant for variant. The contract says what the decoder's
/// reading of a frame header shows of every frame: neither side is zero.
/// Nothing is claimed of the pixels: the decoder picks its arithmetic by
/// the machine it runs on.
#[verifier::external_body]
pub(crate) fn jpeg_decode(data: &[u8]) -> (res: Result<
    (Vec<u8>, Option<JpegInfo>),
    jpeg_decoder::Error,
>)
    ensures
        res matches Ok((_, Some(info))) ==> info.width >= 1 && info.height >= 1,
{
    let mut decoder = jpeg_decoder::Decoder::new(Cursor::new(data));
    let pixels = decoder.decode()?;
    let info = decoder.info().map(|info| JpegInfo {
        width: info.width,
        height: info.height,
        format: match info.pixel_format {
            jpeg_decoder::PixelFormat::L8 => JpegPixelFormat::L8,
            jpeg_decoder::PixelFormat::L16 => JpegPixelFormat::L16,
            jpeg_decoder::PixelFormat::RGB24 => JpegPixelFormat::RGB24,
            jpeg_decoder::PixelFormat::CMYK32 => JpegPixelFormat::CMYK32,
        },
    });
    Ok((pixels, info))
}

/// Encodes pixels as the bytes of a JPEG file.
///
/// Trusted: the body calls `jpeg_encoder::Encoder::new` on an empty vector
/// with the quality, and `encode` with the pixels, the size and the same
/// colour type; an error is turned into its debug text. The contract claims
/// that the outcome depends on the arguments alone, and gives it its name:
/// the encoder is built without its machine-specific paths.
#[verifier::external_body]
pub(crate) fn jpeg_encode(
    pixels: &[u8],
    width: u16,
    height: u16,
    color: JpegColor,
    quality: u8,
) -> (res: Result<Vec<u8>, String>)
    ensures
        match res {
            Ok(bytes) => jpeg_encoded(pixels@, width, height, color, quality) == Ok::<
                Seq<u8>,
                Seq<char>,
            >(bytes@),
            Err(text) => jpeg_encoded(pixels@, width, height, color, quality) == Err::<
                Seq<u8>,
                Seq<char>,
            >(text@),
        },
{
    let mut bytes = Vec::new();
    let color_type = match color {
        JpegColor::Luma => jpeg_encoder::ColorType::Luma,
        JpegColor::Rgb => jpeg_encoder::ColorType::Rgb,
    };
    jpeg_encoder::Encoder::new(&mut bytes, quality)
        .encode(pixels, width, height, color_type)
        .map_err(|error| format!("{:?}", error))?;
    Ok(bytes)
}

/// The pixel layout that a decoded frame is read as: luminance of either
/// width as R, colour as RGB; none for CMYK.
pub open spec fn layout_of_frame(format: JpegPixelFormat) -> Option<PixelFormat> {
    match format {
        JpegPixelFormat::L8 | JpegPixelFormat::L16 => Some(PixelFormat::R),
        JpegPixelFormat::RGB24 => Some(PixelFormat::RGB),
        JpegPixelFormat::CMYK32 => None,
    }
}

/// Whether `res` is what a decoded frame is turned into: an error where the
/// decoder gave no metadata, or gave CMYK; else the image of 8-bit samples
/// over the frame's bytes, or the error for the dimensions where their
/// number is not what the metadata asks for.
pub open spec fn is_frame_outcome(
    pixels: Seq<u8>,
    info: Option<JpegInfo>,
    res: Result<Image, ImageError>,
) -> bool {
    match info {
        None => res matches Err(ImageError::Other(m)) && m@ == "Failed to get JPEG metadata"@,
        Some(info) => match layout_of_frame(info.format) {
            None => res matches Err(ImageError::UnsupportedFormat(m)) && m@
                == "JPEG CMYK format not supported"@,
            Some(format) => if pixels.len() == buffer_len(
                info.width as nat,
                info.height as nat,
                format,
                ComponentType::U8,
            ) {
                res matches Ok(image) && image.wf() && image@ == (ImageView {
                    width: info.width as nat,
                    height: info.height as nat,
                    pixel_format: format,
                    component_type: ComponentType::U8,
                    data: pixels,
                })
            } else {
                res matches Err(ImageError::InvalidDimensions { width, height }) && width
                    == info.width && height == info.height
            },
        },
    }
}

/// Turns a decoded frame into the canonical image.
///
/// The samples are always taken as 8-bit: a frame of 16-bit luminance holds
/// two bytes per pixel and so fails the check of its length, unless it is
/// empty.
pub fn image_from_jpeg(pixels: Vec<u8>, info: Option<JpegInfo>) -> (res: Result<
    Image,
    ImageError,
>)
    ensures
        is_frame_outcome(pixels@, info, res),
{
    let info = match info {
        Some(info) => info,
        None => {
            return Err(ImageError::Other("Failed to get JPEG metadata".to_string()));
        },
    };
    let format = match info.format {
        JpegPixelFormat::L8 => PixelFormat::R,
        JpegPixelFormat::L16 => PixelFormat::R,
        JpegPixelFormat::RGB24 => PixelFormat::RGB,
        JpegPixelFormat::CMYK32 => {
            return Err(
                ImageError::UnsupportedFormat("JPEG CMYK format not supported".to_string()),
            );
        },
    };
    let width = info.width as u32;
    let height = info.height as u32;
    match Image::try_from_raw(pixels, width, height, format, ComponentType::U8) {
        Some(image) => Ok(image),
        None => Err(ImageError::InvalidDimensions { width, height }),
    }
}

/// Whether `res` is a possible outcome of loading a JPEG file: the
/// decoder's error, or what some decoded frame is turned into, a frame
/// whose sides are not zero.
pub open spec fn is_load_jpeg_outcome(res: Result<Image, ImageError>) -> bool {
    res matches Err(ImageError::JpegDecodeError(_)) || exists|
        pixels: Seq<u8>,
        info: Option<JpegInfo>,
    |
        (info matches Some(frame) ==> frame.width >= 1 && frame.height >= 1)
            && #[trigger] is_frame_outcome(pixels, info, res)
}

/// Loads a JPEG image from the bytes of a file.
///
/// Whatever the decoder returns is handed to [`image_from_jpeg`]; its error
/// is handed on.
pub fn load_jpeg(data: &[u8]) -> (res: Result<Image, ImageError>)
    ensures
        is_load_jpeg_outcome(res),
        res matches Ok(image) ==> image@.width >= 1 && image@.height >= 1 && image@.component_type
            == ComponentType::U8 && (image@.pixel_format == PixelFormat::R || image@.pixel_format
            == PixelFormat::RGB),
{
    match jpeg_decode(data) {
        Ok((pixels, info)) => {
            let ghost bytes = pixels@;
            let res = image_from_jpeg(pixels, info);
            assert(is_frame_outcome(bytes, info, res));
            res
        },
        Err(error) => Err(ImageError::JpegDecodeError(error)),
    }
}

/// Colour type that an image is handed to the encoder as: luminance
/// layouts as luma, colour layouts as red, green, blue.
pub open spec fn color_of_layout(format: PixelFormat) -> JpegColor {
    match format {
        PixelFormat::R | PixelFormat::RG => JpegColor::Luma,
        _ => JpegColor::Rgb,
    }
}

/// The pixels that an image of 8-bit samples is handed to the encoder as:
/// of a luminance layout the first channel, alpha dropped; of a colour
/// layout red, green and blue in this order, alpha dropped.
pub open spec fn jpeg_pixels(image: ImageView) -> Seq<u8> {
    match color_of_layout(image.pixel_format) {
        JpegColor::Luma => luma_bytes(image),
        JpegColor::Rgb => rgb_bytes(image),
    }
}

/// Whether `res` is what saving the image as JPEG at the given quality
/// gives. The sides are handed to the encoder as 16-bit numbers: of a
/// larger side, its low 16 bits.
pub open spec fn is_save_jpeg_outcome(
    image: ImageView,
    quality: u8,
    res: Result<Vec<u8>, ImageError>,
) -> bool {
    if image.component_type != ComponentType::U8 {
        res matches Err(ImageError::UnsupportedFormat(m)) && m@
            == "JPEG only supports U8 component type"@
    } else {
        match jpeg_encoded(
            jpeg_pixels(image),
            (image.width as u32) as u16,
            (image.height as u32) as u16,
            color_of_layout(image.pixel_format),
            quality,
        ) {
            Ok(bytes) => res matches Ok(written) && written@ == bytes,
            Err(text) => res matches Err(ImageError::JpegEncodeError(m)) && m@ == text,
        }
    }
}

/// Saves an image as the bytes of a JPEG file.
///
/// Only 8-bit samples can be written. R is written as luma and RGB as it
/// is; alpha is dropped (RG becomes luma, RGBA becomes RGB); blue-first
/// layouts are read from their other end.
pub fn save_jpeg(image: &Image, quality: u8) -> (res: Result<Vec<u8>, ImageError>)
    requires
        image.wf(),
    ensures
        is_save_jpeg_outcome(image@, quality, res),
{
    match image.component_type() {
        ComponentType::U8 => {},
        _ => {
            return Err(
                ImageError::UnsupportedFormat("JPEG only supports U8 component type".to_string()),
            );
        },
    }
    let (pixels, color) = match image.pixel_format() {
        PixelFormat::R | PixelFormat::RG => (to_luma8(image), JpegColor::Luma),
        _ => (to_rgb8(image), JpegColor::Rgb),
    };
    let width = #[verifier::truncate] (image.width() as u16);
    let height = #[verifier::truncate] (image.height() as u16);
    match jpeg_encode(pixels.as_slice(), width, height, color, quality) {
        Ok(bytes) => Ok(bytes),
        Err(text) => Err(ImageError::JpegEncodeError(text)),
    }
}

/// Saving a blue-first image as JPEG hands the encoder what saving its
/// red-first counterpart hands it, so the same bytes come out.
pub proof fn lemma_jpeg_ignores_channel_order(image: ImageView, quality: u8)
    requires
        image.wf(),
        image.component_type == ComponentType::U8,
        image.pixel_format.blue_first(),
    ensures
        jpeg_pixels(image.swap_blue_red()) == jpeg_pixels(image),
        color_of_layout(image.swap_blue_red().pixel_format) == color_of_layout(image.pixel_format),
        forall|res: Result<Vec<u8>, ImageError>|
            is_save_jpeg_outcome(image.swap_blue_red(), quality, res) == is_save_jpeg_outcome(
                image,
                quality,
                res,
            ),
{
    lemma_reduce_after_swap(image);
}

} // verus!
