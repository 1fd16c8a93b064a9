use crate::component_type::ComponentType;
use crate::error::ImageError;
use crate::image::{Image, ImageView};
use crate::image_format::{detected_format, ImageFormat};
use crate::loaders::bmp_loader::{is_load_bmp_outcome, is_save_bmp_outcome, load_bmp, save_bmp};
use crate::loaders::exr_loader::{is_load_exr_outcome, is_save_exr_outcome, load_exr, save_exr};
use crate::loaders::jpeg_loader::{
    is_load_jpeg_outcome, is_save_jpeg_outcome, load_jpeg, save_jpeg,
};
use crate::loaders::png_loader::{is_load_png_outcome, is_save_png_outcome, load_png, save_png};
use vstd::prelude::*;

verus! {

/// The quality that lossy formats are written with where none is asked for.
pub const DEFAULT_JPEG_QUALITY: u8 = 90;

/// A quality brought into the range from 1 to 100.
pub open spec fn clamped_quality(quality: u8) -> u8 {
    if quality < 1 {
        1
    } else if quality > 100 {
        100
    } else {
        quality
    }
}

/// Whether `res` is what loading `data` as the given format gives: what the
/// format's adapter gives, and for the unknown format an error.
pub open spec fn is_load_outcome(
    data: Seq<u8>,
    format: ImageFormat,
    res: Result<Image, ImageError>,
) -> bool {
    match format {
        ImageFormat::Png => is_load_png_outcome(data, res),
        ImageFormat::Bmp => is_load_bmp_outcome(data, res),
        ImageFormat::Jpeg => is_load_jpeg_outcome(res),
        ImageFormat::Exr => is_load_exr_outcome(res),
        ImageFormat::Unknown => res matches Err(ImageError::UnsupportedFormat(m)) && m@
            == "Unknown format"@,
    }
}

/// Whether `res` is what saving the image as the given format gives: what
/// the format's adapter gives, JPEG at the quality brought into range, and
/// for the unknown format an error.
pub open spec fn is_save_outcome(
    image: ImageView,
    format: ImageFormat,
    quality: u8,
    res: Result<Vec<u8>, ImageError>,
) -> bool {
    match format {
        ImageFormat::Png => is_save_png_outcome(image, res),
        ImageFormat::Bmp => is_save_bmp_outcome(image, res),
        ImageFormat::Jpeg => is_save_jpeg_outcome(image, clamped_quality(quality), res),
        ImageFormat::Exr => is_save_exr_outcome(image, res),
        ImageFormat::Unknown => res matches Err(ImageError::UnsupportedFormat(m)) && m@
            == "Unknown format"@,
    }
}

/// The entry points for loading and saving images. It holds no state.
pub struct GalaxyImage;

impl GalaxyImage {
    /// Loads an image from the bytes of a file of the given format.
    pub fn load_from_bytes(bytes: &[u8], format: ImageFormat) -> (res: Result<Image, ImageError>)
        ensures
            is_load_outcome(bytes@, format, res),
    {
        match format {
            ImageFormat::Png => load_png(bytes),
            ImageFormat::Bmp => load_bmp(bytes),
            ImageFormat::Jpeg => load_jpeg(bytes),
            ImageFormat::Exr => load_exr(bytes),
            ImageFormat::Unknown => Err(
                ImageError::UnsupportedFormat("Unknown format".to_string()),
            ),
        }
    }

    /// Loads an image from the bytes of a file, whose format is detected
    /// from its leading bytes.
    pub fn load_from_bytes_auto(bytes: &[u8]) -> (res: Result<Image, ImageError>)
        ensures
            is_load_outcome(bytes@, detected_format(bytes@), res),
    {
        let format = ImageFormat::detect_from_bytes(bytes);
        GalaxyImage::load_from_bytes(bytes, format)
    }

    /// Saves an image as the bytes of a file of the given format.
    ///
    /// The quality counts for JPEG alone; one outside 1 to 100 is brought
    /// into that range.
    pub fn save_to_bytes(image: &Image, format: ImageFormat, jpeg_quality: u8) -> (res: Result<
        Vec<u8>,
        ImageError,
    >)
        requires
            image.wf(),
        ensures
            is_save_outcome(image@, format, jpeg_quality, res),
    {
        match format {
            ImageFormat::Png => save_png(image),
            ImageFormat::Bmp => save_bmp(image),
            ImageFormat::Jpeg => {
                let quality = if jpeg_quality < 1 {
                    1
                } else if jpeg_quality > 100 {
                    100
                } else {
                    jpeg_quality
                };
                save_jpeg(image, quality)
            },
            ImageFormat::Exr => save_exr(image),
            ImageFormat::Unknown => Err(
                ImageError::UnsupportedFormat("Unknown format".to_string()),
            ),
        }
    }
}

/// Whether files of a format can hold samples of a kind: PNG holds 8-bit
/// and 16-bit integers, BMP and JPEG hold 8-bit integers, OpenEXR holds
/// half and single floats.
pub open spec fn holds_component(format: ImageFormat, component: ComponentType) -> bool {
    match format {
        ImageFormat::Png => component == ComponentType::U8 || component == ComponentType::U16,
        ImageFormat::Bmp | ImageFormat::Jpeg => component == ComponentType::U8,
        ImageFormat::Exr => component == ComponentType::F16 || component == ComponentType::F32,
        ImageFormat::Unknown => false,
    }
}

/// Saving reports an unsupported format exactly where the format cannot
/// hold the image's samples: such an image is never written in another
/// form, and an image that the format can hold never fails for this reason.
pub proof fn lemma_unsupported_is_reported(
    image: ImageView,
    format: ImageFormat,
    quality: u8,
    res: Result<Vec<u8>, ImageError>,
)
    requires
        is_save_outcome(image, format, quality, res),
    ensures
        (res matches Err(ImageError::UnsupportedFormat(_))) <==> !holds_component(
            format,
            image.component_type,
        ),
{
}

/// The quality that reaches the JPEG encoder lies between 1 and 100, and a
/// quality in that range reaches it unchanged.
pub proof fn lemma_quality_clamped(quality: u8)
    ensures
        1 <= clamped_quality(quality) <= 100,
        1 <= quality <= 100 ==> clamped_quality(quality) == quality,
{
}

} // verus!
