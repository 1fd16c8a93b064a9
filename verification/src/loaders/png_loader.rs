use crate::component_type::ComponentType;
use crate::error::ImageError;
use crate::image::{buffer_len, required_len, Image, ImageView};
use crate::pixel_format::PixelFormat;
use std::io::Cursor;
use vstd::prelude::*;

verus! {

/// Colour type of a PNG file.
#[derive(Debug, Clone, Copy, PartialEq, Eq, Hash, Structural)]
pub enum PngColor {
    Grayscale,
    GrayscaleAlpha,
    Rgb,
    Rgba,
    Indexed,
}

/// Bits per sample of a PNG file.
#[derive(Debug, Clone, Copy, PartialEq, Eq, Hash, Structural)]
pub enum PngDepth {
    One,
    Two,
    Four,
    Eight,
    Sixteen,
}

/// What the header of a PNG file says of its image.
#[derive(Debug, Clone, Copy, PartialEq, Eq, Hash, Structural)]
pub struct PngHeader {
    pub width: u32,
    pub height: u32,
    pub color: PngColor,
    pub depth: PngDepth,
}

/// The header that the PNG decoder reads from `data`, or `None` where it
/// reports an error.
pub uninterp spec fn png_header(data: Seq<u8>) -> Option<PngHeader>;

/// The first frame that the PNG decoder reads from `data`, as the bytes of
/// its rows from the top, or `None` where it reports an error.
pub uninterp spec fn png_frame(data: Seq<u8>) -> Option<Seq<u8>>;

/// The bytes of the PNG file that the encoder writes for the given rows,
/// or `None` where it reports an error.
pub uninterp spec fn png_encoded(
    rows: Seq<u8>,
    width: u32,
    height: u32,
    color: PngColor,
    depth: PngDepth,
) -> Option<Seq<u8>>;

/// The pixel layout that a PNG colour type is read as; none for a palette.
pub open spec fn layout_of_color(color: PngColor) -> Option<PixelFormat> {
    match color {
        PngColor::Grayscale => Some(PixelFormat::R),
        PngColor::GrayscaleAlpha => Some(PixelFormat::RG),
        PngColor::Rgb => Some(PixelFormat::RGB),
        PngColor::Rgba => Some(PixelFormat::RGBA),
        PngColor::Indexed => None,
    }
}

/// The sample kind that a PNG bit depth is read as; none below eight bits.
pub open spec fn kind_of_depth(depth: PngDepth) -> Option<ComponentType> {
    match depth {
        PngDepth::Eight => Some(ComponentType::U8),
        PngDepth::Sixteen => Some(ComponentType::U16),
        _ => None,
    }
}

/// The text of the error for a bit depth below eight.
pub open spec fn depth_text(depth: PngDepth) -> Seq<char> {
    match depth {
        PngDepth::One => "PNG bit depth One not supported"@,
        PngDepth::Two => "PNG bit depth Two not supported"@,
        _ => "PNG bit depth Four not supported"@,
    }
}

/// Whether `res` is what a PNG header is read as: the layout and sample
/// kind of the image, or the error for a palette or, after that, for a bit
/// depth below eight.
pub open spec fn is_layout_outcome(
    header: PngHeader,
    res: Result<(PixelFormat, ComponentType), ImageError>,
) -> bool {
    match (layout_of_color(header.color), kind_of_depth(header.depth)) {
        (None, _) => res matches Err(ImageError::UnsupportedFormat(m)) && m@
            == "PNG indexed color not supported"@,
        (Some(_), None) => res matches Err(ImageError::UnsupportedFormat(m)) && m@ == depth_text(
            header.depth,
        ),
        (Some(format), Some(component)) => res matches Ok(pair) && pair == (format, component),
    }
}

/// Whether `res` is what a header and a frame are turned into: the image
/// over the frame's bytes where the header is supported and the frame has
/// the length that the header asks for; else the error for the header, or
/// for the dimensions where the length differs.
pub open spec fn is_frame_outcome(
    header: PngHeader,
    frame: Seq<u8>,
    res: Result<Image, ImageError>,
) -> bool {
    match (layout_of_color(header.color), kind_of_depth(header.depth)) {
        (Some(format), Some(component)) => if frame.len() == buffer_len(
            header.width as nat,
            header.height as nat,
            format,
            component,
        ) {
            res matches Ok(image) && image.wf() && image@ == (ImageView {
                width: header.width as nat,
                height: header.height as nat,
                pixel_format: format,
                component_type: component,
                data: frame,
            })
        } else {
            res matches Err(ImageError::InvalidDimensions { width, height }) && width
                == header.width && height == header.height
        },
        _ => res matches Err(error) && is_layout_outcome(header, Err(error)),
    }
}

/// Whether `res` is what loading the PNG file `data` gives. An image whose
/// buffer would reach the end of the address range is reported by its
/// dimensions before any frame is read.
pub open spec fn is_load_png_outcome(data: Seq<u8>, res: Result<Image, ImageError>) -> bool {
    match png_header(data) {
        None => res matches Err(ImageError::PngDecodingError(_)),
        Some(header) => match (layout_of_color(header.color), kind_of_depth(header.depth)) {
            (Some(format), Some(component)) => if buffer_len(
                header.width as nat,
                header.height as nat,
                format,
                component,
            ) >= usize::MAX {
                res matches Err(ImageError::InvalidDimensions { width, height }) && width
                    == header.width && height == header.height
            } else {
                match png_frame(data) {
                    None => res matches Err(ImageError::PngDecodingError(_)),
                    Some(frame) => is_frame_outcome(header, frame, res),
                }
            },
            _ => res matches Err(error) && is_layout_outcome(header, Err(error)),
        },
    }
}

/// Reads the header of a PNG file.
///
/// Trusted: the body calls `png::Decoder::new` on the bytes, `read_info`,
/// and copies width, height, colour type and bit depth out of
/// `Reader::info`, variant for variant. The contract claims that the
/// outcome depends on the bytes alone, and gives it its name.
#[verifier::external_body]
pub(crate) fn png_read_header(data: &[u8]) -> (res: Result<PngHeader, png::DecodingError>)
    ensures
        match res {
            Ok(header) => png_header(data@) == Some(header),
            Err(_) => png_header(data@) is None,
        },
{
    let reader = png::Decoder::new(Cursor::new(data)).read_info()?;
    let info = reader.info();
    let color = match info.color_type {
        png::ColorType::Grayscale => PngColor::Grayscale,
        png::ColorType::GrayscaleAlpha => PngColor::GrayscaleAlpha,
        png::ColorType::Rgb => PngColor::Rgb,
        png::ColorType::Rgba => PngColor::Rgba,
        png::ColorType::Indexed => PngColor::Indexed,
    };
    let depth = match info.bit_depth {
        png::BitDepth::One => PngDepth::One, png::BitDepth::Two => PngDepth::Two,
        png::BitDepth::Four => PngDepth::Four, png::BitDepth::Eight => PngDepth::Eight,
        png::BitDepth::Sixteen => PngDepth::Sixteen,
    };
    Ok(PngHeader { width: info.width, height: info.height, color, depth })
}

/// Decodes the first frame of a PNG file.
///
/// Trusted: the body calls `png::Decoder::new` on the bytes, `read_info`,
/// `Reader::next_frame` on a zeroed buffer of `output_buffer_size` bytes,
/// and cuts the buffer to the frame's `buffer_size`. The `requires` keeps
/// the arithmetic of `output_buffer_size` in range: the header is one whose
/// rows are whole bytes, and the image with one byte more fits the address
/// range (the decoder counts a row with its filter byte). The contract
/// claims that the outcome depends on the bytes alone, and gives it its
/// name.
#[verifier::external_body]
pub(crate) fn png_read_frame(data: &[u8]) -> (res: Result<Vec<u8>, png::DecodingError>)
    requires
        png_header(data@) matches Some(header) && layout_of_color(header.color) matches Some(
            format,
        ) && kind_of_depth(header.depth) matches Some(component) && buffer_len(
            header.width as nat,
            header.height as nat,
            format,
            component,
        ) < usize::MAX,
    ensures
        match res {
            Ok(frame) => png_frame(data@) == Some(frame@),
            Err(_) => png_frame(data@) is None,
        },
{
    let mut reader = png::Decoder::new(Cursor::new(data)).read_info()?;
    let mut buffer = vec![0u8; reader.output_buffer_size()];
    let info = reader.next_frame(&mut buffer)?;
    buffer.truncate(info.buffer_size());
    Ok(buffer)
}

/// Encodes rows of pixels as the bytes of a PNG file.
///
/// Trusted: the body calls `png::Encoder::new` on an empty vector with the
/// size, `set_color` and `set_depth` with the same variants, `write_header`
/// and `Writer::write_image_data` with the rows. The `requires` keeps the
/// arithmetic of `write_image_data` in range: the rows are those of an
/// image in memory, and one byte more fits the address range (the encoder
/// counts a row with its filter byte). The contract claims that the
/// outcome depends on the arguments alone, and gives it its name.
#[verifier::external_body]
pub(crate) fn png_encode(
    rows: &[u8],
    width: u32,
    height: u32,
    color: PngColor,
    depth: PngDepth,
) -> (res: Result<Vec<u8>, png::EncodingError>)
    requires
        layout_of_color(color) matches Some(format) && kind_of_depth(depth) matches Some(
            component,
        ) && rows@.len() == buffer_len(width as nat, height as nat, format, component),
        rows@.len() < usize::MAX,
    ensures
        match res {
            Ok(bytes) => png_encoded(rows@, width, height, color, depth) == Some(bytes@),
            Err(_) => png_encoded(rows@, width, height, color, depth) is None,
        },
{
    let mut bytes = Vec::new();
    let mut encoder = png::Encoder::new(&mut bytes, width, height);
    encoder.set_color(match color {
        PngColor::Grayscale => png::ColorType::Grayscale,
        PngColor::GrayscaleAlpha => png::ColorType::GrayscaleAlpha,
        PngColor::Rgb => png::ColorType::Rgb, PngColor::Rgba => png::ColorType::Rgba,
        PngColor::Indexed => png::ColorType::Indexed,
    });
    encoder.set_depth(match depth {
        PngDepth::One => png::BitDepth::One, PngDepth::Two => png::BitDepth::Two,
        PngDepth::Four => png::BitDepth::Four, PngDepth::Eight => png::BitDepth::Eight,
        PngDepth::Sixteen => png::BitDepth::Sixteen,
    });
    encoder.write_header()?.write_image_data(rows)?;
    Ok(bytes)
}

/// The pixel layout and sample kind that a PNG header is read as.
///
/// Grayscale is read as R, grayscale with alpha as RG, RGB and RGBA as
/// themselves; a palette is not supported. Eight and sixteen bits are read
/// as U8 and U16; fewer bits are not supported.
pub fn png_layout(header: PngHeader) -> (res: Result<(PixelFormat, ComponentType), ImageError>)
    ensures
        is_layout_outcome(header, res),
{
    let format = match header.color {
        PngColor::Grayscale => PixelFormat::R,
        PngColor::GrayscaleAlpha => PixelFormat::RG,
        PngColor::Rgb => PixelFormat::RGB,
        PngColor::Rgba => PixelFormat::RGBA,
        PngColor::Indexed => {
            return Err(
                ImageError::UnsupportedFormat("PNG indexed color not supported".to_string()),
            );
        },
    };
    let component = match header.depth {
        PngDepth::Eight => ComponentType::U8,
        PngDepth::Sixteen => ComponentType::U16,
        PngDepth::One => {
            return Err(
                ImageError::UnsupportedFormat("PNG bit depth One not supported".to_string()),
            );
        },
        PngDepth::Two => {
            return Err(
                ImageError::UnsupportedFormat("PNG bit depth Two not supported".to_string()),
            );
        },
        PngDepth::Four => {
            return Err(
                ImageError::UnsupportedFormat("PNG bit depth Four not supported".to_string()),
            );
        },
    };
    Ok((format, component))
}

/// Turns a decoded header and frame into the canonical image.
///
/// The frame's bytes become the image's buffer as they are; a frame of
/// another length than the header asks for is an error.
pub fn image_from_png(header: PngHeader, frame: Vec<u8>) -> (res: Result<Image, ImageError>)
    ensures
        is_frame_outcome(header, frame@, res),
{
    let (format, component) = match png_layout(header) {
        Ok(pair) => pair,
        Err(error) => {
            return Err(error);
        },
    };
    match Image::try_from_raw(frame, header.width, header.height, format, component) {
        Some(image) => Ok(image),
        None => Err(ImageError::InvalidDimensions { width: header.width, height: header.height }),
    }
}

/// Loads a PNG image from the bytes of a file.
pub fn load_png(data: &[u8]) -> (res: Result<Image, ImageError>)
    ensures
        is_load_png_outcome(data@, res),
{
    let header = match png_read_header(data) {
        Ok(header) => header,
        Err(error) => {
            return Err(ImageError::PngDecodingError(error));
        },
    };
    let (format, component) = match png_layout(header) {
        Ok(pair) => pair,
        Err(error) => {
            return Err(error);
        },
    };
    match required_len(header.width, header.height, format, component) {
        Some(n) if n < usize::MAX => {},
        _ => {
            return Err(
                ImageError::InvalidDimensions { width: header.width, height: header.height },
            );
        },
    }
    match png_read_frame(data) {
        Ok(frame) => image_from_png(header, frame),
        Err(error) => Err(ImageError::PngDecodingError(error)),
    }
}

/// The PNG colour type that a red-first or luminance layout is written as.
pub open spec fn color_of_layout(format: PixelFormat) -> PngColor {
    match format {
        PixelFormat::R => PngColor::Grayscale,
        PixelFormat::RG => PngColor::GrayscaleAlpha,
        PixelFormat::RGB | PixelFormat::BGR => PngColor::Rgb,
        PixelFormat::RGBA | PixelFormat::BGRA => PngColor::Rgba,
    }
}

/// The image as it is handed to the PNG encoder: a blue-first image is
/// turned red-first, any other is handed over as it is.
pub open spec fn png_source(image: ImageView) -> ImageView {
    if image.pixel_format.blue_first() {
        image.swap_blue_red()
    } else {
        image
    }
}

/// Whether `res` is what saving the image as PNG gives.
pub open spec fn is_save_png_outcome(image: ImageView, res: Result<Vec<u8>, ImageError>) -> bool {
    if image.component_type != ComponentType::U8 && image.component_type != ComponentType::U16 {
        res matches Err(ImageError::UnsupportedFormat(m)) && m@
            == "PNG only supports U8 and U16 component types"@
    } else if image.data.len() >= usize::MAX {
        res matches Err(ImageError::InvalidDimensions { width, height }) && width == image.width
            && height == image.height
    } else {
        let depth = if image.component_type == ComponentType::U8 {
            PngDepth::Eight
        } else {
            PngDepth::Sixteen
        };
        match png_encoded(
            png_source(image).data,
            image.width as u32,
            image.height as u32,
            color_of_layout(image.pixel_format),
            depth,
        ) {
            Some(bytes) => res matches Ok(written) && written@ == bytes,
            None => res matches Err(ImageError::PngEncodingError(_)),
        }
    }
}

/// Saves an image as the bytes of a PNG file.
///
/// Only 8-bit and 16-bit integer samples can be written. R, RG, RGB and
/// RGBA are written as they are; BGR and BGRA are turned red-first before.
/// An image whose buffer reaches the end of the address range is reported
/// by its dimensions.
pub fn save_png(image: &Image) -> (res: Result<Vec<u8>, ImageError>)
    requires
        image.wf(),
    ensures
        is_save_png_outcome(image@, res),
{
    let depth = match image.component_type() {
        ComponentType::U8 => PngDepth::Eight,
        ComponentType::U16 => PngDepth::Sixteen,
        _ => {
            return Err(
                ImageError::UnsupportedFormat(
                    "PNG only supports U8 and U16 component types".to_string(),
                ),
            );
        },
    };
    if image.size_bytes() == usize::MAX {
        return Err(ImageError::InvalidDimensions { width: image.width(), height: image.height() });
    }
    let color = match image.pixel_format() {
        PixelFormat::R => PngColor::Grayscale,
        PixelFormat::RG => PngColor::GrayscaleAlpha,
        PixelFormat::RGB | PixelFormat::BGR => PngColor::Rgb,
        PixelFormat::RGBA | PixelFormat::BGRA => PngColor::Rgba,
    };
    let encoded = match image.pixel_format() {
        PixelFormat::BGR | PixelFormat::BGRA => {
            let mut copy = image.clone();
            copy.bgr_to_rgb();
            png_encode(copy.data(), copy.width(), copy.height(), color, depth)
        },
        _ => png_encode(image.data(), image.width(), image.height(), color, depth),
    };
    match encoded {
        Ok(bytes) => Ok(bytes),
        Err(error) => Err(ImageError::PngEncodingError(error)),
    }
}

/// The header that an image is written with.
pub open spec fn header_of_image(image: ImageView) -> PngHeader {
    PngHeader {
        width: image.width as u32,
        height: image.height as u32,
        color: color_of_layout(image.pixel_format),
        depth: if image.component_type == ComponentType::U8 {
            PngDepth::Eight
        } else {
            PngDepth::Sixteen
        },
    }
}

/// Reading back the header and the rows that an image is written with gives
/// the image again, byte for byte: for every layout that PNG holds as it
/// is (R, RG, RGB, RGBA) and both integer sample kinds. A blue-first image
/// comes back as its red-first counterpart.
pub proof fn lemma_rows_round_trip(image: ImageView, res: Result<Image, ImageError>)
    requires
        image.wf(),
        image.component_type == ComponentType::U8 || image.component_type == ComponentType::U16,
        is_frame_outcome(header_of_image(image), png_source(image).data, res),
    ensures
        res matches Ok(back) && back@ == png_source(image),
        !image.pixel_format.blue_first() ==> res->Ok_0@ == image,
{
    crate::image::lemma_swap_blue_red_keeps_size(image);
    crate::pixel_format::lemma_swapped_layout(image.pixel_format);
}

} // verus!
