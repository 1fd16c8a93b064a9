use crate::component_type::ComponentType;
use crate::error::ImageError;
use crate::image::{Image, ImageView};
use crate::loaders::reduce::{rgb_bytes, to_rgb8};
use crate::pixel_format::PixelFormat;
use bmp::Image as BmpImage;
use std::io::Cursor;
use vstd::prelude::*;

verus! {

/// The BMP codec's image, a grid of pixels that is read and filled through
/// the wrappers below.
#[verifier::external_type_specification]
#[verifier::external_body]
pub struct ExBmpImage(BmpImage);

/// Width of a codec image in pixels.
pub uninterp spec fn bmp_width(image: BmpImage) -> nat;

/// Height of a codec image in pixels.
pub uninterp spec fn bmp_height(image: BmpImage) -> nat;

/// The pixels of a codec image as (red, green, blue), row by row from the
/// top: the pixel at column `x` of row `y` stands at `y * width + x`.
pub uninterp spec fn bmp_pixels(image: BmpImage) -> Seq<(u8, u8, u8)>;

/// The two reserved fields of the file header that a codec image carries:
/// a decoded image has those of its file, a new one has zeros, and both are
/// written out again.
pub uninterp spec fn bmp_reserved(image: BmpImage) -> (u16, u16);

/// What the BMP decoder reads from `data`: width, height and pixels of the
/// image, or `None` where it reports an error.
pub uninterp spec fn bmp_decoded(data: Seq<u8>) -> Option<(nat, nat, Seq<(u8, u8, u8)>)>;

/// The bytes of the BMP file that the encoder writes for a grid of pixels
/// under a header whose reserved fields are zero, or `None` where it reports
/// an error.
pub uninterp spec fn bmp_encoded(width: nat, height: nat, pixels: Seq<(u8, u8, u8)>) -> Option<
    Seq<u8>,
>;

/// The unsigned 16-bit number that stands at `at` in little-endian order.
pub open spec fn u16_at(data: Seq<u8>, at: int) -> int {
    data[at] + 0x100 * data[at + 1]
}

/// The unsigned 32-bit number that stands at `at` in little-endian order.
pub open spec fn u32_at(data: Seq<u8>, at: int) -> int {
    data[at] + 0x100 * data[at + 1] + 0x1_0000 * data[at + 2] + 0x100_0000 * data[at + 3]
}

/// Magnitude of the signed 32-bit number with the unsigned reading `raw`.
pub open spec fn magnitude(raw: int) -> int {
    if raw >= 0x8000_0000 {
        0x1_0000_0000 - raw
    } else {
        raw
    }
}

/// The largest width for which the codec, which counts the bytes of a row
/// in single precision, counts them exactly.
pub const EXACT_ROW_WIDTH: u32 = 699_049;

/// The bytes of a row of 24-bit pixels as the codec counts them: the row
/// padded to a multiple of four where the count is exact, and beyond that
/// a bound that the count stays below.
pub open spec fn counted_row(width: int) -> int {
    if width <= EXACT_ROW_WIDTH {
        ((24 * width + 31) / 32) * 4
    } else {
        4 * width + 4
    }
}

/// Sizes for which the codec's own arithmetic on file and row sizes stays
/// in range: the header and all rows together fit 32 bits.
pub open spec fn bmp_size_ok(width: int, height: int) -> bool {
    0 <= width < 0x4000_0000 && 0 <= height && 54 + height * counted_row(width) <= u32::MAX
}

/// Bytes of one row of `width` pixels of `bits` bits.
pub open spec fn row_bytes(width: int, bits: int) -> int {
    (width * bits + 7) / 8
}

/// Bytes from one row to the next: the row's bytes, padded to a multiple of
/// four.
pub open spec fn row_stride(width: int, bits: int) -> int {
    let bytes = row_bytes(width, bits);
    if bytes % 4 == 0 {
        bytes
    } else {
        bytes + 4 - bytes % 4
    }
}

/// Number of palette entries that indices of `bits` bits can address.
pub open spec fn palette_span(bits: int) -> int {
    if bits == 1 {
        2
    } else if bits == 4 {
        16
    } else {
        256
    }
}

/// Two to the power `n`, for `n` from 0 to 8.
pub open spec fn two_to(n: int) -> int {
    if n <= 0 {
        1
    } else if n == 1 {
        2
    } else if n == 2 {
        4
    } else if n == 3 {
        8
    } else if n == 4 {
        16
    } else if n == 5 {
        32
    } else if n == 6 {
        64
    } else if n == 7 {
        128
    } else {
        256
    }
}

/// Where row `y` of the file's pixel array starts; the file's rows go from
/// the bottom of the image upwards.
pub open spec fn row_start(offset: int, width: int, bits: int, y: int) -> int {
    offset + row_stride(width, bits) * y
}

/// The palette index of pixel `x` in the row that starts at `start`: the
/// pixels are packed from the high bits of each byte downwards.
pub open spec fn palette_index(data: Seq<u8>, start: int, x: int, bits: int) -> int {
    let byte = data[start + (x * bits) / 8] as int;
    let shift = 8 - bits - (x * bits) % 8;
    (byte / two_to(shift)) % two_to(bits)
}

/// Whether every pixel of an indexed image addresses one of the `entries`
/// entries of the palette.
pub open spec fn indices_below(
    data: Seq<u8>,
    offset: int,
    width: int,
    height: int,
    bits: int,
    entries: int,
) -> bool {
    forall|y: int, x: int|
        0 <= y < height && 0 <= x < width ==> #[trigger] palette_index(
            data,
            row_start(offset, width, bits, y),
            x,
            bits,
        ) < entries
}

/// The files that the BMP decoder can be handed: those that it rejects on
/// their header, and those whose declared layout keeps its arithmetic and
/// its indexing in range. For the others its source shows an overflow or an
/// access out of bounds:
/// a side of `i32::MIN`; a size beyond [`bmp_size_ok`]; rows of a palette
/// image with 24 bits per pixel; indexed rows that reach beyond the end of
/// the file; a pixel whose index is not below the length of the palette.
pub open spec fn bmp_decodes_safely(data: Seq<u8>) -> bool {
    if data.len() < 54 || data[0] != 0x42 || data[1] != 0x4d {
        true
    } else {
        let offset = u32_at(data, 10);
        let header = u32_at(data, 14);
        let raw_width = u32_at(data, 18);
        let raw_height = u32_at(data, 22);
        let bits = u16_at(data, 28);
        let compression = u32_at(data, 30);
        let colors = u32_at(data, 46);
        if !((header == 40 && compression != 3) || header == 108 || header == 124) {
            true
        } else if !(bits == 1 || bits == 4 || bits == 8 || bits == 24) {
            true
        } else if 1 <= compression <= 3 {
            true
        } else {
            let width = magnitude(raw_width);
            let height = magnitude(raw_height);
            &&& raw_width != 0x8000_0000
            &&& raw_height != 0x8000_0000
            &&& bmp_size_ok(width, height)
            &&& if (bits == 24 && colors == 0) || height == 0 {
                true
            } else {
                &&& bits != 24
                &&& row_start(offset, width, bits, height - 1) + row_bytes(width, bits)
                    <= data.len()
                &&& indices_below(
                    data,
                    offset,
                    width,
                    height,
                    bits,
                    if colors == 0 {
                        palette_span(bits)
                    } else {
                        colors
                    },
                )
            }
        }
    }
}

/// Reads the unsigned 16-bit number at `at`.
fn read_u16(data: &[u8], at: usize) -> (value: u64)
    requires
        at + 2 <= data@.len(),
    ensures
        value == u16_at(data@, at as int),
{
    data[at] as u64 + 0x100 * (data[at + 1] as u64)
}

/// Reads the unsigned 32-bit number at `at`.
fn read_u32(data: &[u8], at: usize) -> (value: u64)
    requires
        at + 4 <= data@.len(),
    ensures
        value == u32_at(data@, at as int),
        value <= u32::MAX,
{
    data[at] as u64 + 0x100 * (data[at + 1] as u64) + 0x1_0000 * (data[at + 2] as u64) + 0x100_0000
        * (data[at + 3] as u64)
}

/// Whether a size keeps the codec's arithmetic in range.
fn size_is_ok(width: u64, height: u64) -> (ok: bool)
    requires
        width <= u32::MAX,
        height <= u32::MAX,
    ensures
        ok == bmp_size_ok(width as int, height as int),
{
    if width >= 0x4000_0000 {
        return false;
    }
    let row: u64 = if width <= EXACT_ROW_WIDTH as u64 {
        ((24 * width + 31) / 32) * 4
    } else {
        4 * width + 4
    };
    assert(height * row <= 0xffff_ffff * 0x1_0000_0000) by (nonlinear_arith)
        requires
            height <= 0xffff_ffff,
            row <= 0x1_0000_0000,
    ;
    54 + height * row <= u32::MAX as u64
}

/// Whether the decoder can be handed the file.
pub fn bmp_layout_is_safe(data: &[u8]) -> (safe: bool)
    ensures
        safe == bmp_decodes_safely(data@),
{
    if data.len() < 54 || data[0] != 0x42 || data[1] != 0x4d {
        return true;
    }
    let offset = read_u32(data, 10);
    let header = read_u32(data, 14);
    let raw_width = read_u32(data, 18);
    let raw_height = read_u32(data, 22);
    let bits = read_u16(data, 28);
    let compression = read_u32(data, 30);
    let colors = read_u32(data, 46);
    if !((header == 40 && compression != 3) || header == 108 || header == 124) {
        return true;
    }
    if !(bits == 1 || bits == 4 || bits == 8 || bits == 24) {
        return true;
    }
    if 1 <= compression && compression <= 3 {
        return true;
    }
    if raw_width == 0x8000_0000 || raw_height == 0x8000_0000 {
        return false;
    }
    let width = if raw_width >= 0x8000_0000 {
        0x1_0000_0000 - raw_width
    } else {
        raw_width
    };
    let height = if raw_height >= 0x8000_0000 {
        0x1_0000_0000 - raw_height
    } else {
        raw_height
    };
    if !size_is_ok(width, height) {
        return false;
    }
    if (bits == 24 && colors == 0) || height == 0 {
        return true;
    }
    if bits == 24 {
        return false;
    }
    let row = (times_bits(width, bits) + 7) / 8;
    let stride = if row % 4 == 0 {
        row
    } else {
        row + 4 - row % 4
    };
    proof {
        lemma_rows_in_order(offset as int, width as int, bits as int, 0, height as int - 1);
        assert(stride * (height - 1) <= 0x4000_0004 * 0x1_0000_0000) by (nonlinear_arith)
            requires
                stride <= 0x4000_0004,
                0 <= height - 1 <= 0x1_0000_0000,
        ;
    }
    if offset + stride * (height - 1) + row > data.len() as u64 {
        return false;
    }
    let entries = if colors == 0 {
        if bits == 1 {
            2
        } else if bits == 4 {
            16
        } else {
            256
        }
    } else {
        colors
    };
    indices_are_below(data, offset, width, height, bits, entries)
}

/// `x * bits` for the bit depths of indexed images.
fn times_bits(x: u64, bits: u64) -> (product: u64)
    requires
        x <= 0x4000_0000,
        bits == 1 || bits == 4 || bits == 8,
    ensures
        product == x * bits,
        product <= 8 * x,
{
    if bits == 1 {
        x
    } else if bits == 4 {
        x * 4
    } else {
        x * 8
    }
}

/// Two to the power `n`.
fn power_of_two(n: u64) -> (power: u64)
    requires
        n <= 8,
    ensures
        power == two_to(n as int),
        1 <= power <= 256,
{
    if n == 0 {
        1
    } else if n == 1 {
        2
    } else if n == 2 {
        4
    } else if n == 3 {
        8
    } else if n == 4 {
        16
    } else if n == 5 {
        32
    } else if n == 6 {
        64
    } else if n == 7 {
        128
    } else {
        256
    }
}

/// Later rows start further on, by whole strides.
proof fn lemma_rows_in_order(offset: int, width: int, bits: int, y: int, last: int)
    requires
        0 <= y <= last,
        0 <= width,
        bits == 1 || bits == 4 || bits == 8,
    ensures
        row_start(offset, width, bits, y) <= row_start(offset, width, bits, last),
        row_start(offset, width, bits, y + 1) == row_start(offset, width, bits, y) + row_stride(
            width,
            bits,
        ),
        row_start(offset, width, bits, 0) == offset,
        0 <= row_bytes(width, bits) <= row_stride(width, bits),
{
    let stride = row_stride(width, bits);
    assert(0 <= width * bits) by (nonlinear_arith)
        requires
            0 <= width,
            0 < bits,
    ;
    assert(stride * y <= stride * last && stride * (y + 1) == stride * y + stride && stride * 0
        == 0) by (nonlinear_arith)
        requires
            0 <= y <= last,
            0 <= stride,
    ;
}

/// A pixel's byte lies inside its row.
proof fn lemma_pixel_in_row(x: int, width: int, bits: int)
    requires
        0 <= x < width,
        bits == 1 || bits == 4 || bits == 8,
    ensures
        0 <= (x * bits) / 8 < row_bytes(width, bits),
        0 <= 8 - bits - (x * bits) % 8 <= 7,
{
    if bits == 1 {
        assert(x * bits == x && width * bits == width) by (nonlinear_arith)
            requires
                bits == 1,
        ;
    } else if bits == 4 {
        assert(x * bits == 4 * x && width * bits == 4 * width) by (nonlinear_arith)
            requires
                bits == 4,
        ;
    } else {
        assert(x * bits == 8 * x && width * bits == 8 * width) by (nonlinear_arith)
            requires
                bits == 8,
        ;
    }
}

/// Whether every pixel of an indexed image addresses an entry of a palette
/// of `entries` entries.
fn indices_are_below(
    data: &[u8],
    offset: u64,
    width: u64,
    height: u64,
    bits: u64,
    entries: u64,
) -> (ok: bool)
    requires
        bits == 1 || bits == 4 || bits == 8,
        width < 0x4000_0000,
        1 <= height <= u32::MAX,
        offset <= u32::MAX,
        row_start(offset as int, width as int, bits as int, height - 1) + row_bytes(
            width as int,
            bits as int,
        ) <= data@.len(),
    ensures
        ok == indices_below(
            data@,
            offset as int,
            width as int,
            height as int,
            bits as int,
            entries as int,
        ),
{
    let span = power_of_two(bits);
    if entries >= span {
        proof {
            assert forall|y: int, x: int| 0 <= y < height && 0 <= x < width implies #[trigger] palette_index(
                data@,
                row_start(offset as int, width as int, bits as int, y),
                x,
                bits as int,
            ) < entries by {}
        }
        return true;
    }
    let row = (times_bits(width, bits) + 7) / 8;
    let stride = if row % 4 == 0 {
        row
    } else {
        row + 4 - row % 4
    };
    let total = data.len();
    let mut start = offset;
    let mut y: u64 = 0;
    proof {
        lemma_rows_in_order(offset as int, width as int, bits as int, 0, height as int - 1);
    }
    while y < height
        invariant
            y <= height,
            bits == 1 || bits == 4 || bits == 8,
            width < 0x4000_0000,
            1 <= height <= u32::MAX,
            span == two_to(bits as int),
            row == row_bytes(width as int, bits as int),
            stride == row_stride(width as int, bits as int),
            total == data@.len(),
            y < height ==> start == row_start(offset as int, width as int, bits as int, y as int),
            row_start(offset as int, width as int, bits as int, height - 1) + row <= total,
            forall|v: int, x: int|
                0 <= v < y && 0 <= x < width ==> #[trigger] palette_index(
                    data@,
                    row_start(offset as int, width as int, bits as int, v),
                    x,
                    bits as int,
                ) < entries,
        decreases height - y,
    {
        proof {
            lemma_rows_in_order(
                offset as int,
                width as int,
                bits as int,
                y as int,
                height as int - 1,
            );
        }
        let mut x: u64 = 0;
        while x < width
            invariant
                y < height,
                x <= width,
                bits == 1 || bits == 4 || bits == 8,
                width < 0x4000_0000,
                span == two_to(bits as int),
                row == row_bytes(width as int, bits as int),
                total == data@.len(),
                start == row_start(offset as int, width as int, bits as int, y as int),
                start + row <= total,
                forall|v: int, u: int|
                    (0 <= v < y && 0 <= u < width) || (v == y && 0 <= u < x)
                        ==> #[trigger] palette_index(
                        data@,
                        row_start(offset as int, width as int, bits as int, v),
                        u,
                        bits as int,
                    ) < entries,
            decreases width - x,
        {
            proof {
                lemma_pixel_in_row(x as int, width as int, bits as int);
            }
            let bit = times_bits(x, bits);
            let byte = data[(start + bit / 8) as usize] as u64;
            let shift = 8 - bits - bit % 8;
            let index = (byte / power_of_two(shift)) % span;
            assert(index == palette_index(data@, start as int, x as int, bits as int));
            if index >= entries {
                return false;
            }
            x = x + 1;
        }
        y = y + 1;
        if y < height {
            proof {
                lemma_rows_in_order(
                    offset as int,
                    width as int,
                    bits as int,
                    y as int,
                    height as int - 1,
                );
            }
            start = start + stride;
        }
    }
    true
}

/// Decodes a BMP file.
///
/// Trusted: the body calls `bmp::from_reader` on the bytes. The `requires`
/// leaves out the files on which the decoder's source shows a panic. The
/// contract claims that the outcome depends on the bytes alone, gives it its
/// name, and says of the image what `decode_image` shows: one pixel for
/// each position, and a size that the header declared, so within
/// [`bmp_size_ok`] by the `requires`.
#[verifier::external_body]
pub(crate) fn bmp_decode(data: &[u8]) -> (res: Result<BmpImage, bmp::BmpError>)
    requires
        bmp_decodes_safely(data@),
    ensures
        match res {
            Ok(image) => bmp_decoded(data@) == Some(
                (bmp_width(image), bmp_height(image), bmp_pixels(image)),
            ) && bmp_pixels(image).len() == bmp_width(image) * bmp_height(image) && bmp_size_ok(
                bmp_width(image) as int,
                bmp_height(image) as int,
            ),
            Err(_) => bmp_decoded(data@) is None,
        },
{
    bmp::from_reader(&mut Cursor::new(data))
}

/// Width of a codec image. Trusted: `BmpImage::get_width` returns the
/// field that [`bmp_width`] names.
#[verifier::external_body]
pub(crate) fn bmp_get_width(image: &BmpImage) -> (width: u32)
    ensures
        width == bmp_width(*image),
{
    image.get_width()
}

/// Height of a codec image. Trusted: `BmpImage::get_height` returns the
/// field that [`bmp_height`] names.
#[verifier::external_body]
pub(crate) fn bmp_get_height(image: &BmpImage) -> (height: u32)
    ensures
        height == bmp_height(*image),
{
    image.get_height()
}

/// The pixel at column `x` of row `y`, rows counted from the top.
///
/// Trusted: the body calls `BmpImage::get_pixel`, which indexes its pixel
/// array at `(height - y - 1) * width + x`; the `requires` keeps that
/// arithmetic and the index in range.
#[verifier::external_body]
pub(crate) fn bmp_get_pixel(image: &BmpImage, x: u32, y: u32) -> (pixel: (u8, u8, u8))
    requires
        x < bmp_width(*image),
        y < bmp_height(*image),
        bmp_pixels(*image).len() == bmp_width(*image) * bmp_height(*image),
        bmp_width(*image) * bmp_height(*image) <= u32::MAX,
    ensures
        pixel == bmp_pixels(*image)[y * bmp_width(*image) + x],
{
    let pixel = image.get_pixel(x, y);
    (pixel.r, pixel.g, pixel.b)
}

/// A black codec image of the given size.
///
/// Trusted: the body calls `BmpImage::new`, which pushes `width * height`
/// black pixels; the `requires` keeps its arithmetic on the file size in
/// range.
#[verifier::external_body]
pub(crate) fn bmp_new(width: u32, height: u32) -> (image: BmpImage)
    requires
        bmp_size_ok(width as int, height as int),
    ensures
        bmp_width(image) == width,
        bmp_height(image) == height,
        bmp_reserved(image) == (0u16, 0u16),
        bmp_pixels(image) == Seq::new((width * height) as nat, |i: int| (0u8, 0u8, 0u8)),
{
    BmpImage::new(width, height)
}

/// Sets the pixel at column `x` of row `y`, rows counted from the top.
///
/// Trusted: the body calls `BmpImage::set_pixel`, which assigns one
/// element of its pixel array; the `requires` keeps the index in range.
#[verifier::external_body]
pub(crate) fn bmp_set_pixel(image: &mut BmpImage, x: u32, y: u32, pixel: (u8, u8, u8))
    requires
        x < bmp_width(*old(image)),
        y < bmp_height(*old(image)),
        bmp_pixels(*old(image)).len() == bmp_width(*old(image)) * bmp_height(*old(image)),
        bmp_width(*old(image)) * bmp_height(*old(image)) <= u32::MAX,
    ensures
        bmp_width(*final(image)) == bmp_width(*old(image)),
        bmp_height(*final(image)) == bmp_height(*old(image)),
        bmp_reserved(*final(image)) == bmp_reserved(*old(image)),
        bmp_pixels(*final(image)) == bmp_pixels(*old(image)).update(
            y * bmp_width(*old(image)) + x,
            pixel,
        ),
{
    image.set_pixel(x, y, bmp::Pixel::new(pixel.0, pixel.1, pixel.2));
}

/// Encodes a codec image as the bytes of a BMP file.
///
/// Trusted: the body calls `BmpImage::to_writer` on an empty vector. The
/// contract claims that the outcome depends on size and pixels alone, and
/// gives it its name.
#[verifier::external_body]
pub(crate) fn bmp_to_bytes(image: &BmpImage) -> (res: Result<Vec<u8>, std::io::Error>)
    requires
        bmp_size_ok(bmp_width(*image) as int, bmp_height(*image) as int),
        bmp_pixels(*image).len() == bmp_width(*image) * bmp_height(*image),
        bmp_reserved(*image) == (0u16, 0u16),
    ensures
        match res {
            Ok(bytes) => bmp_encoded(bmp_width(*image), bmp_height(*image), bmp_pixels(*image))
                == Some(bytes@),
            Err(_) => bmp_encoded(bmp_width(*image), bmp_height(*image), bmp_pixels(*image))
                is None,
        },
{
    let mut bytes = Vec::new();
    image.to_writer(&mut bytes)?;
    Ok(bytes)
}

/// Channel `c` of a pixel: 0 is red, 1 is green, 2 is blue.
pub open spec fn triple_channel(pixel: (u8, u8, u8), c: int) -> u8 {
    if c == 0 {
        pixel.0
    } else if c == 1 {
        pixel.1
    } else {
        pixel.2
    }
}

/// The canonical image of a grid of pixels: red, green, blue of 8 bits each,
/// the pixels in their order.
pub open spec fn grid_image(width: nat, height: nat, pixels: Seq<(u8, u8, u8)>) -> ImageView {
    ImageView {
        width,
        height,
        pixel_format: PixelFormat::RGB,
        component_type: ComponentType::U8,
        data: Seq::new(3 * (width * height), |i: int| triple_channel(pixels[i / 3], i % 3)),
    }
}

/// The grid of pixels of an image of 8-bit samples: for each pixel its red,
/// green and blue as [`rgb_bytes`] gives them.
pub open spec fn image_grid(image: ImageView) -> Seq<(u8, u8, u8)> {
    Seq::new(
        image.width * image.height,
        |p: int|
            (rgb_bytes(image)[3 * p], rgb_bytes(image)[3 * p + 1], rgb_bytes(image)[3 * p + 2]),
    )
}

/// The pixels of a size within [`bmp_size_ok`] fit 32 bits three times
/// over, and row `y` starts inside the grid.
proof fn lemma_grid_index(x: int, y: int, width: int, height: int)
    requires
        bmp_size_ok(width, height),
        0 <= x < width,
        0 <= y < height,
    ensures
        0 <= y * width,
        y * width + x < width * height,
        (y + 1) * width == y * width + width,
        3 * (width * height) <= u32::MAX,
{
    assert(0 <= y * width && y * width + x < width * height && (y + 1) * width == y * width
        + width) by (nonlinear_arith)
        requires
            0 <= x < width,
            0 <= y < height,
    ;
    lemma_size_below(width, height);
}

/// The row after row `y` starts one row's width further.
proof fn lemma_next_row(y: int, width: int)
    ensures
        (y + 1) * width == y * width + width,
        width * y == y * width,
{
    assert((y + 1) * width == y * width + width && width * y == y * width) by (nonlinear_arith);
}

/// The pixels of a size within [`bmp_size_ok`] fit 32 bits three times
/// over: a counted row holds three bytes for each of its pixels.
proof fn lemma_size_below(width: int, height: int)
    requires
        bmp_size_ok(width, height),
    ensures
        0 <= 3 * (width * height) <= u32::MAX,
{
    let row = counted_row(width);
    assert(3 * width <= row);
    assert(0 <= width * height && 3 * (width * height) <= height * row) by (nonlinear_arith)
        requires
            0 <= width,
            0 <= height,
            3 * width <= row,
    ;
}

/// Turns a decoded codec image into the canonical image.
///
/// The pixels are taken row by row from the top as blue, green, red, and
/// the image is then turned red-first.
pub fn image_from_bmp(source: &BmpImage) -> (image: Image)
    requires
        bmp_size_ok(bmp_width(*source) as int, bmp_height(*source) as int),
        bmp_pixels(*source).len() == bmp_width(*source) * bmp_height(*source),
    ensures
        image.wf(),
        image@ == grid_image(bmp_width(*source), bmp_height(*source), bmp_pixels(*source)),
{
    let width = bmp_get_width(source);
    let height = bmp_get_height(source);
    let ghost pixels = bmp_pixels(*source);
    proof {
        lemma_size_below(width as int, height as int);
    }
    let mut data: Vec<u8> = Vec::new();
    let mut y: u32 = 0;
    while y < height
        invariant
            y <= height,
            width == bmp_width(*source),
            height == bmp_height(*source),
            pixels == bmp_pixels(*source),
            pixels.len() == width * height,
            bmp_size_ok(width as int, height as int),
            3 * (width * height) <= u32::MAX,
            data@.len() == 3 * (y * width),
            forall|i: int|
                0 <= i < y * width ==> data@[3 * i] == pixels[i].2 && data@[3 * i + 1]
                    == pixels[i].1 && data@[3 * i + 2] == pixels[i].0,
        decreases height - y,
    {
        let mut x: u32 = 0;
        while x < width
            invariant
                y < height,
                x <= width,
                width == bmp_width(*source),
                height == bmp_height(*source),
                pixels == bmp_pixels(*source),
                pixels.len() == width * height,
                bmp_size_ok(width as int, height as int),
                3 * (width * height) <= u32::MAX,
                data@.len() == 3 * (y * width + x),
                forall|i: int|
                    0 <= i < y * width + x ==> data@[3 * i] == pixels[i].2 && data@[3 * i + 1]
                        == pixels[i].1 && data@[3 * i + 2] == pixels[i].0,
            decreases width - x,
        {
            proof {
                lemma_grid_index(x as int, y as int, width as int, height as int);
            }
            let pixel = bmp_get_pixel(source, x, y);
            data.push(pixel.2);
            data.push(pixel.1);
            data.push(pixel.0);
            x = x + 1;
        }
        proof {
            lemma_next_row(y as int, width as int);
        }
        y = y + 1;
    }
    proof {
        lemma_next_row(height as int, width as int);
        assert(crate::image::buffer_len(
            width as nat,
            height as nat,
            PixelFormat::BGR,
            ComponentType::U8,
        ) == 3 * (width * height)) by (nonlinear_arith);
    }
    let mut image = Image::from_raw(data, width, height, PixelFormat::BGR, ComponentType::U8);
    let ghost blue_first = image@;
    image.bgr_to_rgb();
    proof {
        let wanted = grid_image(width as nat, height as nat, pixels);
        assert forall|i: int| 0 <= i < 3 * (width * height) implies image@.data[i]
            == wanted.data[i] by {
            let p = i / 3;
            assert(0 <= p < width * height);
            assert(i - i % 3 + 3 <= blue_first.data.len());
        }
        assert(image@.data =~= wanted.data);
    }
    image
}

/// Whether `res` is what loading the BMP file `data` gives.
pub open spec fn is_load_bmp_outcome(data: Seq<u8>, res: Result<Image, ImageError>) -> bool {
    if !bmp_decodes_safely(data) {
        res matches Err(ImageError::UnsupportedFormat(m)) && m@ == "BMP layout not supported"@
    } else {
        match bmp_decoded(data) {
            Some((width, height, pixels)) => res matches Ok(image) && image.wf() && image@
                == grid_image(width, height, pixels),
            None => res matches Err(ImageError::BmpError(_)),
        }
    }
}

/// Loads a BMP image from the bytes of a file.
///
/// The result always has red, green and blue of 8 bits. A file whose
/// declared layout the decoder cannot be trusted with (see
/// [`bmp_decodes_safely`]) is reported as unsupported.
pub fn load_bmp(data: &[u8]) -> (res: Result<Image, ImageError>)
    ensures
        is_load_bmp_outcome(data@, res),
{
    if !bmp_layout_is_safe(data) {
        return Err(ImageError::UnsupportedFormat("BMP layout not supported".to_string()));
    }
    match bmp_decode(data) {
        Ok(source) => Ok(image_from_bmp(&source)),
        Err(error) => Err(ImageError::BmpError(error)),
    }
}

/// Whether `res` is what saving the image as BMP gives.
pub open spec fn is_save_bmp_outcome(image: ImageView, res: Result<Vec<u8>, ImageError>) -> bool {
    if image.component_type != ComponentType::U8 {
        res matches Err(ImageError::UnsupportedFormat(m)) && m@
            == "BMP only supports U8 component type"@
    } else if !bmp_size_ok(image.width as int, image.height as int) {
        res matches Err(ImageError::InvalidDimensions { width, height }) && width == image.width
            && height == image.height
    } else {
        match bmp_encoded(image.width, image.height, image_grid(image)) {
            Some(bytes) => res matches Ok(written) && written@ == bytes,
            None => res matches Err(ImageError::IoError(_)),
        }
    }
}

/// Saves an image as the bytes of a BMP file.
///
/// Only 8-bit samples can be written. The file always holds red, green and
/// blue: alpha is dropped, a blue-first layout is read from its other end,
/// a luminance is replicated. A size beyond [`bmp_size_ok`] is an error.
pub fn save_bmp(image: &Image) -> (res: Result<Vec<u8>, ImageError>)
    requires
        image.wf(),
    ensures
        is_save_bmp_outcome(image@, res),
{
    match image.component_type() {
        ComponentType::U8 => {},
        _ => {
            return Err(
                ImageError::UnsupportedFormat("BMP only supports U8 component type".to_string()),
            );
        },
    }
    let width = image.width();
    let height = image.height();
    if !size_is_ok(width as u64, height as u64) {
        return Err(ImageError::InvalidDimensions { width, height });
    }
    let rgb = to_rgb8(image);
    let ghost grid = image_grid(image@);
    proof {
        lemma_size_below(width as int, height as int);
    }
    let mut target = bmp_new(width, height);
    let mut y: u32 = 0;
    while y < height
        invariant
            y <= height,
            width == image@.width,
            height == image@.height,
            bmp_size_ok(width as int, height as int),
            3 * (width * height) <= u32::MAX,
            rgb@ == rgb_bytes(image@),
            grid == image_grid(image@),
            bmp_width(target) == width,
            bmp_reserved(target) == (0u16, 0u16),
            bmp_height(target) == height,
            bmp_pixels(target).len() == width * height,
            forall|i: int| 0 <= i < y * width ==> bmp_pixels(target)[i] == grid[i],
            forall|i: int|
                y * width <= i < width * height ==> bmp_pixels(target)[i] == (0u8, 0u8, 0u8),
        decreases height - y,
    {
        let mut x: u32 = 0;
        while x < width
            invariant
                y < height,
                x <= width,
                width == image@.width,
                height == image@.height,
                bmp_size_ok(width as int, height as int),
                3 * (width * height) <= u32::MAX,
                rgb@ == rgb_bytes(image@),
                grid == image_grid(image@),
                bmp_width(target) == width,
                bmp_reserved(target) == (0u16, 0u16),
                bmp_height(target) == height,
                bmp_pixels(target).len() == width * height,
                forall|i: int| 0 <= i < y * width + x ==> bmp_pixels(target)[i] == grid[i],
                forall|i: int|
                    y * width + x <= i < width * height ==> bmp_pixels(target)[i] == (
                        0u8,
                        0u8,
                        0u8,
                    ),
            decreases width - x,
        {
            proof {
                lemma_grid_index(x as int, y as int, width as int, height as int);
            }
            let at = ((y * width + x) * 3) as usize;
            let pixel = (rgb[at], rgb[at + 1], rgb[at + 2]);
            bmp_set_pixel(&mut target, x, y, pixel);
            x = x + 1;
        }
        proof {
            lemma_next_row(y as int, width as int);
        }
        y = y + 1;
    }
    proof {
        assert(bmp_pixels(target) =~= grid);
    }
    match bmp_to_bytes(&target) {
        Ok(bytes) => Ok(bytes),
        Err(error) => Err(ImageError::IoError(error)),
    }
}

/// Reading back the grid of pixels that an RGB image of 8-bit samples is
/// written as gives the image again, byte for byte.
pub proof fn lemma_grid_round_trip(image: ImageView)
    requires
        image.wf(),
        image.component_type == ComponentType::U8,
        image.pixel_format == PixelFormat::RGB,
    ensures
        grid_image(image.width, image.height, image_grid(image)) == image,
{
    let back = grid_image(image.width, image.height, image_grid(image));
    let pixels = (image.width * image.height) as int;
    assert(image.data.len() == 3 * pixels) by (nonlinear_arith)
        requires
            image.data.len() == image.width * image.height * 3 * 1,
            pixels == image.width * image.height,
    ;
    assert forall|i: int| 0 <= i < 3 * pixels implies back.data[i] == image.data[i] by {
        let p = i / 3;
        let c = i % 3;
        assert(0 <= p < pixels);
        assert((3 * p + c) / 3 == p && (3 * p + c) % 3 == c);
        assert(rgb_bytes(image)[3 * p + c] == image.data[p * 3 + c]);
    }
    assert(back.data =~= image.data);
}

/// Saving a blue-first image as BMP gives what saving its red-first
/// counterpart gives: the same grid of pixels is handed to the encoder, so
/// the same bytes come out.
pub proof fn lemma_bmp_ignores_channel_order(image: ImageView)
    requires
        image.wf(),
        image.component_type == ComponentType::U8,
    ensures
        image_grid(image.swap_blue_red()) == image_grid(image),
        bmp_encoded(image.width, image.height, image_grid(image.swap_blue_red())) == bmp_encoded(
            image.width,
            image.height,
            image_grid(image),
        ),
        forall|res: Result<Vec<u8>, ImageError>|
            is_save_bmp_outcome(image.swap_blue_red(), res) == is_save_bmp_outcome(image, res),
{
    crate::loaders::reduce::lemma_reduce_after_swap(image);
    assert(image_grid(image.swap_blue_red()) =~= image_grid(image));
}

} // verus!
