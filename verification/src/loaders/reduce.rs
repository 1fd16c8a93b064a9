use crate::component_type::ComponentType;
use crate::image::{swap_first_third, Image, ImageView};
use crate::pixel_format::PixelFormat;
use vstd::prelude::*;

verus! {

/// Which channel of a pixel of the given layout feeds channel `c` of its
/// red-green-blue reduction (`c` is 0 for red, 1 for green, 2 for blue):
/// colour layouts hand over red, green and blue and drop alpha, blue-first
/// ones read them from the other end, and luminance layouts hand their first
/// channel to all three.
pub open spec fn rgb_source(format: PixelFormat, c: int) -> int {
    match format {
        PixelFormat::RGB | PixelFormat::RGBA => c,
        PixelFormat::BGR | PixelFormat::BGRA => 2 - c,
        PixelFormat::R | PixelFormat::RG => 0,
    }
}

/// The image of 8-bit samples reduced to interleaved red, green, blue: three
/// bytes per pixel, in the image's pixel order.
pub open spec fn rgb_bytes(image: ImageView) -> Seq<u8> {
    Seq::new(
        3 * (image.width * image.height),
        |i: int|
            image.data[(i / 3) * image.pixel_format.channels() + rgb_source(
                image.pixel_format,
                i % 3,
            )],
    )
}

/// The image of 8-bit samples reduced to its first channel: one byte per
/// pixel, in the image's pixel order.
pub open spec fn luma_bytes(image: ImageView) -> Seq<u8> {
    Seq::new(
        image.width * image.height,
        |p: int| image.data[p * image.pixel_format.channels()],
    )
}

/// In an image of `pixels` pixels of `channels` bytes, channel `c` of pixel
/// `p` lies inside the buffer.
pub proof fn lemma_pixel_in_buffer(p: int, c: int, pixels: int, channels: int)
    requires
        0 <= p < pixels,
        0 <= c < channels,
    ensures
        0 <= p * channels,
        p * channels + c < pixels * channels,
{
    assert(0 <= p * channels && p * channels + c < pixels * channels) by (nonlinear_arith)
        requires
            0 <= p < pixels,
            0 <= c < channels,
    ;
}

/// Reduces an image of 8-bit samples to interleaved red, green, blue.
///
/// Alpha is dropped; red, green and blue keep their order, whichever end the
/// layout stores them from; a luminance is replicated to all three.
pub(crate) fn to_rgb8(image: &Image) -> (rgb: Vec<u8>)
    requires
        image.wf(),
        image@.component_type == ComponentType::U8,
    ensures
        rgb@ == rgb_bytes(image@),
{
    let format = image.pixel_format();
    let channels = format.channel_count();
    let (red, green, blue): (usize, usize, usize) = match format {
        PixelFormat::RGB | PixelFormat::RGBA => (0, 1, 2),
        PixelFormat::BGR | PixelFormat::BGRA => (2, 1, 0),
        PixelFormat::R | PixelFormat::RG => (0, 0, 0),
    };
    let data = image.data();
    let total = data.len();
    let pixels = total / channels;
    proof {
        assert(image@.data.len() == (image@.width * image@.height) * channels) by (nonlinear_arith)
            requires
                image@.data.len() == image@.width * image@.height * channels * 1,
        ;
        vstd::arithmetic::div_mod::lemma_div_by_multiple(
            (image@.width * image@.height) as int,
            channels as int,
        );
    }
    let mut rgb: Vec<u8> = Vec::new();
    let mut p: usize = 0;
    while p < pixels
        invariant
            p <= pixels,
            pixels == image@.width * image@.height,
            total == pixels * channels,
            total == data@.len(),
            data@ == image@.data,
            format == image@.pixel_format,
            channels == format.channels(),
            red == rgb_source(format, 0),
            green == rgb_source(format, 1),
            blue == rgb_source(format, 2),
            red < channels,
            green < channels,
            blue < channels,
            rgb@.len() == 3 * p,
            forall|i: int| 0 <= i < 3 * p ==> rgb@[i] == rgb_bytes(image@)[i],
        decreases pixels - p,
    {
        proof {
            lemma_pixel_in_buffer(p as int, red as int, pixels as int, channels as int);
            lemma_pixel_in_buffer(p as int, green as int, pixels as int, channels as int);
            lemma_pixel_in_buffer(p as int, blue as int, pixels as int, channels as int);
            assert(3 * (p as int + 1) <= 3 * (image@.width * image@.height));
        }
        let base = p * channels;
        rgb.push(data[base + red]);
        rgb.push(data[base + green]);
        rgb.push(data[base + blue]);
        p = p + 1;
    }
    assert(rgb@ =~= rgb_bytes(image@));
    rgb
}

/// Reduces an image of 8-bit samples to its first channel.
pub(crate) fn to_luma8(image: &Image) -> (luma: Vec<u8>)
    requires
        image.wf(),
        image@.component_type == ComponentType::U8,
    ensures
        luma@ == luma_bytes(image@),
{
    let channels = image.pixel_format().channel_count();
    let data = image.data();
    let total = data.len();
    let pixels = total / channels;
    proof {
        assert(image@.data.len() == (image@.width * image@.height) * channels) by (nonlinear_arith)
            requires
                image@.data.len() == image@.width * image@.height * channels * 1,
        ;
        vstd::arithmetic::div_mod::lemma_div_by_multiple(
            (image@.width * image@.height) as int,
            channels as int,
        );
    }
    let mut luma: Vec<u8> = Vec::new();
    let mut p: usize = 0;
    while p < pixels
        invariant
            p <= pixels,
            pixels == image@.width * image@.height,
            total == pixels * channels,
            total == data@.len(),
            data@ == image@.data,
            channels == image@.pixel_format.channels(),
            1 <= channels,
            luma@.len() == p,
            forall|i: int| 0 <= i < p ==> luma@[i] == luma_bytes(image@)[i],
        decreases pixels - p,
    {
        proof {
            lemma_pixel_in_buffer(p as int, 0, pixels as int, channels as int);
        }
        luma.push(data[p * channels]);
        p = p + 1;
    }
    assert(luma@ =~= luma_bytes(image@));
    luma
}

/// Dropping alpha keeps red, green and blue where they were: of a
/// red-first image of four channels the reduction holds, for every pixel,
/// the first three bytes of the pixel in their order, and nothing of the
/// fourth.
pub proof fn lemma_rgba_drops_alpha(image: ImageView, p: int, c: int)
    requires
        image.pixel_format == PixelFormat::RGBA,
        0 <= p < image.width * image.height,
        0 <= c < 3,
    ensures
        rgb_bytes(image).len() == 3 * (image.width * image.height),
        rgb_bytes(image)[3 * p + c] == image.data[4 * p + c],
{
    assert((3 * p + c) / 3 == p);
    assert((3 * p + c) % 3 == c);
}

/// Reducing a blue-first image gives what reducing its red-first counterpart
/// gives: the exchange of red and blue and the reduction commute.
pub proof fn lemma_reduce_after_swap(image: ImageView)
    requires
        image.wf(),
        image.component_type == ComponentType::U8,
    ensures
        rgb_bytes(image.swap_blue_red()) == rgb_bytes(image),
{
    let other = image.swap_blue_red();
    let format = image.pixel_format;
    if format.red_first() || format.blue_first() {
        let g = format.channels() as int;
        let pixels = (image.width * image.height) as int;
        assert(image.data.len() == pixels * g) by (nonlinear_arith)
            requires
                image.data.len() == image.width * image.height * g * 1,
                pixels == image.width * image.height,
        ;
        assert forall|i: int| 0 <= i < 3 * pixels implies rgb_bytes(other)[i] == rgb_bytes(image)[i] by {
            let p = i / 3;
            let c = i % 3;
            lemma_pixel_in_buffer(p, c, pixels, g);
            lemma_pixel_in_buffer(p, g - 1, pixels, g);
            let j = p * g + rgb_source(other.pixel_format, c);
            if g == 3 {
                assert(p * g == p * 3) by (nonlinear_arith)
                    requires
                        g == 3,
                ;
                assert(j % 3 == rgb_source(other.pixel_format, c));
            } else {
                assert(p * g == p * 4) by (nonlinear_arith)
                    requires
                        g == 4,
                ;
                assert(j % 4 == rgb_source(other.pixel_format, c));
            }
            assert(j - j % g + g <= image.data.len());
            assert(other.data[j] == swap_first_third(image.data, g)[j]);
        }
        assert(rgb_bytes(other) =~= rgb_bytes(image));
    }
}

} // verus!
