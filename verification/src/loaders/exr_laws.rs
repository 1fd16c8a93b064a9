use crate::component_type::ComponentType;
use crate::image::{buffer_len, ImageView};
use crate::error::ImageError;
use crate::image::Image;
use crate::loaders::exr_loader::{
    channel_plan, decode_shape, decoded_sample, encode_plan, is_decoding, is_encoding,
    is_layer_outcome, lemma_position, position, same_kind, sample_at, sizes_fit, unified_kind,
    DecodeFailure, DecodeShape, NAME_A, NAME_B, NAME_G, NAME_R, NAME_Y,
};
use crate::loaders::exr_model::{le_byte, le_u16, le_u32, sample_offset, ChannelView, LayerView};
use crate::pixel_format::PixelFormat;
use vstd::prelude::*;

verus! {

/// Whether some channel of the list has the name.
pub open spec fn has_channel(channels: Seq<ChannelView>, name: Seq<u8>) -> bool {
    exists|i: int| 0 <= i < channels.len() && (#[trigger] channels[i]).name == name
}

/// A channel is found exactly where one of the name is in the list.
pub proof fn lemma_position_finds(channels: Seq<ChannelView>, name: Seq<u8>)
    ensures
        position(channels, name) is Some <==> has_channel(channels, name),
{
    lemma_position(channels, name);
    if position(channels, name) is Some {
        let i = position(channels, name)->0;
        assert(channels[i].name == name);
    }
}

/// A layer with channels R, G, B and A is read as RGBA, fed by the first
/// channel of each name, whatever else the layer holds: a Y beside them
/// changes nothing. The one way for such a layer to have no image is its
/// size: a side or the buffer beyond the machine's ranges, or a picked
/// channel that does not hold one sample per pixel.
pub proof fn lemma_rgba_precedence(layer: LayerView)
    requires
        has_channel(layer.channels, seq![NAME_R]),
        has_channel(layer.channels, seq![NAME_G]),
        has_channel(layer.channels, seq![NAME_B]),
        has_channel(layer.channels, seq![NAME_A]),
    ensures
        channel_plan(layer.channels) == Some(
            (
                PixelFormat::RGBA,
                seq![
                    position(layer.channels, seq![NAME_R])->0,
                    position(layer.channels, seq![NAME_G])->0,
                    position(layer.channels, seq![NAME_B])->0,
                    position(layer.channels, seq![NAME_A])->0,
                ],
            ),
        ),
        match decode_shape(layer) {
            Ok(shape) => shape.format == PixelFormat::RGBA && shape.picks == seq![
                position(layer.channels, seq![NAME_R])->0,
                position(layer.channels, seq![NAME_G])->0,
                position(layer.channels, seq![NAME_B])->0,
                position(layer.channels, seq![NAME_A])->0,
            ],
            Err(failure) => failure == DecodeFailure::SizeMismatch,
        },
        forall|res: Result<Image, ImageError>|
            #[trigger] is_layer_outcome(layer, res) ==> (res matches Ok(image)
                ==> image@.pixel_format == PixelFormat::RGBA),
{
    lemma_position_finds(layer.channels, seq![NAME_R]);
    lemma_position_finds(layer.channels, seq![NAME_G]);
    lemma_position_finds(layer.channels, seq![NAME_B]);
    lemma_position_finds(layer.channels, seq![NAME_A]);
    assert(layer.channels.len() > 0);
}

/// A layer of the one channel Y is read as R, fed by that channel; the one
/// way for it to have no image is its size.
pub proof fn lemma_luminance_alone(layer: LayerView)
    requires
        layer.channels.len() == 1,
        layer.channels[0].name == seq![NAME_Y],
    ensures
        channel_plan(layer.channels) == Some((PixelFormat::R, seq![0int])),
        match decode_shape(layer) {
            Ok(shape) => shape.format == PixelFormat::R && shape.picks == seq![0int],
            Err(failure) => failure == DecodeFailure::SizeMismatch,
        },
        forall|res: Result<Image, ImageError>|
            #[trigger] is_layer_outcome(layer, res) ==> (res matches Ok(image)
                ==> image@.pixel_format == PixelFormat::R),
{
    let channels = layer.channels;
    lemma_position(channels, seq![NAME_R]);
    lemma_position(channels, seq![NAME_G]);
    lemma_position(channels, seq![NAME_B]);
    lemma_position(channels, seq![NAME_A]);
    lemma_position(channels, seq![NAME_Y]);
    lemma_distinct_names();
    let plan = channel_plan(channels)->0;
    assert(plan.1 =~= seq![0int]);
}

/// A channel that is there is never passed over to make a layout fit: a
/// layer with R and G but no B has no image, with or without A, and
/// neither has one with Y beside R but no A.
pub proof fn lemma_no_lossy_fit(layer: LayerView)
    requires
        layer.channels.len() > 0,
        has_channel(layer.channels, seq![NAME_R]),
        !has_channel(layer.channels, seq![NAME_B]),
        has_channel(layer.channels, seq![NAME_G]) || (has_channel(layer.channels, seq![NAME_Y])
            && !has_channel(layer.channels, seq![NAME_A])),
        !(has_channel(layer.channels, seq![NAME_Y]) && has_channel(layer.channels, seq![NAME_A])),
    ensures
        decode_shape(layer) == Err::<DecodeShape, DecodeFailure>(
            DecodeFailure::NoRecognizedChannels,
        ),
{
    lemma_position_finds(layer.channels, seq![NAME_R]);
    lemma_position_finds(layer.channels, seq![NAME_G]);
    lemma_position_finds(layer.channels, seq![NAME_B]);
    lemma_position_finds(layer.channels, seq![NAME_A]);
    lemma_position_finds(layer.channels, seq![NAME_Y]);
}

/// A layer without channels has no image, and every image that a layer has
/// holds between one and four channels.
pub proof fn lemma_never_without_channels(layer: LayerView)
    ensures
        layer.channels.len() == 0 ==> decode_shape(layer) == Err::<DecodeShape, DecodeFailure>(
            DecodeFailure::NoChannels,
        ),
        decode_shape(layer) matches Ok(shape) ==> 1 <= shape.format.channels() <= 4
            && shape.picks.len() == shape.format.channels(),
{
    crate::loaders::exr_loader::lemma_plan_in_range(layer.channels);
}

/// Every index of an interleaved buffer is the place of one byte of one
/// sample of one pixel.
pub proof fn lemma_sample_position(i: int, pixels: int, channels: int, width: int) -> (at: (
    int,
    int,
    int,
))
    requires
        0 < channels,
        0 < width,
        0 <= i < pixels * channels * width,
    ensures
        0 <= at.0 < pixels,
        0 <= at.1 < channels,
        0 <= at.2 < width,
        sample_offset(at.0, at.1, at.2, channels, width) == i,
{
    let j = i / width;
    let k = i % width;
    let p = j / channels;
    let c = j % channels;
    vstd::arithmetic::div_mod::lemma_fundamental_div_mod(i, width);
    vstd::arithmetic::div_mod::lemma_fundamental_div_mod(j, channels);
    vstd::arithmetic::div_mod::lemma_mod_bound(i, width);
    vstd::arithmetic::div_mod::lemma_mod_bound(j, channels);
    assert(0 <= j) by (nonlinear_arith)
        requires
            i == width * j + k,
            0 <= i,
            0 <= k < width,
            0 < width,
    ;
    assert(0 <= p) by (nonlinear_arith)
        requires
            j == channels * p + c,
            0 <= j,
            0 <= c < channels,
            0 < channels,
    ;
    assert((p * channels + c) * width + k == i) by (nonlinear_arith)
        requires
            i == width * j + k,
            j == channels * p + c,
    ;
    assert(p < pixels) by (nonlinear_arith)
        requires
            (p * channels + c) * width + k == i,
            i < pixels * channels * width,
            0 <= c,
            0 <= k,
            0 < channels,
            0 < width,
            0 <= p,
    ;
    (p, c, k)
}

/// A layer decodes to one image only: two images that both are its
/// decoding are the same.
pub proof fn lemma_decoding_unique(
    layer: LayerView,
    shape: DecodeShape,
    first: ImageView,
    second: ImageView,
)
    requires
        is_decoding(layer, shape, first),
        is_decoding(layer, shape, second),
    ensures
        first == second,
{
    let channels = shape.format.channels() as int;
    let width = shape.component.byte_width() as int;
    let pixels = (layer.width * layer.height) as int;
    assert(first.data.len() == pixels * channels * width) by (nonlinear_arith)
        requires
            first.data.len() == layer.width * layer.height * channels * width,
            pixels == layer.width * layer.height,
    ;
    assert forall|i: int| 0 <= i < first.data.len() implies first.data[i] == second.data[i] by {
        let at = lemma_sample_position(i, pixels, channels, width);
        assert(first.data[sample_offset(at.0, at.1, at.2, channels, width)] == le_byte(
            decoded_sample(layer, shape, at.0, at.1),
            at.2,
        ));
        assert(second.data[sample_offset(at.0, at.1, at.2, channels, width)] == le_byte(
            decoded_sample(layer, shape, at.0, at.1),
            at.2,
        ));
    }
    assert(first.data =~= second.data);
}

/// The little-endian bytes of the value read from four bytes are those
/// bytes.
pub proof fn lemma_le_u32_bytes(b0: u8, b1: u8, b2: u8, b3: u8)
    ensures
        le_byte(le_u32(b0, b1, b2, b3), 0) == b0,
        le_byte(le_u32(b0, b1, b2, b3), 1) == b1,
        le_byte(le_u32(b0, b1, b2, b3), 2) == b2,
        le_byte(le_u32(b0, b1, b2, b3), 3) == b3,
{
    let v = le_u32(b0, b1, b2, b3);
    assert((v & 0xff) as u8 == b0 && ((v >> 8) & 0xff) as u8 == b1 && ((v >> 16) & 0xff) as u8
        == b2 && ((v >> 24) & 0xff) as u8 == b3) by (bit_vector)
        requires
            v == (b0 as u32) | ((b1 as u32) << 8) | ((b2 as u32) << 16) | ((b3 as u32) << 24),
    ;
}

/// The little-endian bytes of the value read from two bytes are those
/// bytes.
pub proof fn lemma_le_u16_bytes(b0: u8, b1: u8)
    ensures
        le_byte(le_u16(b0, b1) as u32, 0) == b0,
        le_byte(le_u16(b0, b1) as u32, 1) == b1,
{
    let h = le_u16(b0, b1);
    let v = h as u32;
    assert((v & 0xff) as u8 == b0 && ((v >> 8) & 0xff) as u8 == b1) by (bit_vector)
        requires
            h == (b0 as u16) | ((b1 as u16) << 8),
            v == h as u32,
    ;
}

/// Which channel of the image feeds channel `c` of the layout when the
/// image is written and read back: the same for red-first and luminance
/// layouts, the one from the other end for red and blue of blue-first ones.
pub open spec fn round_trip_source(format: PixelFormat, c: int) -> int {
    if format.blue_first() && c == 0 {
        2
    } else if format.blue_first() && c == 2 {
        0
    } else {
        c
    }
}

/// Writing an image of half or single floats as a layer and reading the
/// layer back gives the image again: the same size and sample kind, and
/// every sample bit for bit. A red-first or luminance layout comes back as
/// it is; a blue-first layout comes back as its red-first counterpart, each
/// pixel's red and blue samples in their new places.
pub proof fn lemma_layer_round_trip(image: ImageView, layer: LayerView, back: ImageView)
    requires
        image.wf(),
        image.component_type == ComponentType::F16 || image.component_type == ComponentType::F32,
        is_encoding(image, layer),
        decode_shape(layer) matches Ok(shape) && is_decoding(layer, shape, back),
    ensures
        back.width == image.width,
        back.height == image.height,
        back.component_type == image.component_type,
        back.pixel_format == (if image.pixel_format.blue_first() {
            image.pixel_format.swapped()
        } else {
            image.pixel_format
        }),
        back.data.len() == image.data.len(),
        forall|p: int, c: int, k: int|
            0 <= p < image.width * image.height && 0 <= c < image.pixel_format.channels() && 0
                <= k < image.component_type.byte_width() ==> #[trigger] back.data[sample_offset(
                p,
                c,
                k,
                image.pixel_format.channels() as int,
                image.component_type.byte_width() as int,
            )] == image.data[sample_offset(
                p,
                round_trip_source(image.pixel_format, c),
                k,
                image.pixel_format.channels() as int,
                image.component_type.byte_width() as int,
            )],
        !image.pixel_format.blue_first() ==> back == image,
{
    let format = image.pixel_format;
    let plan = encode_plan(format);
    let channels = format.channels() as int;
    let width = image.component_type.byte_width() as int;
    let pixels = (image.width * image.height) as int;
    let shape = decode_shape(layer)->Ok_0;
    lemma_written_shape(image, layer);
    assert(image.data.len() == pixels * channels * width) by (nonlinear_arith)
        requires
            image.data.len() == image.width * image.height * channels * width,
            pixels == image.width * image.height,
    ;
    assert forall|p: int, c: int, k: int|
        0 <= p < pixels && 0 <= c < channels && 0 <= k < width implies #[trigger] back.data[sample_offset(
        p,
        c,
        k,
        channels,
        width,
    )] == image.data[sample_offset(p, round_trip_source(format, c), k, channels, width)] by {
        let pick = shape.picks[c];
        let source = round_trip_source(format, c);
        assert(plan[pick].1 == source);
        let samples = layer.channels[pick].samples;
        assert(decoded_sample(layer, shape, p, c) == samples.native(p));
        let start = sample_offset(p, source, 0, channels, width);
        assert(samples.native(p) == sample_at(image.data, start, width));
        assert(sample_offset(p, source, k, channels, width) == start + k);
        if width == 2 {
            lemma_le_u16_bytes(image.data[start], image.data[start + 1]);
        } else {
            lemma_le_u32_bytes(
                image.data[start],
                image.data[start + 1],
                image.data[start + 2],
                image.data[start + 3],
            );
        }
    }
    if !format.blue_first() {
        assert forall|i: int| 0 <= i < image.data.len() implies back.data[i] == image.data[i] by {
            let at = lemma_sample_position(i, pixels, channels, width);
            assert(back.data[sample_offset(at.0, at.1, at.2, channels, width)] == image.data[sample_offset(
                at.0,
                round_trip_source(format, at.1),
                at.2,
                channels,
                width,
            )]);
        }
        assert(back.data =~= image.data);
    }
}

/// The shape that a written layer is read with: the layout's red-first or
/// luminance form, fed by the written channels in the layout's order, and
/// the image's sample kind, unconverted.
proof fn lemma_written_shape(image: ImageView, layer: LayerView)
    requires
        image.wf(),
        image.component_type == ComponentType::F16 || image.component_type == ComponentType::F32,
        is_encoding(image, layer),
    ensures
        decode_shape(layer) matches Ok(shape) && shape.component == image.component_type
            && !shape.forced && shape.format == (if image.pixel_format.blue_first() {
            image.pixel_format.swapped()
        } else {
            image.pixel_format
        }) && shape.picks.len() == image.pixel_format.channels() && forall|c: int|
            0 <= c < image.pixel_format.channels() ==> 0 <= #[trigger] shape.picks[c]
                < image.pixel_format.channels() && encode_plan(image.pixel_format)[shape.picks[c]].1
                == round_trip_source(image.pixel_format, c),
{
    let format = image.pixel_format;
    let plan = encode_plan(format);
    let list = layer.channels;
    lemma_position(list, seq![NAME_R]);
    lemma_position(list, seq![NAME_G]);
    lemma_position(list, seq![NAME_B]);
    lemma_position(list, seq![NAME_A]);
    lemma_position(list, seq![NAME_Y]);
    lemma_distinct_names();
    assert forall|i: int| 0 <= i < plan.len() implies (#[trigger] list[i]).name == seq![plan[i].0] by {}
    match format {
        PixelFormat::R => {
            assert(list[0].name == seq![NAME_Y]);
        },
        PixelFormat::RG => {
            assert(list[0].name == seq![NAME_A]);
            assert(list[1].name == seq![NAME_Y]);
        },
        PixelFormat::RGB | PixelFormat::BGR => {
            assert(list[0].name == seq![NAME_B]);
            assert(list[1].name == seq![NAME_G]);
            assert(list[2].name == seq![NAME_R]);
        },
        PixelFormat::RGBA | PixelFormat::BGRA => {
            assert(list[0].name == seq![NAME_A]);
            assert(list[1].name == seq![NAME_B]);
            assert(list[2].name == seq![NAME_G]);
            assert(list[3].name == seq![NAME_R]);
        },
    }
    let (wanted, picks) = channel_plan(list)->0;
    assert(same_kind(list, picks));
    let (component, forced) = unified_kind(list, picks);
    assert(component == image.component_type && !forced);
    assert(buffer_len(layer.width, layer.height, wanted, component) == image.data.len());
    assert forall|i: int| 0 <= i < picks.len() implies (#[trigger] list[picks[i]]).samples.len()
        == layer.width * layer.height by {}
    assert(sizes_fit(layer, wanted, picks, component));
}

/// The five channel names differ from each other.
proof fn lemma_distinct_names()
    ensures
        seq![NAME_R] != seq![NAME_G],
        seq![NAME_R] != seq![NAME_B],
        seq![NAME_R] != seq![NAME_A],
        seq![NAME_R] != seq![NAME_Y],
        seq![NAME_G] != seq![NAME_B],
        seq![NAME_G] != seq![NAME_A],
        seq![NAME_G] != seq![NAME_Y],
        seq![NAME_B] != seq![NAME_A],
        seq![NAME_B] != seq![NAME_Y],
        seq![NAME_A] != seq![NAME_Y],
{
    assert(seq![NAME_R][0] == NAME_R);
    assert(seq![NAME_G][0] == NAME_G);
    assert(seq![NAME_B][0] == NAME_B);
    assert(seq![NAME_A][0] == NAME_A);
    assert(seq![NAME_Y][0] == NAME_Y);
}

} // verus!
