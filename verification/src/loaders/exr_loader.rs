use crate::component_type::ComponentType;
use crate::error::ImageError;
use crate::image::{buffer_len, required_len, Image, ImageView};
use crate::image_format::{
    detected_format, exr_signature, has_prefix, lemma_detection, ImageFormat,
};
use crate::loaders::exr_model::{
    le_byte, le_u16, le_u32, lemma_sample_offset, sample_offset, single_from_half,
    single_from_uint, ChannelView, ExrChannel, ExrLayer, ExrSamples, LayerView, SampleKind,
    SamplesView,
};
use crate::pixel_format::PixelFormat;
use exr::image::read::read;
use exr::image::write::WritableImage;
use exr::image::{AnyChannel, AnyChannels, Encoding, FlatSamples, Layer};
use exr::io::Data;
use exr::math::Vec2;
use exr::meta::attribute::{IntegerBounds, Text};
use exr::meta::header::{ImageAttributes, LayerAttributes};
use exr::prelude::{ReadChannels, ReadLayers};
use std::io::Cursor;
use vstd::prelude::*;

verus! {

/// Name of the red channel.
pub const NAME_R: u8 = 0x52;

/// Name of the green channel.
pub const NAME_G: u8 = 0x47;

/// Name of the blue channel.
pub const NAME_B: u8 = 0x42;

/// Name of the alpha channel.
pub const NAME_A: u8 = 0x41;

/// Name of the luminance channel.
pub const NAME_Y: u8 = 0x59;

/// Index of the first channel called `name`, if there is one.
pub open spec fn position(channels: Seq<ChannelView>, name: Seq<u8>) -> Option<int>
    decreases channels.len(),
{
    if channels.len() == 0 {
        None
    } else {
        match position(channels.drop_last(), name) {
            Some(i) => Some(i),
            None => if channels.last().name == name {
                Some(channels.len() - 1)
            } else {
                None
            },
        }
    }
}

/// `position` gives the least index whose channel has the name, and `None`
/// exactly where no channel has it.
pub proof fn lemma_position(channels: Seq<ChannelView>, name: Seq<u8>)
    ensures
        match position(channels, name) {
            Some(i) => 0 <= i < channels.len() && channels[i].name == name && forall|j: int|
                0 <= j < i ==> channels[j].name != name,
            None => forall|j: int| 0 <= j < channels.len() ==> channels[j].name != name,
        },
    decreases channels.len(),
{
    if channels.len() > 0 {
        let front = channels.drop_last();
        lemma_position(front, name);
        assert forall|j: int| 0 <= j < front.len() implies front[j] == channels[j] by {}
        match position(front, name) {
            Some(i) => {
                assert(front[i] == channels[i]);
            },
            None => {
                assert forall|j: int| 0 <= j < front.len() implies channels[j].name != name by {
                    assert(front[j].name != name);
                }
            },
        }
    }
}

/// The pixel layout that a channel list stands for, with the indices of the
/// channels that feed it, in the order of the layout's channels. Of the
/// names R, G, B, A and Y, only these sets stand for a layout, tried in this
/// order:
/// R, G, B and A, whatever else, give RGBA;
/// R, G and B without A give RGB;
/// A and Y, without all of R, G and B, give RG from Y and A;
/// Y without any of R, G, B and A gives R from Y;
/// R and A without any of G, B and Y give RG from R and A;
/// R without any of G, B, A and Y gives R.
/// Any other set stands for none: no channel that is there is passed over
/// to make a smaller layout fit.
pub open spec fn channel_plan(channels: Seq<ChannelView>) -> Option<(PixelFormat, Seq<int>)> {
    let r = position(channels, seq![NAME_R]);
    let g = position(channels, seq![NAME_G]);
    let b = position(channels, seq![NAME_B]);
    let a = position(channels, seq![NAME_A]);
    let y = position(channels, seq![NAME_Y]);
    if r is Some && g is Some && b is Some && a is Some {
        Some((PixelFormat::RGBA, seq![r->0, g->0, b->0, a->0]))
    } else if r is Some && g is Some && b is Some {
        Some((PixelFormat::RGB, seq![r->0, g->0, b->0]))
    } else if a is Some && y is Some {
        Some((PixelFormat::RG, seq![y->0, a->0]))
    } else if y is Some && r is None && g is None && b is None {
        Some((PixelFormat::R, seq![y->0]))
    } else if r is Some && a is Some && g is None && b is None {
        Some((PixelFormat::RG, seq![r->0, a->0]))
    } else if r is Some && a is None && g is None && b is None && y is None {
        Some((PixelFormat::R, seq![r->0]))
    } else {
        None
    }
}

/// Whether the picked channels all have the native kind of the first.
pub open spec fn same_kind(channels: Seq<ChannelView>, picks: Seq<int>) -> bool {
    forall|i: int|
        0 <= i < picks.len() ==> (#[trigger] channels[picks[i]]).samples.kind()
            == channels[picks[0]].samples.kind()
}

/// The sample kind of the image and whether samples are converted to single
/// precision: a shared native kind is kept, but for integers, which become
/// singles; mixed kinds all become singles.
pub open spec fn unified_kind(channels: Seq<ChannelView>, picks: Seq<int>) -> (
    ComponentType,
    bool,
) {
    if same_kind(channels, picks) {
        match channels[picks[0]].samples.kind() {
            SampleKind::F16 => (ComponentType::F16, false),
            SampleKind::F32 => (ComponentType::F32, false),
            SampleKind::U32 => (ComponentType::F32, true),
        }
    } else {
        (ComponentType::F32, true)
    }
}

/// How a layer is turned into an image.
pub ghost struct DecodeShape {
    /// Layout of the image.
    pub format: PixelFormat,
    /// For each channel of the layout, the index of the layer's channel.
    pub picks: Seq<int>,
    /// Sample kind of the image.
    pub component: ComponentType,
    /// Whether every sample is converted to single precision.
    pub forced: bool,
}

/// Why a layer cannot be turned into an image.
pub ghost enum DecodeFailure {
    /// The layer has no channel at all.
    NoChannels,
    /// No pattern of channel names is recognised.
    NoRecognizedChannels,
    /// The size is out of range, or a picked channel does not hold one
    /// sample per pixel.
    SizeMismatch,
}

/// `n` as a `u32`, the largest where it does not fit.
pub open spec fn clamp_u32(n: nat) -> u32 {
    if n <= u32::MAX {
        n as u32
    } else {
        u32::MAX
    }
}

impl DecodeFailure {
    /// Whether `error` is the error that reports this failure.
    pub open spec fn describes(self, layer: LayerView, error: ImageError) -> bool {
        match self {
            DecodeFailure::NoChannels => error matches ImageError::Other(m) && m@
                == "EXR file contains no channels"@,
            DecodeFailure::NoRecognizedChannels => error matches ImageError::UnsupportedFormat(m)
                && m@ == "No recognized channels (R/G/B/A/Y) in EXR file"@,
            DecodeFailure::SizeMismatch => error matches ImageError::InvalidDimensions {
                width,
                height,
            } && width == clamp_u32(layer.width) && height == clamp_u32(layer.height),
        }
    }
}

/// Whether the layer's size is in range and every picked channel holds one
/// sample per pixel.
pub open spec fn sizes_fit(
    layer: LayerView,
    format: PixelFormat,
    picks: Seq<int>,
    component: ComponentType,
) -> bool {
    &&& layer.width <= u32::MAX
    &&& layer.height <= u32::MAX
    &&& buffer_len(layer.width, layer.height, format, component) <= usize::MAX
    &&& forall|i: int|
        0 <= i < picks.len() ==> (#[trigger] layer.channels[picks[i]]).samples.len() == layer.width
            * layer.height
}

/// The shape of the image that a layer decodes to, or the reason why there
/// is none.
pub open spec fn decode_shape(layer: LayerView) -> Result<DecodeShape, DecodeFailure> {
    if layer.channels.len() == 0 {
        Err(DecodeFailure::NoChannels)
    } else {
        match channel_plan(layer.channels) {
            None => Err(DecodeFailure::NoRecognizedChannels),
            Some((format, picks)) => {
                let (component, forced) = unified_kind(layer.channels, picks);
                if sizes_fit(layer, format, picks, component) {
                    Ok(DecodeShape { format, picks, component, forced })
                } else {
                    Err(DecodeFailure::SizeMismatch)
                }
            },
        }
    }
}

/// The bits of the sample of pixel `p` in channel `c` of the image.
pub open spec fn decoded_sample(layer: LayerView, shape: DecodeShape, p: int, c: int) -> u32 {
    let samples = layer.channels[shape.picks[c]].samples;
    if shape.forced {
        samples.single(p)
    } else {
        samples.native(p)
    }
}

/// Whether `image` is the layer interleaved: the layer's size, the shape's
/// layout and sample kind, and each sample's bytes in little-endian order
/// at the sample's place.
pub open spec fn is_decoding(layer: LayerView, shape: DecodeShape, image: ImageView) -> bool {
    &&& image.width == layer.width
    &&& image.height == layer.height
    &&& image.pixel_format == shape.format
    &&& image.component_type == shape.component
    &&& image.data.len() == buffer_len(layer.width, layer.height, shape.format, shape.component)
    &&& forall|p: int, c: int, k: int|
        0 <= p < layer.width * layer.height && 0 <= c < shape.format.channels() && 0 <= k
            < shape.component.byte_width() ==> #[trigger] image.data[sample_offset(
            p,
            c,
            k,
            shape.format.channels() as int,
            shape.component.byte_width() as int,
        )] == le_byte(decoded_sample(layer, shape, p, c), k)
}

/// Whether `res` is what decoding the layer gives: the interleaved image
/// where the layer has a shape, else the error that reports why it has none.
pub open spec fn is_layer_outcome(layer: LayerView, res: Result<Image, ImageError>) -> bool {
    match decode_shape(layer) {
        Ok(shape) => res matches Ok(image) && image.wf() && is_decoding(layer, shape, image@),
        Err(failure) => res matches Err(error) && failure.describes(layer, error),
    }
}

/// Reads the first valid layer of an OpenEXR file.
///
/// Trusted: the body runs `exr::image::read::read()` with `no_deep_data`,
/// `largest_resolution_level`, `all_channels`, `first_valid_layer` and
/// `all_attributes` on the bytes, and copies size, channel names and samples
/// out of the codec's layer one for one, floats as their bits. The contract
/// says what the codec's validation of a header shows of every layer that
/// is read: it has at least one channel. The layer is not said to depend on
/// the bytes alone: where a file holds two blocks for one place, the one
/// that the worker threads finish last stays.
#[verifier::external_body]
pub(crate) fn exr_read(data: &[u8]) -> (res: Result<ExrLayer, exr::error::Error>)
    ensures
        res matches Ok(layer) ==> layer@.channels.len() >= 1,
{
    let image = read().no_deep_data().largest_resolution_level().all_channels()
        .first_valid_layer().all_attributes().from_buffered(Cursor::new(data))?;
    let layer = image.layer_data;
    let channels = layer.channel_data.list.into_iter().map(|c| ExrChannel {
        name: c.name.as_slice().to_vec(),
        samples: match c.sample_data {
            FlatSamples::F16(v) => ExrSamples::F16(v.iter().map(|h| h.to_bits()).collect()),
            FlatSamples::F32(v) => ExrSamples::F32(v.iter().map(|s| s.to_bits()).collect()),
            FlatSamples::U32(v) => ExrSamples::U32(v),
        },
    }).collect();
    Ok(ExrLayer { width: layer.size.0, height: layer.size.1, channels })
}

/// Index of the first channel whose name is the single byte `letter`.
fn find_channel(channels: &Vec<ExrChannel>, letter: u8) -> (found: Option<usize>)
    ensures
        match found {
            Some(i) => position(channels@.map_values(|c: ExrChannel| c@), seq![letter]) == Some(
                i as int,
            ),
            None => position(channels@.map_values(|c: ExrChannel| c@), seq![letter]) is None,
        },
{
    let ghost views = channels@.map_values(|c: ExrChannel| c@);
    let mut i: usize = 0;
    while i < channels.len()
        invariant
            i <= channels.len(),
            views == channels@.map_values(|c: ExrChannel| c@),
            forall|j: int| 0 <= j < i ==> views[j].name != seq![letter],
        decreases channels.len() - i,
    {
        let name = &channels[i].name;
        if name.len() == 1 && name[0] == letter {
            proof {
                assert(views[i as int].name =~= seq![letter]);
                lemma_position(views, seq![letter]);
            }
            return Some(i);
        }
        proof {
            assert(views[i as int].name == name@);
            if name@ == seq![letter] {
                assert(name@.len() == 1);
                assert(name@[0] == letter);
            }
        }
        i = i + 1;
    }
    proof {
        lemma_position(views, seq![letter]);
    }
    None
}

/// The layout that the channel names stand for, and the channels that feed
/// it.
fn plan_channels(channels: &Vec<ExrChannel>) -> (plan: Option<(PixelFormat, Vec<usize>)>)
    ensures
        match plan {
            Some((format, picks)) => channel_plan(channels@.map_values(|c: ExrChannel| c@))
                == Some((format, picks@.map_values(|i: usize| i as int))),
            None => channel_plan(channels@.map_values(|c: ExrChannel| c@)) is None,
        },
{
    let r = find_channel(channels, NAME_R);
    let g = find_channel(channels, NAME_G);
    let b = find_channel(channels, NAME_B);
    let a = find_channel(channels, NAME_A);
    let y = find_channel(channels, NAME_Y);
    let plan = match (r, g, b, a, y) {
        (Some(r), Some(g), Some(b), Some(a), _) => Some((PixelFormat::RGBA, vec![r, g, b, a])),
        (Some(r), Some(g), Some(b), None, _) => Some((PixelFormat::RGB, vec![r, g, b])),
        (_, _, _, Some(a), Some(y)) => Some((PixelFormat::RG, vec![y, a])),
        (None, None, None, None, Some(y)) => Some((PixelFormat::R, vec![y])),
        (Some(r), None, None, Some(a), None) => Some((PixelFormat::RG, vec![r, a])),
        (Some(r), None, None, None, None) => Some((PixelFormat::R, vec![r])),
        _ => None,
    };
    proof {
        if let Some((format, ref picks)) = plan {
            let wanted = channel_plan(channels@.map_values(|c: ExrChannel| c@))->0;
            assert(picks@.map_values(|i: usize| i as int) =~= wanted.1);
        }
    }
    plan
}

/// Native kind of a sample array.
fn kind_of(samples: &ExrSamples) -> (kind: SampleKind)
    ensures
        kind == samples@.kind(),
{
    match samples {
        ExrSamples::F16(_) => SampleKind::F16,
        ExrSamples::F32(_) => SampleKind::F32,
        ExrSamples::U32(_) => SampleKind::U32,
    }
}

/// Number of samples of a sample array.
fn count_of(samples: &ExrSamples) -> (n: usize)
    ensures
        n == samples@.len(),
{
    match samples {
        ExrSamples::F16(v) => v.len(),
        ExrSamples::F32(v) => v.len(),
        ExrSamples::U32(v) => v.len(),
    }
}

/// The bits of sample `i`: as stored, or converted to single precision.
fn bits_of(samples: &ExrSamples, i: usize, forced: bool) -> (bits: u32)
    requires
        i < samples@.len(),
    ensures
        bits == (if forced {
            samples@.single(i as int)
        } else {
            samples@.native(i as int)
        }),
{
    match samples {
        ExrSamples::F16(v) => if forced {
            single_from_half(v[i])
        } else {
            v[i] as u32
        },
        ExrSamples::F32(v) => v[i],
        ExrSamples::U32(v) => if forced {
            single_from_uint(v[i])
        } else {
            v[i]
        },
    }
}

/// The sample kind that the picked channels agree on.
fn unify_kinds(channels: &Vec<ExrChannel>, picks: &Vec<usize>) -> (unified: (ComponentType, bool))
    requires
        picks@.len() > 0,
        forall|i: int| 0 <= i < picks@.len() ==> picks@[i] < channels@.len(),
    ensures
        unified == unified_kind(
            channels@.map_values(|c: ExrChannel| c@),
            picks@.map_values(|i: usize| i as int),
        ),
{
    let ghost views = channels@.map_values(|c: ExrChannel| c@);
    let ghost indices = picks@.map_values(|i: usize| i as int);
    let first = kind_of(&channels[picks[0]].samples);
    let mut same = true;
    let mut i: usize = 1;
    while i < picks.len()
        invariant
            1 <= i <= picks@.len(),
            views == channels@.map_values(|c: ExrChannel| c@),
            indices == picks@.map_values(|i: usize| i as int),
            forall|j: int| 0 <= j < picks@.len() ==> picks@[j] < channels@.len(),
            first == views[indices[0]].samples.kind(),
            same <==> forall|j: int|
                0 <= j < i ==> (#[trigger] views[indices[j]]).samples.kind() == first,
        decreases picks@.len() - i,
    {
        if kind_of(&channels[picks[i]].samples) != first {
            assert(views[indices[i as int]].samples.kind() != first);
            same = false;
        }
        i = i + 1;
    }
    if same {
        match first {
            SampleKind::F16 => (ComponentType::F16, false),
            SampleKind::F32 => (ComponentType::F32, false),
            SampleKind::U32 => (ComponentType::F32, true),
        }
    } else {
        (ComponentType::F32, true)
    }
}

/// `n` as a `u32`, the largest where it does not fit.
fn clamp_to_u32(n: usize) -> (m: u32)
    ensures
        m == clamp_u32(n as nat),
{
    if n > u32::MAX as usize {
        u32::MAX
    } else {
        n as u32
    }
}

/// Whether every picked channel holds `pixels` samples.
fn counts_match(channels: &Vec<ExrChannel>, picks: &Vec<usize>, pixels: usize) -> (ok: bool)
    requires
        forall|i: int| 0 <= i < picks@.len() ==> picks@[i] < channels@.len(),
    ensures
        ok <==> forall|i: int|
            0 <= i < picks@.len() ==> (#[trigger] channels@[picks@[i] as int])@.samples.len()
                == pixels,
{
    let mut i: usize = 0;
    while i < picks.len()
        invariant
            i <= picks@.len(),
            forall|j: int| 0 <= j < picks@.len() ==> picks@[j] < channels@.len(),
            forall|j: int|
                0 <= j < i ==> (#[trigger] channels@[picks@[j] as int])@.samples.len() == pixels,
        decreases picks@.len() - i,
    {
        if count_of(&channels[picks[i]].samples) != pixels {
            return false;
        }
        i = i + 1;
    }
    true
}

/// Turns one flat layer into the canonical image.
///
/// The channel names decide the layout, by the first pattern that matches:
/// R,G,B,A gives RGBA; R,G,B gives RGB; Y,A gives RG; Y gives R; R,A gives
/// RG; R gives R. Channels of one native kind keep it (integers become
/// singles); mixed kinds all become singles. The samples are interleaved in
/// little-endian byte order.
pub fn decode_layer(layer: &ExrLayer) -> (res: Result<Image, ImageError>)
    ensures
        is_layer_outcome(layer@, res),
{
    let ghost views = layer@.channels;
    if layer.channels.len() == 0 {
        return Err(ImageError::Other("EXR file contains no channels".to_string()));
    }
    let (format, picks) = match plan_channels(&layer.channels) {
        Some(plan) => plan,
        None => {
            return Err(
                ImageError::UnsupportedFormat(
                    "No recognized channels (R/G/B/A/Y) in EXR file".to_string(),
                ),
            );
        },
    };
    let ghost indices = picks@.map_values(|i: usize| i as int);
    proof {
        lemma_plan_in_range(views);
        assert forall|i: int| 0 <= i < picks@.len() implies picks@[i] < layer.channels@.len() by {
            assert(indices[i] == picks@[i]);
        }
    }
    let (component, forced) = unify_kinds(&layer.channels, &picks);
    let bad_size = Err(
        ImageError::InvalidDimensions {
            width: clamp_to_u32(layer.width),
            height: clamp_to_u32(layer.height),
        },
    );
    if layer.width > u32::MAX as usize || layer.height > u32::MAX as usize {
        return bad_size;
    }
    let width = layer.width as u32;
    let height = layer.height as u32;
    let total = match required_len(width, height, format, component) {
        Some(n) => n,
        None => {
            return bad_size;
        },
    };
    let channels = format.channel_count();
    let bytes = component.size_bytes();
    proof {
        lemma_pixels_below_total(layer.width as int, layer.height as int, channels as int, bytes as int);
    }
    let pixels = layer.width * layer.height;
    if !counts_match(&layer.channels, &picks, pixels) {
        proof {
            assert(!sizes_fit(layer@, format, indices, component)) by {
                if sizes_fit(layer@, format, indices, component) {
                    assert forall|i: int| 0 <= i < picks@.len() implies (
                    #[trigger] layer.channels@[picks@[i] as int])@.samples.len() == pixels by {
                        assert(views[indices[i]].samples.len() == layer@.width * layer@.height);
                    }
                }
            }
        }
        return bad_size;
    }
    proof {
        assert forall|i: int| 0 <= i < indices.len() implies (#[trigger] views[indices[i]]).samples.len()
            == layer@.width * layer@.height by {
            assert(layer.channels@[picks@[i] as int]@.samples.len() == pixels);
        }
        assert(sizes_fit(layer@, format, indices, component));
    }
    let ghost shape = DecodeShape { format, picks: indices, component, forced };
    let mut out: Vec<u8> = Vec::with_capacity(total);
    let mut p: usize = 0;
    assert(sample_offset(0, 0, 0, channels as int, bytes as int) == 0) by (nonlinear_arith);
    while p < pixels
        invariant
            p <= pixels,
            pixels == layer@.width * layer@.height,
            views == layer@.channels,
            indices == picks@.map_values(|i: usize| i as int),
            shape == (DecodeShape { format, picks: indices, component, forced }),
            channels == format.channels(),
            channels == picks@.len(),
            bytes == component.byte_width(),
            bytes == 2 || bytes == 4,
            forall|i: int| 0 <= i < picks@.len() ==> picks@[i] < layer.channels@.len(),
            forall|i: int|
                0 <= i < picks@.len() ==> (#[trigger] layer.channels@[picks@[i] as int])@.samples.len()
                    == pixels,
            out@.len() == sample_offset(p as int, 0, 0, channels as int, bytes as int),
            forall|q: int, d: int, l: int|
                0 <= q < p && 0 <= d < channels && 0 <= l < bytes ==> #[trigger] out@[sample_offset(
                    q,
                    d,
                    l,
                    channels as int,
                    bytes as int,
                )] == le_byte(decoded_sample(layer@, shape, q, d), l),
        decreases pixels - p,
    {
        let mut c: usize = 0;
        while c < channels
            invariant
                p < pixels,
                c <= channels,
                pixels == layer@.width * layer@.height,
                views == layer@.channels,
                indices == picks@.map_values(|i: usize| i as int),
                shape == (DecodeShape { format, picks: indices, component, forced }),
                channels == format.channels(),
                channels == picks@.len(),
                bytes == component.byte_width(),
                bytes == 2 || bytes == 4,
                forall|i: int| 0 <= i < picks@.len() ==> picks@[i] < layer.channels@.len(),
                forall|i: int|
                    0 <= i < picks@.len() ==> (
                    #[trigger] layer.channels@[picks@[i] as int])@.samples.len() == pixels,
                out@.len() == sample_offset(p as int, c as int, 0, channels as int, bytes as int),
                forall|q: int, d: int, l: int|
                    (0 <= q < p || (q == p && d < c)) && 0 <= d < channels && 0 <= l < bytes
                        ==> #[trigger] out@[sample_offset(q, d, l, channels as int, bytes as int)]
                        == le_byte(decoded_sample(layer@, shape, q, d), l),
            decreases channels - c,
        {
            let channel = &layer.channels[picks[c]];
            assert(channel@.samples.len() == pixels);
            let bits = bits_of(&channel.samples, p, forced);
            proof {
                assert(views[indices[c as int]] == channel@);
                assert(bits == decoded_sample(layer@, shape, p as int, c as int));
            }
            let ghost before = out@;
            out.push(#[verifier::truncate] ((bits & 0xff) as u8));
            out.push(#[verifier::truncate] (((bits >> 8) & 0xff) as u8));
            if bytes == 4 {
                out.push(#[verifier::truncate] (((bits >> 16) & 0xff) as u8));
                out.push(#[verifier::truncate] (((bits >> 24) & 0xff) as u8));
            }
            proof {
                let cc = channels as int;
                let bw = bytes as int;
                let start = sample_offset(p as int, c as int, 0, cc, bw);
                assert(sample_offset(p as int, c as int + 1, 0, cc, bw) == start + bw)
                    by (nonlinear_arith)
                    requires
                        start == (p * cc + c) * bw + 0,
                        sample_offset(p as int, c as int + 1, 0, cc, bw) == (p * cc + (c + 1)) * bw
                            + 0,
                ;
                assert forall|q: int, d: int, l: int|
                    (0 <= q < p || (q == p && d < c + 1)) && 0 <= d < channels && 0 <= l
                        < bytes implies #[trigger] out@[sample_offset(q, d, l, cc, bw)] == le_byte(
                    decoded_sample(layer@, shape, q, d),
                    l,
                ) by {
                    lemma_sample_offset(q, d, l, p as int, c as int, 0, cc, bw);
                    if q == p && d == c {
                        assert(sample_offset(q, d, l, cc, bw) == start + l);
                    } else {
                        assert(sample_offset(q, d, l, cc, bw) < start);
                        assert(out@[sample_offset(q, d, l, cc, bw)] == before[sample_offset(
                            q,
                            d,
                            l,
                            cc,
                            bw,
                        )]);
                    }
                }
            }
            c = c + 1;
        }
        proof {
            let cc = channels as int;
            let bw = bytes as int;
            assert(sample_offset(p as int, cc, 0, cc, bw) == sample_offset(p as int + 1, 0, 0, cc, bw))
                by (nonlinear_arith)
                requires
                    sample_offset(p as int, cc, 0, cc, bw) == (p * cc + cc) * bw + 0,
                    sample_offset(p as int + 1, 0, 0, cc, bw) == ((p + 1) * cc + 0) * bw + 0,
            ;
        }
        p = p + 1;
    }
    proof {
        let cc = channels as int;
        let bw = bytes as int;
        assert(sample_offset(pixels as int, 0, 0, cc, bw) == buffer_len(
            layer@.width,
            layer@.height,
            format,
            component,
        )) by (nonlinear_arith)
            requires
                sample_offset(pixels as int, 0, 0, cc, bw) == (pixels * cc + 0) * bw + 0,
                pixels == layer@.width * layer@.height,
                buffer_len(layer@.width, layer@.height, format, component) == layer@.width
                    * layer@.height * cc * bw,
        ;
    }
    let image = Image::from_raw(out, width, height, format, component);
    proof {
        assert(is_decoding(layer@, shape, image@));
    }
    Ok(image)
}

/// Whether `res` is a possible outcome of loading an OpenEXR file: the
/// codec's error, or what some layer of at least one channel decodes to.
pub open spec fn is_load_exr_outcome(res: Result<Image, ImageError>) -> bool {
    res matches Err(ImageError::ExrError(_)) || exists|layer: LayerView|
        layer.channels.len() >= 1 && #[trigger] is_layer_outcome(layer, res)
}

/// Loads an OpenEXR image from the bytes of a file.
///
/// Only the first valid layer is read, at its largest resolution level; deep
/// data is an error of the codec. The layer is then decoded as
/// [`decode_layer`] says; the codec's error is handed on.
pub fn load_exr(data: &[u8]) -> (res: Result<Image, ImageError>)
    ensures
        is_load_exr_outcome(res),
        res matches Ok(image) ==> image.wf() && (image@.component_type == ComponentType::F16
            || image@.component_type == ComponentType::F32) && !image@.pixel_format.blue_first(),
        !(res matches Err(ImageError::Other(_))),
{
    match exr_read(data) {
        Ok(layer) => {
            let res = decode_layer(&layer);
            assert(is_layer_outcome(layer@, res));
            res
        },
        Err(error) => Err(ImageError::ExrError(error)),
    }
}

/// The channels that an image of the given layout is written with: names
/// and, for each, the index of the image's channel that feeds it. The list is
/// in the order of the names, as the file format asks. Blue-first layouts
/// differ from their counterparts in the indices alone.
pub open spec fn encode_plan(format: PixelFormat) -> Seq<(u8, int)> {
    match format {
        PixelFormat::R => seq![(NAME_Y, 0int)],
        PixelFormat::RG => seq![(NAME_A, 1int), (NAME_Y, 0int)],
        PixelFormat::RGB => seq![(NAME_B, 2int), (NAME_G, 1int), (NAME_R, 0int)],
        PixelFormat::RGBA => seq![(NAME_A, 3int), (NAME_B, 2int), (NAME_G, 1int), (NAME_R, 0int)],
        PixelFormat::BGR => seq![(NAME_B, 0int), (NAME_G, 1int), (NAME_R, 2int)],
        PixelFormat::BGRA => seq![(NAME_A, 3int), (NAME_B, 0int), (NAME_G, 1int), (NAME_R, 2int)],
    }
}

/// The written channels are in strictly ascending order of their names, one
/// for each channel of the layout, each fed by a channel of its own.
pub proof fn lemma_encode_plan_sorted(format: PixelFormat)
    ensures
        encode_plan(format).len() == format.channels(),
        forall|i: int, j: int|
            0 <= i < j < encode_plan(format).len() ==> (#[trigger] encode_plan(format)[i]).0 < (
            #[trigger] encode_plan(format)[j]).0,
        forall|i: int|
            0 <= i < encode_plan(format).len() ==> 0 <= (#[trigger] encode_plan(format)[i]).1
                < format.channels(),
        forall|i: int, j: int|
            0 <= i < j < encode_plan(format).len() ==> (#[trigger] encode_plan(format)[i]).1 != (
            #[trigger] encode_plan(format)[j]).1,
{
}

/// The sample that stands at `offset` in little-endian order, `width` bytes
/// wide (2 or 4).
pub open spec fn sample_at(data: Seq<u8>, offset: int, width: int) -> u32 {
    if width == 2 {
        le_u16(data[offset], data[offset + 1]) as u32
    } else {
        le_u32(data[offset], data[offset + 1], data[offset + 2], data[offset + 3])
    }
}

/// Whether `layer` is the image de-interleaved: the image's size; one channel
/// for each entry of the plan, under its name and of the image's sample
/// kind; and in each channel, for every pixel, the sample that the image
/// holds for that pixel in the channel that feeds it.
pub open spec fn is_encoding(image: ImageView, layer: LayerView) -> bool {
    let plan = encode_plan(image.pixel_format);
    let channels = image.pixel_format.channels() as int;
    let width = image.component_type.byte_width() as int;
    &&& layer.width == image.width
    &&& layer.height == image.height
    &&& layer.channels.len() == plan.len()
    &&& forall|i: int|
        0 <= i < plan.len() ==> {
            let channel = #[trigger] layer.channels[i];
            &&& channel.name == seq![plan[i].0]
            &&& channel.samples.kind() == (if image.component_type == ComponentType::F16 {
                SampleKind::F16
            } else {
                SampleKind::F32
            })
            &&& channel.samples.len() == image.width * image.height
            &&& forall|p: int|
                0 <= p < image.width * image.height ==> #[trigger] channel.samples.native(p)
                    == sample_at(image.data, sample_offset(p, plan[i].1, 0, channels, width), width)
        }
}

/// The text of the error for a sample kind that OpenEXR cannot hold.
pub open spec fn unsupported_component_text(component: ComponentType) -> Seq<char> {
    if component == ComponentType::U8 {
        "EXR does not support U8 component type, use F16 or F32"@
    } else {
        "EXR does not support U16 component type, use F16 or F32"@
    }
}

/// The largest width or height that the file format's data window admits.
pub const EXR_MAX_SIDE: u32 = 0x3fff_fffe;

/// The written channels and the image's channels that feed them.
fn plan_for(format: PixelFormat) -> (plan: Vec<(u8, usize)>)
    ensures
        plan@.len() == encode_plan(format).len(),
        forall|i: int|
            0 <= i < plan@.len() ==> (#[trigger] plan@[i]).0 == encode_plan(format)[i].0
                && plan@[i].1 == encode_plan(format)[i].1,
{
    match format {
        PixelFormat::R => vec![(NAME_Y, 0)],
        PixelFormat::RG => vec![(NAME_A, 1), (NAME_Y, 0)],
        PixelFormat::RGB => vec![(NAME_B, 2), (NAME_G, 1), (NAME_R, 0)],
        PixelFormat::RGBA => vec![(NAME_A, 3), (NAME_B, 2), (NAME_G, 1), (NAME_R, 0)],
        PixelFormat::BGR => vec![(NAME_B, 0), (NAME_G, 1), (NAME_R, 2)],
        PixelFormat::BGRA => vec![(NAME_A, 3), (NAME_B, 0), (NAME_G, 1), (NAME_R, 2)],
    }
}

/// A sample's first byte lies in the buffer with all the sample's bytes, and
/// the products on the way to its offset are no larger than the buffer.
proof fn lemma_sample_in_buffer(p: int, c: int, pixels: int, channels: int, width: int)
    requires
        0 <= p < pixels,
        0 <= c < channels,
        1 <= width,
    ensures
        0 <= p * channels <= p * channels + c < pixels * channels,
        0 <= sample_offset(p, c, 0, channels, width),
        sample_offset(p, c, 0, channels, width) + width <= pixels * channels * width,
        sample_offset(p, c, 0, channels, width) == (p * channels + c) * width,
        pixels * channels <= pixels * channels * width,
{
    assert(pixels * channels <= pixels * channels * width) by (nonlinear_arith)
        requires
            0 < pixels,
            0 < channels,
            1 <= width,
    ;
    assert(0 <= p * channels && p * channels + c < pixels * channels) by (nonlinear_arith)
        requires
            0 <= p < pixels,
            0 <= c < channels,
    ;
    let i = p * channels + c;
    let n = pixels * channels;
    assert(0 <= i * width && i * width + width <= n * width) by (nonlinear_arith)
        requires
            0 <= i < n,
            1 <= width,
    ;
}

/// The samples of one channel of an interleaved buffer, as a flat array.
fn gather_channel(
    data: &[u8],
    pixels: usize,
    channels: usize,
    source: usize,
    component: ComponentType,
) -> (samples: ExrSamples)
    requires
        component == ComponentType::F16 || component == ComponentType::F32,
        source < channels,
        data@.len() == pixels * channels * component.byte_width(),
    ensures
        samples@.kind() == (if component == ComponentType::F16 {
            SampleKind::F16
        } else {
            SampleKind::F32
        }),
        samples@.len() == pixels,
        forall|p: int|
            0 <= p < pixels ==> #[trigger] samples@.native(p) == sample_at(
                data@,
                sample_offset(p, source as int, 0, channels as int, component.byte_width() as int),
                component.byte_width() as int,
            ),
{
    let mut halves: Vec<u16> = Vec::new();
    let mut singles: Vec<u32> = Vec::new();
    let wide = match component {
        ComponentType::F16 => false,
        _ => true,
    };
    let width: usize = if wide {
        4
    } else {
        2
    };
    let total = data.len();
    let mut p: usize = 0;
    while p < pixels
        invariant
            p <= pixels,
            source < channels,
            total == data@.len(),
            width == component.byte_width(),
            wide <==> width == 4,
            !wide <==> width == 2,
            data@.len() == pixels * channels * width,
            wide ==> singles@.len() == p && halves@.len() == 0,
            !wide ==> halves@.len() == p && singles@.len() == 0,
            forall|q: int|
                0 <= q < p && wide ==> #[trigger] singles@[q] == sample_at(
                    data@,
                    sample_offset(q, source as int, 0, channels as int, 4),
                    4,
                ),
            forall|q: int|
                0 <= q < p && !wide ==> #[trigger] halves@[q] as u32 == sample_at(
                    data@,
                    sample_offset(q, source as int, 0, channels as int, 2),
                    2,
                ),
        decreases pixels - p,
    {
        proof {
            lemma_sample_in_buffer(p as int, source as int, pixels as int, channels as int, width as int);
        }
        let start = (p * channels + source) * width;
        if wide {
            let value = (data[start] as u32) | ((data[start + 1] as u32) << 8) | ((data[start
                + 2] as u32) << 16) | ((data[start + 3] as u32) << 24);
            singles.push(value);
        } else {
            let value = (data[start] as u16) | ((data[start + 1] as u16) << 8);
            halves.push(value);
        }
        p = p + 1;
    }
    if wide {
        ExrSamples::F32(singles)
    } else {
        ExrSamples::F16(halves)
    }
}

/// Whether `res` is what de-interleaving the image gives: its layer where
/// the samples are half or single floats, else the error for its sample
/// kind.
pub open spec fn is_encode_outcome(image: ImageView, res: Result<ExrLayer, ImageError>) -> bool {
    if image.component_type == ComponentType::F16 || image.component_type == ComponentType::F32 {
        res matches Ok(layer) && is_encoding(image, layer@)
    } else {
        res matches Err(ImageError::UnsupportedFormat(m)) && m@ == unsupported_component_text(
            image.component_type,
        )
    }
}

/// De-interleaves an image of half or single floats into one flat layer,
/// its channels in the order of their names. Integer samples are an error.
pub fn encode_layer(image: &Image) -> (res: Result<ExrLayer, ImageError>)
    requires
        image.wf(),
    ensures
        is_encode_outcome(image@, res),
{
    let format = image.pixel_format();
    let component = image.component_type();
    match component {
        ComponentType::F16 | ComponentType::F32 => {},
        ComponentType::U8 => {
            return Err(
                ImageError::UnsupportedFormat(
                    "EXR does not support U8 component type, use F16 or F32".to_string(),
                ),
            );
        },
        ComponentType::U16 => {
            return Err(
                ImageError::UnsupportedFormat(
                    "EXR does not support U16 component type, use F16 or F32".to_string(),
                ),
            );
        },
    }
    let channels = format.channel_count();
    let data = image.data();
    proof {
        lemma_pixels_below_total(
            image@.width as int,
            image@.height as int,
            channels as int,
            component.byte_width() as int,
        );
        lemma_encode_plan_sorted(format);
    }
    let total = data.len();
    let width = image.width() as usize;
    let height = image.height() as usize;
    let pixels = width * height;
    let plan = plan_for(format);
    let mut list: Vec<ExrChannel> = Vec::new();
    let mut i: usize = 0;
    while i < plan.len()
        invariant
            i <= plan@.len(),
            plan@.len() == encode_plan(format).len(),
            forall|j: int|
                0 <= j < plan@.len() ==> (#[trigger] plan@[j]).0 == encode_plan(format)[j].0
                    && plan@[j].1 == encode_plan(format)[j].1,
            forall|j: int|
                0 <= j < encode_plan(format).len() ==> 0 <= (#[trigger] encode_plan(format)[j]).1
                    < format.channels(),
            component == ComponentType::F16 || component == ComponentType::F32,
            component == image@.component_type,
            format == image@.pixel_format,
            channels == format.channels(),
            pixels == image@.width * image@.height,
            data@ == image@.data,
            data@.len() == pixels * channels * component.byte_width(),
            list@.len() == i,
            forall|j: int|
                0 <= j < i ==> {
                    let channel = (#[trigger] list@[j])@;
                    &&& channel.name == seq![encode_plan(format)[j].0]
                    &&& channel.samples.kind() == (if component == ComponentType::F16 {
                        SampleKind::F16
                    } else {
                        SampleKind::F32
                    })
                    &&& channel.samples.len() == pixels
                    &&& forall|p: int|
                        0 <= p < pixels ==> #[trigger] channel.samples.native(p) == sample_at(
                            data@,
                            sample_offset(
                                p,
                                encode_plan(format)[j].1,
                                0,
                                channels as int,
                                component.byte_width() as int,
                            ),
                            component.byte_width() as int,
                        )
                },
        decreases plan@.len() - i,
    {
        let (letter, source) = plan[i];
        assert(plan@[i as int].1 == encode_plan(format)[i as int].1);
        let samples = gather_channel(data, pixels, channels, source, component);
        let name: Vec<u8> = vec![letter];
        assert(name@ =~= seq![encode_plan(format)[i as int].0]);
        list.push(ExrChannel { name, samples });
        i = i + 1;
    }
    let layer = ExrLayer { width, height, channels: list };
    proof {
        assert forall|j: int| 0 <= j < encode_plan(format).len() implies {
            let channel = #[trigger] layer@.channels[j];
            &&& channel.name == seq![encode_plan(format)[j].0]
            &&& channel.samples.len() == pixels
        } by {
            assert(layer@.channels[j] == list@[j]@);
        }
    }
    Ok(layer)
}

/// The codec's flat sample array, carried through unread.
#[verifier::external_type_specification]
#[verifier::external_body]
pub struct ExFlatSamples(FlatSamples);

/// What a sample array of the codec holds, floats as their bits.
pub uninterp spec fn flat_view(samples: FlatSamples) -> SamplesView;

/// The codec's sample array for a sample array of this crate.
///
/// Trusted: the body hands each sample's little-endian bytes to
/// `exr::io::Data::read_le`, which gives the float with those bits, and
/// collects them under the variant of the same kind. The contract says that
/// the codec's array then holds the same samples.
#[verifier::external_body]
pub(crate) fn flat_samples(samples: &ExrSamples) -> (res: Result<
    FlatSamples,
    exr::error::Error,
>)
    ensures
        res matches Ok(flat) ==> flat_view(flat) == samples@,
{
    Ok(match samples {
        ExrSamples::F16(v) => FlatSamples::F16(
            v.iter().map(|b| Data::read_le(&mut &b.to_le_bytes()[..])).collect::<Result<_, _>>()?,
        ),
        ExrSamples::F32(v) => FlatSamples::F32(
            v.iter().map(|b| Data::read_le(&mut &b.to_le_bytes()[..])).collect::<Result<_, _>>()?,
        ),
        ExrSamples::U32(v) => FlatSamples::U32(v.clone()),
    })
}

/// Whether the name `first` stands before the name `second` in the order of
/// their bytes, the first byte that differs deciding and a name standing
/// before every name that it begins.
pub open spec fn name_before(first: Seq<u8>, second: Seq<u8>) -> bool
    decreases first.len(),
{
    if second.len() == 0 {
        false
    } else if first.len() == 0 {
        true
    } else if first[0] != second[0] {
        first[0] < second[0]
    } else {
        name_before(first.drop_first(), second.drop_first())
    }
}

/// Whether a list of channel names is one that the file format takes: no
/// name is empty, and each stands before all that follow it.
pub open spec fn names_ascend(names: Seq<Vec<u8>>) -> bool {
    &&& forall|i: int| 0 <= i < names.len() ==> (#[trigger] names[i])@.len() >= 1
    &&& forall|i: int, j: int|
        0 <= i < j < names.len() ==> name_before((#[trigger] names[i])@, (#[trigger] names[j])@)
}

/// The codec's description of how pixels are split up and compressed,
/// carried through unread.
#[verifier::external_type_specification]
#[verifier::external_body]
pub struct ExEncoding(Encoding);

/// The codec's write mode of run-length encoding in tiles of 64 by 64.
///
/// Trusted only to return: the body is the constant
/// `exr::image::Encoding::FAST_LOSSLESS`.
#[verifier::external_body]
pub(crate) fn fast_lossless() -> (encoding: Encoding) {
    Encoding::FAST_LOSSLESS
}

/// Writes the channels of one flat layer as an OpenEXR file.
///
/// Trusted: the body pairs each name (`Text::from_slice_unchecked`) with its
/// sample array in an `AnyChannel` without subsampling, puts them in one
/// layer of the given name and write mode, and calls `write().to_buffered`
/// on an empty vector. The `requires` leaves out what the source shows to
/// panic (an empty channel list, a channel with another number of samples
/// than pixels, sides outside the data window's range) and asks of the
/// names what the codec's validation asks: none empty, in strictly
/// ascending order. The contract says of the bytes what `MetaData`'s writer
/// shows: they begin with the four bytes of the magic number, and four
/// bytes of version follow. No more is claimed: with several blocks their
/// order in the file depends on the worker threads.
#[verifier::external_body]
pub(crate) fn exr_write(
    width: usize,
    height: usize,
    layer_name: &Vec<u8>,
    encoding: Encoding,
    quantize_linearly: bool,
    names: &Vec<Vec<u8>>,
    samples: Vec<FlatSamples>,
) -> (res: Result<Vec<u8>, exr::error::Error>)
    requires
        names@.len() == samples@.len(),
        samples@.len() > 0,
        names_ascend(names@),
        1 <= width <= EXR_MAX_SIDE,
        1 <= height <= EXR_MAX_SIDE,
        forall|i: int|
            0 <= i < samples@.len() ==> flat_view(#[trigger] samples@[i]).len() == width * height,
    ensures
        res matches Ok(bytes) ==> bytes@.len() >= 8 && has_prefix(bytes@, exr_signature()),
{
    let size = Vec2(width, height);
    let list = names.iter().zip(samples).map(|(name, sample_data)| AnyChannel {
        name: Text::from_slice_unchecked(name),
        sample_data,
        quantize_linearly,
        sampling: Vec2(1, 1),
    }).collect();
    let attributes = LayerAttributes::named(Text::from_slice_unchecked(layer_name));
    let layer_data = Layer { channel_data: AnyChannels { list }, attributes, size, encoding };
    let attributes = ImageAttributes::new(IntegerBounds::from_dimensions(size));
    let mut cursor = Cursor::new(Vec::new());
    exr::image::Image { attributes, layer_data }.write().to_buffered(&mut cursor)?;
    Ok(cursor.into_inner())
}

/// Whether `res` is a possible outcome of saving the image as OpenEXR: the
/// error for its sample kind or its size where one is due; else what the
/// codec returned, its own error or the bytes of a file, which begin with
/// the format's signature.
pub open spec fn is_save_exr_outcome(image: ImageView, res: Result<Vec<u8>, ImageError>) -> bool {
    if image.component_type == ComponentType::U8 || image.component_type == ComponentType::U16 {
        res matches Err(ImageError::UnsupportedFormat(m)) && m@ == unsupported_component_text(
            image.component_type,
        )
    } else if !(1 <= image.width <= EXR_MAX_SIDE && 1 <= image.height <= EXR_MAX_SIDE) {
        res matches Err(ImageError::InvalidDimensions { width, height }) && width == image.width
            && height == image.height
    } else {
        match res {
            Ok(bytes) => bytes@.len() >= 8 && has_prefix(bytes@, exr_signature()),
            Err(error) => error is ExrError,
        }
    }
}

/// The name of the one layer of a written file.
pub open spec fn layer_name() -> Seq<u8> {
    seq![0x6du8, 0x61u8, 0x69u8, 0x6eu8]
}

/// Saves an image as the bytes of an OpenEXR file.
///
/// Only half and single floats can be written; any other sample kind is an
/// error. Every layout is written with the channels it has, none is dropped
/// or added, in the order of the channel names, in one layer called "main",
/// run-length encoded in tiles. A side of zero, or one beyond the range of
/// the file format's data window, is an error. What the codec then returns
/// is handed on: its bytes, or its error.
pub fn save_exr(image: &Image) -> (res: Result<Vec<u8>, ImageError>)
    requires
        image.wf(),
    ensures
        is_save_exr_outcome(image@, res),
{
    let layer = match encode_layer(image) {
        Ok(layer) => layer,
        Err(error) => {
            return Err(error);
        },
    };
    let width = image.width();
    let height = image.height();
    if width < 1 || width > EXR_MAX_SIDE || height < 1 || height > EXR_MAX_SIDE {
        return Err(ImageError::InvalidDimensions { width, height });
    }
    let ghost plan = encode_plan(image@.pixel_format);
    let ghost pixels = image@.width * image@.height;
    proof {
        lemma_encode_plan_sorted(image@.pixel_format);
    }
    let mut names: Vec<Vec<u8>> = Vec::new();
    let mut samples: Vec<FlatSamples> = Vec::new();
    let mut i: usize = 0;
    while i < layer.channels.len()
        invariant
            i <= layer.channels@.len(),
            layer.channels@.len() == plan.len(),
            plan.len() >= 1,
            is_encoding(image@, layer@),
            image@.component_type == ComponentType::F16 || image@.component_type
                == ComponentType::F32,
            1 <= image@.width <= EXR_MAX_SIDE,
            1 <= image@.height <= EXR_MAX_SIDE,
            plan == encode_plan(image@.pixel_format),
            pixels == image@.width * image@.height,
            names@.len() == i,
            samples@.len() == i,
            forall|k: int| 0 <= k < i ==> (#[trigger] names@[k])@ == seq![plan[k].0],
            forall|k: int| 0 <= k < i ==> flat_view(#[trigger] samples@[k]).len() == pixels,
        decreases layer.channels@.len() - i,
    {
        let channel = &layer.channels[i];
        assert(layer@.channels[i as int] == channel@);
        match flat_samples(&channel.samples) {
            Ok(flat) => {
                let name = channel.name.clone();
                assert(name@ =~= channel.name@);
                names.push(name);
                samples.push(flat);
            },
            Err(error) => {
                return Err(ImageError::ExrError(error));
            },
        }
        i = i + 1;
    }
    proof {
        assert forall|k: int, j: int| 0 <= k < j < names@.len() implies name_before(
            (#[trigger] names@[k])@,
            (#[trigger] names@[j])@,
        ) by {
            assert(plan[k].0 < plan[j].0);
        }
    }
    let main: Vec<u8> = vec![0x6d, 0x61, 0x69, 0x6e];
    assert(main@ =~= layer_name());
    match exr_write(layer.width, layer.height, &main, fast_lossless(), false, &names, samples) {
        Ok(bytes) => Ok(bytes),
        Err(error) => Err(ImageError::ExrError(error)),
    }
}

/// What is saved as OpenEXR is detected as OpenEXR.
pub proof fn lemma_saved_exr_is_detected(image: ImageView, res: Result<Vec<u8>, ImageError>)
    requires
        is_save_exr_outcome(image, res),
        res is Ok,
    ensures
        detected_format(res->Ok_0@) == ImageFormat::Exr,
{
    lemma_detection(res->Ok_0@);
}

/// The channels of a plan are channels of the list, one per channel of the
/// layout.
pub proof fn lemma_plan_in_range(channels: Seq<ChannelView>)
    ensures
        channel_plan(channels) matches Some((format, picks)) ==> picks.len() == format.channels()
            && forall|i: int| 0 <= i < picks.len() ==> 0 <= #[trigger] picks[i] < channels.len(),
{
    lemma_position(channels, seq![NAME_R]);
    lemma_position(channels, seq![NAME_G]);
    lemma_position(channels, seq![NAME_B]);
    lemma_position(channels, seq![NAME_A]);
    lemma_position(channels, seq![NAME_Y]);
}

/// The pixel count is no more than the byte count.
proof fn lemma_pixels_below_total(width: int, height: int, channels: int, bytes: int)
    requires
        0 <= width,
        0 <= height,
        1 <= channels,
        1 <= bytes,
    ensures
        0 <= width * height <= width * height * channels * bytes,
{
    assert(0 <= width * height <= width * height * channels * bytes) by (nonlinear_arith)
        requires
            0 <= width,
            0 <= height,
            1 <= channels,
            1 <= bytes,
    ;
}

} // verus!
