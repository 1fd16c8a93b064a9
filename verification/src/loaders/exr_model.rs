use vstd::prelude::*;

verus! {

/// Native kind of the samples of one OpenEXR channel.
#[derive(Debug, Clone, Copy, PartialEq, Eq, Hash, Structural)]
pub enum SampleKind {
    /// 16-bit half-precision float.
    F16,
    /// 32-bit single-precision float.
    F32,
    /// 32-bit unsigned integer.
    U32,
}

/// The flat sample array of one channel, one sample per pixel in row-major
/// order. Floats are held as their bit patterns.
#[derive(Debug)]
pub enum ExrSamples {
    F16(Vec<u16>),
    F32(Vec<u32>),
    U32(Vec<u32>),
}

/// One named channel of a layer.
#[derive(Debug)]
pub struct ExrChannel {
    /// The channel's name, as the bytes that the file holds.
    pub name: Vec<u8>,
    /// The channel's samples.
    pub samples: ExrSamples,
}

/// One flat layer of an OpenEXR file: what the codec hands over on reading
/// and takes on writing.
#[derive(Debug)]
pub struct ExrLayer {
    pub width: usize,
    pub height: usize,
    pub channels: Vec<ExrChannel>,
}

/// [`ExrSamples`] as a mathematical value.
pub ghost enum SamplesView {
    F16(Seq<u16>),
    F32(Seq<u32>),
    U32(Seq<u32>),
}

/// [`ExrChannel`] as a mathematical value.
pub ghost struct ChannelView {
    pub name: Seq<u8>,
    pub samples: SamplesView,
}

/// [`ExrLayer`] as a mathematical value.
pub ghost struct LayerView {
    pub width: nat,
    pub height: nat,
    pub channels: Seq<ChannelView>,
}

/// Two to the power `n`.
pub open spec fn power_of_two(n: int) -> int
    decreases n,
{
    if n <= 0 {
        1
    } else {
        2 * power_of_two(n - 1)
    }
}

/// Place of the highest bit that is set in `n`, the lowest bit counting as
/// place 0.
pub open spec fn top_bit(n: int) -> int
    decreases n,
{
    if n <= 1 {
        0
    } else {
        1 + top_bit(n / 2)
    }
}

/// The single-precision value, as bits, that the half-precision value with
/// the given bits widens to. Every half is a single, so the value is kept:
/// a normal number has its exponent rebiased from 15 to 127 and its
/// fraction moved up by 13 bits, a subnormal number is normalised, zeros
/// and infinities keep their sign, and a NaN keeps sign and payload and is
/// made quiet.
pub open spec fn half_as_single(bits: u16) -> u32 {
    let sign = bits as int / 0x8000;
    let exponent = (bits as int / 0x400) % 0x20;
    let fraction = bits as int % 0x400;
    let magnitude = if exponent == 0x1f {
        if fraction == 0 {
            0x7f80_0000
        } else if fraction >= 0x200 {
            0x7f80_0000 + fraction * 0x2000
        } else {
            0x7fc0_0000 + fraction * 0x2000
        }
    } else if exponent == 0 {
        if fraction == 0 {
            0
        } else {
            let top = top_bit(fraction);
            (103 + top) * 0x80_0000 + (fraction - power_of_two(top)) * power_of_two(23 - top)
        }
    } else {
        (exponent + 112) * 0x80_0000 + fraction * 0x2000
    };
    (sign * 0x8000_0000 + magnitude) as u32
}

/// The half with the bits `3C00` is one, and widens to the single one.
pub proof fn lemma_half_one()
    ensures
        half_as_single(0x3c00) == 0x3f80_0000,
{
}

/// The single-precision value, as bits, nearest to the given integer.
pub uninterp spec fn uint_as_single(value: u32) -> u32;

/// Widens a half-precision value to single precision, both as bits.
///
/// Trusted: the body reads the half from its two little-endian bytes with
/// `exr::io::Data::read_le` and converts it with
/// `exr::block::samples::Sample::to_f32`, which for a half is the widening of
/// the `half` crate. The contract says which single that is: the one of the
/// same value, as the crate documents the conversion to be lossless, and
/// for a NaN the one with the same sign and payload and the quiet bit set,
/// as the crate's source and the machine's instruction both give it.
#[verifier::external_body]
pub(crate) fn single_from_half(bits: u16) -> (single: u32)
    ensures
        single == half_as_single(bits),
{
    let bytes = bits.to_le_bytes();
    let half = exr::io::Data::read_le(&mut &bytes[..]).expect("two bytes are at hand");
    exr::block::samples::Sample::F16(half).to_f32().to_bits()
}

/// Converts an unsigned integer to the nearest single-precision value, as
/// bits.
///
/// Trusted: the body calls `exr::block::samples::Sample::to_f32`, which for an
/// integer sample is the numeric cast. The contract only gives that result
/// its name.
#[verifier::external_body]
pub(crate) fn single_from_uint(value: u32) -> (single: u32)
    ensures
        single == uint_as_single(value),
{
    exr::block::samples::Sample::U32(value).to_f32().to_bits()
}

impl SamplesView {
    /// Number of samples.
    pub open spec fn len(self) -> nat {
        match self {
            SamplesView::F16(s) => s.len(),
            SamplesView::F32(s) => s.len(),
            SamplesView::U32(s) => s.len(),
        }
    }

    /// Native kind of the samples.
    pub open spec fn kind(self) -> SampleKind {
        match self {
            SamplesView::F16(_) => SampleKind::F16,
            SamplesView::F32(_) => SampleKind::F32,
            SamplesView::U32(_) => SampleKind::U32,
        }
    }

    /// Sample `i` as it is stored.
    pub open spec fn native(self, i: int) -> u32 {
        match self {
            SamplesView::F16(s) => s[i] as u32,
            SamplesView::F32(s) => s[i],
            SamplesView::U32(s) => s[i],
        }
    }

    /// Sample `i` as the bits of a single-precision float: a half is widened,
    /// an integer is converted by value.
    pub open spec fn single(self, i: int) -> u32 {
        match self {
            SamplesView::F16(s) => half_as_single(s[i]),
            SamplesView::F32(s) => s[i],
            SamplesView::U32(s) => uint_as_single(s[i]),
        }
    }
}

impl View for ExrSamples {
    type V = SamplesView;

    open spec fn view(&self) -> SamplesView {
        match self {
            ExrSamples::F16(v) => SamplesView::F16(v@),
            ExrSamples::F32(v) => SamplesView::F32(v@),
            ExrSamples::U32(v) => SamplesView::U32(v@),
        }
    }
}

impl View for ExrChannel {
    type V = ChannelView;

    open spec fn view(&self) -> ChannelView {
        ChannelView { name: self.name@, samples: self.samples@ }
    }
}

impl View for ExrLayer {
    type V = LayerView;

    open spec fn view(&self) -> LayerView {
        LayerView {
            width: self.width as nat,
            height: self.height as nat,
            channels: self.channels@.map_values(|c: ExrChannel| c@),
        }
    }
}

/// Byte `k` of `bits` in little-endian order.
pub open spec fn le_byte(bits: u32, k: int) -> u8 {
    if k == 0 {
        (bits & 0xff) as u8
    } else if k == 1 {
        ((bits >> 8) & 0xff) as u8
    } else if k == 2 {
        ((bits >> 16) & 0xff) as u8
    } else {
        ((bits >> 24) & 0xff) as u8
    }
}

/// The 16-bit value whose little-endian bytes are `b0`, `b1`.
pub open spec fn le_u16(b0: u8, b1: u8) -> u16 {
    (b0 as u16) | ((b1 as u16) << 8)
}

/// The 32-bit value whose little-endian bytes are `b0` to `b3`.
pub open spec fn le_u32(b0: u8, b1: u8, b2: u8, b3: u8) -> u32 {
    (b0 as u32) | ((b1 as u32) << 8) | ((b2 as u32) << 16) | ((b3 as u32) << 24)
}

/// Where byte `k` of the sample of channel `c` of pixel `p` stands in an
/// interleaved buffer of `channels` channels of `width` bytes each.
pub open spec fn sample_offset(p: int, c: int, k: int, channels: int, width: int) -> int {
    (p * channels + c) * width + k
}

/// `sample_offset` is one-to-one on the triples within bounds, and stays
/// below the buffer's length.
pub proof fn lemma_sample_offset(
    p: int,
    c: int,
    k: int,
    q: int,
    d: int,
    l: int,
    channels: int,
    width: int,
)
    requires
        0 <= p,
        0 <= q,
        0 <= c < channels,
        0 <= d < channels,
        0 <= k < width,
        0 <= l < width,
    ensures
        sample_offset(p, c, k, channels, width) == sample_offset(q, d, l, channels, width) ==> p
            == q && c == d && k == l,
        (p < q || (p == q && c < d) || (p == q && c == d && k < l)) ==> sample_offset(
            p,
            c,
            k,
            channels,
            width,
        ) < sample_offset(q, d, l, channels, width),
        0 <= sample_offset(p, c, k, channels, width) < (p + 1) * channels * width,
{
    let i = p * channels + c;
    let j = q * channels + d;
    assert(p < q ==> i < j) by (nonlinear_arith)
        requires
            i == p * channels + c,
            j == q * channels + d,
            0 <= c < channels,
            0 <= d < channels,
    ;
    assert(q < p ==> j < i) by (nonlinear_arith)
        requires
            i == p * channels + c,
            j == q * channels + d,
            0 <= c < channels,
            0 <= d < channels,
    ;
    assert(i < j ==> i * width + k < j * width + l) by (nonlinear_arith)
        requires
            0 <= k < width,
            0 <= l < width,
    ;
    assert(j < i ==> j * width + l < i * width + k) by (nonlinear_arith)
        requires
            0 <= k < width,
            0 <= l < width,
    ;
    assert(0 <= i * width + k < (p + 1) * channels * width) by (nonlinear_arith)
        requires
            i == p * channels + c,
            0 <= p,
            0 <= c < channels,
            0 <= k < width,
    ;
}

} // verus!
