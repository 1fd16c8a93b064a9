use vstd::prelude::*;

verus! {

/// Channel layout of a pixel.
///
/// `BGR` and `BGRA` are byte-level transpositions of `RGB` and `RGBA`: the
/// first and third channel change places, nothing else differs.
#[derive(Debug, Clone, Copy, PartialEq, Eq, Hash, Structural)]
pub enum PixelFormat {
    /// One channel (luminance).
    R,
    /// Two channels (luminance, alpha).
    RG,
    /// Three channels (red, green, blue).
    RGB,
    /// Four channels (red, green, blue, alpha).
    RGBA,
    /// Three channels (blue, green, red).
    BGR,
    /// Four channels (blue, green, red, alpha).
    BGRA,
}

impl PixelFormat {
    /// Number of channels of the layout.
    pub open spec fn channels(self) -> nat {
        match self {
            PixelFormat::R => 1,
            PixelFormat::RG => 2,
            PixelFormat::RGB | PixelFormat::BGR => 3,
            PixelFormat::RGBA | PixelFormat::BGRA => 4,
        }
    }

    /// Whether the layout carries an alpha channel.
    pub open spec fn alpha(self) -> bool {
        self == PixelFormat::RG || self == PixelFormat::RGBA || self == PixelFormat::BGRA
    }

    /// Whether the first and third channel are stored blue-first.
    pub open spec fn blue_first(self) -> bool {
        self == PixelFormat::BGR || self == PixelFormat::BGRA
    }

    /// Whether the first and third channel are stored red-first.
    pub open spec fn red_first(self) -> bool {
        self == PixelFormat::RGB || self == PixelFormat::RGBA
    }

    /// The layout with red and blue exchanged; layouts without both are
    /// their own counterpart.
    pub open spec fn swapped(self) -> PixelFormat {
        match self {
            PixelFormat::RGB => PixelFormat::BGR,
            PixelFormat::BGR => PixelFormat::RGB,
            PixelFormat::RGBA => PixelFormat::BGRA,
            PixelFormat::BGRA => PixelFormat::RGBA,
            other => other,
        }
    }

    /// Number of channels in this pixel format.
    pub fn channel_count(&self) -> (n: usize)
        ensures
            n == self.channels(),
    {
        match self {
            PixelFormat::R => 1,
            PixelFormat::RG => 2,
            PixelFormat::RGB | PixelFormat::BGR => 3,
            PixelFormat::RGBA | PixelFormat::BGRA => 4,
        }
    }

    /// Whether the format has an alpha channel.
    pub fn has_alpha(&self) -> (b: bool)
        ensures
            b == self.alpha(),
    {
        matches!(self, PixelFormat::RG | PixelFormat::RGBA | PixelFormat::BGRA)
    }
}

/// Exchanging red and blue changes neither the channel count nor the alpha
/// flag, and doing it twice gives the layout back.
pub proof fn lemma_swapped_layout(format: PixelFormat)
    ensures
        format.swapped().channels() == format.channels(),
        format.swapped().alpha() == format.alpha(),
        format.swapped().swapped() == format,
{
}

} // verus!
