use vstd::prelude::*;

verus! {

/// Storage kind of one sample of a pixel.
#[derive(Debug, Clone, Copy, PartialEq, Eq, Hash, Structural)]
pub enum ComponentType {
    /// Unsigned 8-bit integer.
    U8,
    /// Unsigned 16-bit integer.
    U16,
    /// 16-bit half-precision float, held as its bit pattern.
    F16,
    /// 32-bit single-precision float, held as its bit pattern.
    F32,
}

impl ComponentType {
    /// Width of one sample in bytes.
    pub open spec fn byte_width(self) -> nat {
        match self {
            ComponentType::U8 => 1,
            ComponentType::U16 => 2,
            ComponentType::F16 => 2,
            ComponentType::F32 => 4,
        }
    }

    /// Size in bytes of one sample of this type.
    pub fn size_bytes(&self) -> (n: usize)
        ensures
            n == self.byte_width(),
    {
        match self {
            ComponentType::U8 => 1,
            ComponentType::U16 => 2,
            ComponentType::F16 => 2,
            ComponentType::F32 => 4,
        }
    }
}

} // verus!
