use vstd::prelude::*;

verus! {

/// A map coordinate or extent, held as the IEEE-754 single-precision bit
/// pattern that the map file's number stands for.
#[derive(Clone, Copy, Debug, PartialEq, Eq, Structural)]
pub struct Coord {
    pub bits: u32,
}

/// The bit pattern is a NaN: all exponent bits set and a non-zero fraction.
pub open spec fn bits_are_nan(bits: u32) -> bool {
    (bits & 0x7fff_ffffu32) > 0x7f80_0000u32
}

/// The float that `bits` stands for compares `<= 0.0`: it is not a NaN and
/// it is either a zero of either sign or carries the sign bit.
pub open spec fn bits_at_most_zero(bits: u32) -> bool {
    !bits_are_nan(bits) && ((bits & 0x7fff_ffffu32) == 0 || bits >= 0x8000_0000u32)
}

impl Coord {
    /// Whether the coordinate compares `<= 0.0` as an `f32`.
    pub fn is_at_most_zero(self) -> (res: bool)
        ensures
            res == bits_at_most_zero(self.bits),
    {
        let magnitude = self.bits & 0x7fff_ffffu32;
        magnitude <= 0x7f80_0000u32 && (magnitude == 0 || self.bits >= 0x8000_0000u32)
    }
}

/// A position or a size in the plane, one coordinate per axis.
#[derive(Clone, Copy, Debug, PartialEq, Eq, Structural)]
pub struct Point {
    pub x: Coord,
    pub y: Coord,
}

} // verus!
