use vstd::prelude::*;

verus! {

/// A single-precision real number carried as its IEEE-754 bit pattern.
///
/// The library never does arithmetic on reals: it stores them, copies them,
/// compares their bit patterns and hands them on.
#[derive(Clone, Copy, Debug, PartialEq, Eq, Structural)]
pub struct Scalar {
    pub bits: u32,
}

/// A pair of reals.
#[derive(Clone, Copy, Debug, PartialEq, Eq, Structural)]
pub struct Vec2 {
    pub x: Scalar,
    pub y: Scalar,
}

/// A triple of reals: a position, a rotation in Euler angles, or a scale.
#[derive(Clone, Copy, Debug, PartialEq, Eq, Structural)]
pub struct Vec3 {
    pub x: Scalar,
    pub y: Scalar,
    pub z: Scalar,
}

/// Four reals: a colour or a pair of texture corners.
#[derive(Clone, Copy, Debug, PartialEq, Eq, Structural)]
pub struct Vec4 {
    pub x: Scalar,
    pub y: Scalar,
    pub z: Scalar,
    pub w: Scalar,
}

/// Bit pattern of the real `0.0`.
pub const ZERO_BITS: u32 = 0;

/// Bit pattern of the real `0.5`.
pub const HALF_BITS: u32 = 0x3F00_0000;

/// Bit pattern of the real `1.0`.
pub const ONE_BITS: u32 = 0x3F80_0000;

impl Scalar {
    /// The real with the given bit pattern.
    pub fn from_bits(bits: u32) -> (r: Scalar)
        ensures
            r.bits == bits,
    {
        Scalar { bits }
    }

    /// The real `0.0`.
    pub fn zero() -> (r: Scalar)
        ensures
            r.bits == ZERO_BITS,
    {
        Scalar { bits: ZERO_BITS }
    }

    /// The real `1.0`.
    pub fn one() -> (r: Scalar)
        ensures
            r.bits == ONE_BITS,
    {
        Scalar { bits: ONE_BITS }
    }
}

impl Vec2 {
    /// The pair with both parts `0.0`.
    pub fn zero() -> (r: Vec2)
        ensures
            r == (Vec2 { x: Scalar { bits: ZERO_BITS }, y: Scalar { bits: ZERO_BITS } }),
    {
        Vec2 { x: Scalar::zero(), y: Scalar::zero() }
    }
}

impl Vec3 {
    /// The triple with every part equal to `s`.
    pub fn splat(s: Scalar) -> (r: Vec3)
        ensures
            r == (Vec3 { x: s, y: s, z: s }),
    {
        Vec3 { x: s, y: s, z: s }
    }
}

impl Vec4 {
    /// The quadruple with every part equal to `s`.
    pub fn splat(s: Scalar) -> (r: Vec4)
        ensures
            r == (Vec4 { x: s, y: s, z: s, w: s }),
    {
        Vec4 { x: s, y: s, z: s, w: s }
    }
}

} // verus!
