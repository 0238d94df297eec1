use vstd::prelude::*;

verus! {

/// A three-component vector whose coordinates are carried as the raw bit
/// patterns of 32-bit floats.
///
/// The mesh assembly never interprets a coordinate numerically: it only
/// copies sample points and face normals into place. Carrying the bits keeps
/// equality exact, so two assemblies from the same samples are bit-identical.
#[derive(Clone, Copy, PartialEq, Eq, Structural, Debug)]
pub struct Vec3Bits {
    pub x: u32,
    pub y: u32,
    pub z: u32,
}

impl Vec3Bits {
    /// Packs three coordinate bit patterns into a vector.
    pub fn new(x: u32, y: u32, z: u32) -> (v: Vec3Bits)
        ensures
            v == (Vec3Bits { x, y, z }),
    {
        Vec3Bits { x, y, z }
    }
}

} // verus!
