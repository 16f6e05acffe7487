//! Vector types shared by several chunks. Single-precision values are held as
//! their IEEE-754 bits; the library never computes with them.
use vstd::prelude::*;

use crate::bytes::u32_le;

verus! {

/// A pair of single-precision bounds, held as their bits.
#[derive(Clone, Copy, Debug, PartialEq, Eq, Structural)]
pub struct CRange {
    pub min: u32,
    pub max: u32,
}

/// A point or direction; each coordinate holds single-precision bits.
#[derive(Clone, Copy, Debug, PartialEq, Eq, Structural)]
pub struct C3Vector {
    pub x: u32,
    pub y: u32,
    pub z: u32,
}

/// An axis-aligned box.
#[derive(Clone, Copy, Debug, PartialEq, Eq, Structural)]
pub struct CAaBox {
    pub min: C3Vector,
    pub max: C3Vector,
}

/// The vector stored at `p`: three little-endian single-precision values.
pub open spec fn c3_at(b: Seq<u8>, p: int) -> C3Vector {
    C3Vector { x: u32_le(b, p) as u32, y: u32_le(b, p + 4) as u32, z: u32_le(b, p + 8) as u32 }
}

/// Reads the vector at `p`.
pub fn read_c3(b: &Vec<u8>, p: usize) -> (r: C3Vector)
    requires
        crate::bytes::fits(b@, p as int, 12),
    ensures
        r == c3_at(b@, p as int),
{
    assert(b@.len() == b.len());
    let x = crate::bytes::read_u32(b, p).unwrap();
    let y = crate::bytes::read_u32(b, p + 4).unwrap();
    let z = crate::bytes::read_u32(b, p + 8).unwrap();
    C3Vector { x, y, z }
}

} // verus!
