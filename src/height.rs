//! Placement of a tile's 145 height samples on its two interleaved grids.
//!
//! Samples come in groups of 17: nine corners of the 9 x 9 outer lattice,
//! then eight centres of the 8 x 8 inner grid; the last group holds only the
//! nine corners. World coordinates are the anchor minus `row` quads along one
//! axis and `column` quads along the other (half a quad more for inner
//! samples), plus the raw height vertically.
use vstd::prelude::*;

verus! {

/// Number of height samples in a tile.
pub const HEIGHT_SAMPLES: usize = 145;

/// One height sample placed on the tile's lattice. `height` holds the bits
/// of the stored IEEE-754 single-precision value.
#[derive(Clone, Copy, Debug, PartialEq, Eq, Structural)]
pub struct HeightSample {
    pub row: u32,
    pub column: u32,
    /// Whether the sample is the centre of a quad rather than a corner.
    pub inner: bool,
    pub height: u32,
}

/// The heightfield of a tile, in stored order.
#[derive(Debug)]
pub struct MCVT {
    pub heights: Vec<HeightSample>,
}

/// Where sample `i` with raw height `h` lies.
pub open spec fn sample_spec(i: int, h: u32) -> HeightSample {
    let g = i % 17;
    HeightSample {
        row: (i / 17) as u32,
        column: (if g > 8 {
            g - 9
        } else {
            g
        }) as u32,
        inner: g > 8,
        height: h,
    }
}

/// The placed samples of a list of raw heights.
pub open spec fn heightfield_spec(raw: Seq<u32>) -> Seq<HeightSample> {
    Seq::new(raw.len(), |i: int| sample_spec(i, raw[i]))
}

/// A tile's 145 raw heights give 145 samples, and the same heights always
/// give the same samples.
pub proof fn heightfield_total(raw: Seq<u32>, other: Seq<u32>)
    requires
        raw.len() == HEIGHT_SAMPLES,
        other == raw,
    ensures
        heightfield_spec(raw).len() == HEIGHT_SAMPLES,
        heightfield_spec(raw) == heightfield_spec(other),
{
}

/// Places each raw height on the lattice.
pub fn parse_heightmap(raw: &Vec<u32>) -> (r: Vec<HeightSample>)
    ensures
        r@ == heightfield_spec(raw@),
{
    let mut out: Vec<HeightSample> = Vec::new();
    let mut i: usize = 0;
    while i < raw.len()
        invariant
            i <= raw@.len(),
            out@ =~= heightfield_spec(raw@).take(i as int),
        decreases raw@.len() - i,
    {
        let g = (i % 17) as u32;
        let inner = g > 8;
        let column = if inner {
            g - 9
        } else {
            g
        };
        out.push(HeightSample { row: (i / 17) as u32, column, inner, height: raw[i] });
        i = i + 1;
        assert(out@ =~= heightfield_spec(raw@).take(i as int));
    }
    out
}

} // verus!
