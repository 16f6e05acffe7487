//! The liquid block of a terrain tile: a height range, then for each liquid
//! kind the tile has (river, ocean, magma, in that order) a 9 x 9 vertex grid,
//! then, when any kind is present, an 8 x 8 grid of active cells.
use vstd::prelude::*;

use crate::bytes::{fits, read_u32, u32_le};
use crate::shared::CRange;

verus! {

/// Vertices in one liquid grid.
pub const LIQUID_VERTS: usize = 81;

/// Cells in the activity grid.
pub const LIQUID_CELLS: usize = 64;

/// Bytes of a river or magma vertex.
pub const RIVER_VERT_SIZE: usize = 8;

/// Bytes of an ocean vertex.
pub const OCEAN_VERT_SIZE: usize = 4;

/// A river or magma vertex; `height` holds single-precision bits.
#[derive(Clone, Copy, Debug, PartialEq, Eq, Structural)]
pub struct MCLQRiverVert {
    pub depth: u8,
    pub flow_0_pct: u8,
    pub flow_1_pct: u8,
    pub filler: u8,
    pub height: u32,
}

/// An ocean vertex; its height comes from the block's range.
#[derive(Clone, Copy, Debug, PartialEq, Eq, Structural)]
pub struct MCLQOceanVert {
    pub depth: u8,
    pub foam: u8,
    pub filler: u8,
    pub wet: u8,
}

/// Which liquids a tile holds, from the tile's flags.
#[derive(Clone, Copy, Debug, PartialEq, Eq, Structural)]
pub struct LiquidFlags {
    pub river: bool,
    pub ocean: bool,
    pub magma: bool,
}

/// A decoded liquid block. Grids of kinds the tile lacks are empty.
#[derive(Debug)]
pub struct MCLQ {
    pub height: CRange,
    pub river_verts: Vec<MCLQRiverVert>,
    pub ocean_verts: Vec<MCLQOceanVert>,
    pub magma_verts: Vec<MCLQRiverVert>,
    pub tiles: Vec<u8>,
}

pub open spec fn any_liquid(f: LiquidFlags) -> bool {
    f.river || f.ocean || f.magma
}

/// Bytes of the river grid, if present.
pub open spec fn river_len(f: LiquidFlags) -> int {
    if f.river {
        648
    } else {
        0
    }
}

/// Bytes of the ocean grid, if present.
pub open spec fn ocean_len(f: LiquidFlags) -> int {
    if f.ocean {
        324
    } else {
        0
    }
}

/// Bytes of the magma grid, if present.
pub open spec fn magma_len(f: LiquidFlags) -> int {
    if f.magma {
        648
    } else {
        0
    }
}

/// Bytes of the activity grid, if present.
pub open spec fn cells_len(f: LiquidFlags) -> int {
    if any_liquid(f) {
        64
    } else {
        0
    }
}

/// Bytes of the whole block.
pub open spec fn liquid_len(f: LiquidFlags) -> int {
    8 + river_len(f) + ocean_len(f) + magma_len(f) + cells_len(f)
}

pub open spec fn river_vert_at(b: Seq<u8>, p: int) -> MCLQRiverVert {
    MCLQRiverVert {
        depth: b[p],
        flow_0_pct: b[p + 1],
        flow_1_pct: b[p + 2],
        filler: b[p + 3],
        height: u32_le(b, p + 4) as u32,
    }
}

pub open spec fn ocean_vert_at(b: Seq<u8>, p: int) -> MCLQOceanVert {
    MCLQOceanVert { depth: b[p], foam: b[p + 1], filler: b[p + 2], wet: b[p + 3] }
}

/// The 81 river-layout vertices at `p`.
pub open spec fn river_grid(b: Seq<u8>, p: int) -> Seq<MCLQRiverVert> {
    Seq::new(81, |k: int| river_vert_at(b, p + 8 * k))
}

/// The 81 ocean vertices at `p`.
pub open spec fn ocean_grid(b: Seq<u8>, p: int) -> Seq<MCLQOceanVert> {
    Seq::new(81, |k: int| ocean_vert_at(b, p + 4 * k))
}

/// `l` is the liquid block stored at `p` for the liquids in `flags`.
pub open spec fn liquid_spec(l: MCLQ, b: Seq<u8>, p: int, flags: LiquidFlags) -> bool {
    let o = p + 8 + river_len(flags);
    let m = o + ocean_len(flags);
    let c = m + magma_len(flags);
    &&& l.height.min as int == u32_le(b, p)
    &&& l.height.max as int == u32_le(b, p + 4)
    &&& l.river_verts@ == (if flags.river {
        river_grid(b, p + 8)
    } else {
        Seq::empty()
    })
    &&& l.ocean_verts@ == (if flags.ocean {
        ocean_grid(b, o)
    } else {
        Seq::empty()
    })
    &&& l.magma_verts@ == (if flags.magma {
        river_grid(b, m)
    } else {
        Seq::empty()
    })
    &&& l.tiles@ == (if any_liquid(flags) {
        b.subrange(c, c + 64)
    } else {
        Seq::empty()
    })
}

fn read_river_grid(b: &Vec<u8>, p: usize) -> (r: Vec<MCLQRiverVert>)
    requires
        fits(b@, p as int, 648),
    ensures
        r@ == river_grid(b@, p as int),
{
    let mut out: Vec<MCLQRiverVert> = Vec::new();
    let mut k: usize = 0;
    while k < LIQUID_VERTS
        invariant
            fits(b@, p as int, 648),
            b@.len() == b.len(),
            k <= LIQUID_VERTS,
            out@ =~= river_grid(b@, p as int).take(k as int),
        decreases LIQUID_VERTS - k,
    {
        let q = p + RIVER_VERT_SIZE * k;
        let height = read_u32(b, q + 4).unwrap();
        out.push(
            MCLQRiverVert {
                depth: b[q],
                flow_0_pct: b[q + 1],
                flow_1_pct: b[q + 2],
                filler: b[q + 3],
                height,
            },
        );
        k = k + 1;
        assert(out@ =~= river_grid(b@, p as int).take(k as int));
    }
    out
}

fn read_ocean_grid(b: &Vec<u8>, p: usize) -> (r: Vec<MCLQOceanVert>)
    requires
        fits(b@, p as int, 324),
    ensures
        r@ == ocean_grid(b@, p as int),
{
    let mut out: Vec<MCLQOceanVert> = Vec::new();
    let mut k: usize = 0;
    while k < LIQUID_VERTS
        invariant
            fits(b@, p as int, 324),
            b@.len() == b.len(),
            k <= LIQUID_VERTS,
            out@ =~= ocean_grid(b@, p as int).take(k as int),
        decreases LIQUID_VERTS - k,
    {
        let q = p + OCEAN_VERT_SIZE * k;
        out.push(MCLQOceanVert { depth: b[q], foam: b[q + 1], filler: b[q + 2], wet: b[q + 3] });
        k = k + 1;
        assert(out@ =~= ocean_grid(b@, p as int).take(k as int));
    }
    out
}

impl MCLQ {
    /// Decodes the liquid block at `p` for the liquids in `flags` and returns
    /// it with the position after it; `None` when the input is too short.
    pub fn read(b: &Vec<u8>, p: usize, flags: LiquidFlags) -> (r: Option<(MCLQ, usize)>)
        ensures
            r is Some <==> fits(b@, p as int, liquid_len(flags)),
            r matches Some((l, q)) ==> q == p + liquid_len(flags) && liquid_spec(l, b@, p as int, flags),
    {
        let river: usize = if flags.river {
            648
        } else {
            0
        };
        let ocean: usize = if flags.ocean {
            324
        } else {
            0
        };
        let magma: usize = if flags.magma {
            648
        } else {
            0
        };
        let cells: usize = if flags.river || flags.ocean || flags.magma {
            64
        } else {
            0
        };
        let total = 8 + river + ocean + magma + cells;
        if p > b.len() || b.len() - p < total {
            return None;
        }
        let min = read_u32(b, p).unwrap();
        let max = read_u32(b, p + 4).unwrap();
        let o = p + 8 + river;
        let m = o + ocean;
        let c = m + magma;
        let river_verts = if flags.river {
            read_river_grid(b, p + 8)
        } else {
            Vec::new()
        };
        let ocean_verts = if flags.ocean {
            read_ocean_grid(b, o)
        } else {
            Vec::new()
        };
        let magma_verts = if flags.magma {
            read_river_grid(b, m)
        } else {
            Vec::new()
        };
        let tiles = if cells > 0 {
            crate::bytes::copy_range(b, c, LIQUID_CELLS)
        } else {
            Vec::new()
        };
        Some((MCLQ { height: CRange { min, max }, river_verts, ocean_verts, magma_verts, tiles }, p + total))
    }
}

} // verus!
