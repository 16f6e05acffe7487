//! Flat record chunks: versions, headers, the tile index, string tables,
//! offset lists and placement records, and the world-table chunks.
use vstd::prelude::*;

use crate::bytes::{fits, read_u16, read_u32, u16_le, u32_array, u32_le};
use crate::shared::{c3_at, read_c3, CAaBox};
use crate::strings::{views, zero_terminated_strings, zstrings};

verus! {

/// The file format version.
#[derive(Clone, Copy, Debug, PartialEq, Eq, Structural)]
pub struct MVER {
    pub version: u32,
}

impl MVER {
    pub fn read(d: &Vec<u8>) -> (r: Option<MVER>)
        ensures
            r is Some <==> fits(d@, 0, 4),
            r matches Some(v) ==> v.version as int == u32_le(d@, 0),
    {
        match read_u32(d, 0) {
            Some(version) => Some(MVER { version }),
            None => None,
        }
    }
}

#[derive(Clone, Copy, Debug, PartialEq, Eq, Structural)]
pub enum MHDRFlags {
    NONE,
    MFBO,
    NORTHREND,
}

/// The terrain file header; only its flags are kept.
#[derive(Clone, Copy, Debug, PartialEq, Eq, Structural)]
pub struct MHDR {
    pub flags: MHDRFlags,
}

pub open spec fn mhdr_flags_spec(i: int) -> Option<MHDRFlags> {
    if i == 0 {
        Some(MHDRFlags::NONE)
    } else if i == 1 {
        Some(MHDRFlags::MFBO)
    } else if i == 2 {
        Some(MHDRFlags::NORTHREND)
    } else {
        None
    }
}

impl MHDR {
    /// `None` when the payload is short or the flags are not a known value.
    pub fn read(d: &Vec<u8>) -> (r: Option<MHDR>)
        ensures
            r is Some <==> fits(d@, 0, 4) && mhdr_flags_spec(u32_le(d@, 0)) is Some,
            r matches Some(h) ==> Some(h.flags) == mhdr_flags_spec(u32_le(d@, 0)),
    {
        let i = match read_u32(d, 0) {
            Some(i) => i,
            None => {
                return None;
            },
        };
        let flags = if i == 0 {
            MHDRFlags::NONE
        } else if i == 1 {
            MHDRFlags::MFBO
        } else if i == 2 {
            MHDRFlags::NORTHREND
        } else {
            return None;
        };
        Some(MHDR { flags })
    }
}

/// One entry of the tile index.
#[derive(Clone, Copy, Debug, PartialEq, Eq, Structural)]
pub struct MCINChunk {
    pub offset: u32,
    pub size: u32,
    pub flags: u32,
}

/// Bytes of a tile index entry.
pub const MCIN_ENTRY_SIZE: usize = 12;

/// Entries in the tile index.
pub const MCIN_ENTRIES: usize = 256;

pub open spec fn mcin_entry_at(d: Seq<u8>, p: int) -> MCINChunk {
    MCINChunk {
        offset: u32_le(d, p) as u32,
        size: u32_le(d, p + 4) as u32,
        flags: u32_le(d, p + 8) as u32,
    }
}

impl MCINChunk {
    /// Reads the entry at `p`.
    pub fn read(d: &Vec<u8>, p: usize) -> (r: Option<MCINChunk>)
        ensures
            r is Some <==> fits(d@, p as int, 12),
            r matches Some(c) ==> c == mcin_entry_at(d@, p as int),
    {
        if p > d.len() || d.len() - p < MCIN_ENTRY_SIZE {
            return None;
        }
        let offset = read_u32(d, p).unwrap();
        let size = read_u32(d, p + 4).unwrap();
        let flags = read_u32(d, p + 8).unwrap();
        Some(MCINChunk { offset, size, flags })
    }
}

/// The index of the 16 x 16 tiles of a terrain file.
#[derive(Debug)]
pub struct MCIN {
    pub chunks: Vec<MCINChunk>,
}

impl MCIN {
    pub fn read(d: &Vec<u8>) -> (r: Option<MCIN>)
        ensures
            r is Some <==> fits(d@, 0, 3072),
            r matches Some(m) ==> m.chunks@ == Seq::new(256, |k: int| mcin_entry_at(d@, 12 * k)),
    {
        if d.len() < MCIN_ENTRY_SIZE * MCIN_ENTRIES {
            return None;
        }
        let mut chunks: Vec<MCINChunk> = Vec::new();
        let mut k: usize = 0;
        while k < MCIN_ENTRIES
            invariant
                fits(d@, 0, 3072),
                k <= MCIN_ENTRIES,
                chunks@ =~= Seq::new(256, |k: int| mcin_entry_at(d@, 12 * k)).take(k as int),
            decreases MCIN_ENTRIES - k,
        {
            chunks.push(MCINChunk::read(d, MCIN_ENTRY_SIZE * k).unwrap());
            k = k + 1;
            assert(chunks@ =~= Seq::new(256, |k: int| mcin_entry_at(d@, 12 * k)).take(k as int));
        }
        Some(MCIN { chunks })
    }
}

/// Texture paths, in the order the layers refer to them.
#[derive(Debug)]
pub struct MTEX {
    pub filenames: Vec<String>,
}

/// Model paths.
#[derive(Debug)]
pub struct MMDX {
    pub filenames: Vec<String>,
}

/// Map-object paths.
#[derive(Debug)]
pub struct MWMO {
    pub filenames: Vec<String>,
}

/// Offsets of the model paths.
#[derive(Debug)]
pub struct MMID {
    pub offsets: Vec<u32>,
}

/// Offsets of the map-object paths.
#[derive(Debug)]
pub struct MWID {
    pub offsets: Vec<u32>,
}

impl MTEX {
    pub fn read(d: &Vec<u8>) -> (r: MTEX)
        ensures
            views(r.filenames@) == zstrings(d@),
    {
        MTEX { filenames: zero_terminated_strings(d) }
    }
}

impl MMDX {
    pub fn read(d: &Vec<u8>) -> (r: MMDX)
        ensures
            views(r.filenames@) == zstrings(d@),
    {
        MMDX { filenames: zero_terminated_strings(d) }
    }
}

impl MWMO {
    pub fn read(d: &Vec<u8>) -> (r: MWMO)
        ensures
            views(r.filenames@) == zstrings(d@),
    {
        MWMO { filenames: zero_terminated_strings(d) }
    }
}

/// All whole little-endian `u32`s of `d`; a partial trailing word is
/// dropped.
pub fn read_until_end(d: &Vec<u8>) -> (r: Vec<u32>)
    ensures
        r@ == u32_array(d@, 0, d@.len() / 4),
{
    crate::bytes::read_u32_array(d, 0, d.len() / 4).unwrap()
}

impl MMID {
    pub fn read(d: &Vec<u8>) -> (r: MMID)
        ensures
            r.offsets@ == u32_array(d@, 0, d@.len() / 4),
    {
        MMID { offsets: read_until_end(d) }
    }
}

impl MWID {
    pub fn read(d: &Vec<u8>) -> (r: MWID)
        ensures
            r.offsets@ == u32_array(d@, 0, d@.len() / 4),
    {
        MWID { offsets: read_until_end(d) }
    }
}

#[derive(Clone, Copy, Debug, PartialEq, Eq, Structural)]
pub enum MDDFFlags {
    NONE,
    BIODOME,
    SHRUBBERY,
}

/// One doodad placement; vectors hold single-precision bits.
#[derive(Clone, Copy, Debug, PartialEq, Eq, Structural)]
pub struct MDDFPart {
    pub name_id: u32,
    pub unique_id: u32,
    pub position: crate::shared::C3Vector,
    pub rotation: crate::shared::C3Vector,
    pub scale: u16,
    pub flags: MDDFFlags,
}

/// Bytes of a doodad placement.
pub const MDDF_PART_SIZE: usize = 36;

pub open spec fn mddf_flags_spec(i: int) -> Option<MDDFFlags> {
    if i == 0 {
        Some(MDDFFlags::NONE)
    } else if i == 1 {
        Some(MDDFFlags::BIODOME)
    } else if i == 2 {
        Some(MDDFFlags::SHRUBBERY)
    } else {
        None
    }
}

/// Whether a whole placement with known flags is stored at `p`.
pub open spec fn mddf_part_ok(d: Seq<u8>, p: int) -> bool {
    fits(d, p, 36) && mddf_flags_spec(u16_le(d, p + 34)) is Some
}

pub open spec fn mddf_part_at(d: Seq<u8>, p: int) -> MDDFPart {
    MDDFPart {
        name_id: u32_le(d, p) as u32,
        unique_id: u32_le(d, p + 4) as u32,
        position: c3_at(d, p + 8),
        rotation: c3_at(d, p + 20),
        scale: u16_le(d, p + 32) as u16,
        flags: mddf_flags_spec(u16_le(d, p + 34))->Some_0,
    }
}

/// The placements from `p` on, up to the first one that is cut short or
/// has unknown flags.
pub open spec fn mddf_parts_from(d: Seq<u8>, p: int) -> Seq<MDDFPart>
    decreases d.len() - p,
{
    if p < 0 || !mddf_part_ok(d, p) {
        Seq::empty()
    } else {
        seq![mddf_part_at(d, p)] + mddf_parts_from(d, p + 36)
    }
}

impl MDDFPart {
    /// Reads the placement at `p`.
    pub fn read(d: &Vec<u8>, p: usize) -> (r: Option<MDDFPart>)
        ensures
            r is Some <==> mddf_part_ok(d@, p as int),
            r matches Some(m) ==> m == mddf_part_at(d@, p as int),
    {
        if p > d.len() || d.len() - p < MDDF_PART_SIZE {
            return None;
        }
        let f = read_u16(d, p + 34).unwrap();
        let flags = if f == 0 {
            MDDFFlags::NONE
        } else if f == 1 {
            MDDFFlags::BIODOME
        } else if f == 2 {
            MDDFFlags::SHRUBBERY
        } else {
            return None;
        };
        Some(
            MDDFPart {
                name_id: read_u32(d, p).unwrap(),
                unique_id: read_u32(d, p + 4).unwrap(),
                position: read_c3(d, p + 8),
                rotation: read_c3(d, p + 20),
                scale: read_u16(d, p + 32).unwrap(),
                flags,
            },
        )
    }
}

/// Doodad placements.
#[derive(Debug)]
pub struct MDDF {
    pub parts: Vec<MDDFPart>,
}

impl MDDF {
    pub fn read(d: &Vec<u8>) -> (r: MDDF)
        ensures
            r.parts@ == mddf_parts_from(d@, 0),
    {
        let mut parts: Vec<MDDFPart> = Vec::new();
        let mut p: usize = 0;
        loop
            invariant
                p <= d@.len(),
                d@.len() == d.len(),
                mddf_parts_from(d@, 0) == parts@ + mddf_parts_from(d@, p as int),
            ensures
                parts@ == mddf_parts_from(d@, 0),
            decreases d@.len() - p,
        {
            match MDDFPart::read(d, p) {
                Some(m) => {
                    let ghost before = parts@;
                    parts.push(m);
                    assert(before + (seq![m] + mddf_parts_from(d@, p + 36)) =~= parts@
                        + mddf_parts_from(d@, p + 36));
                    p = p + MDDF_PART_SIZE;
                },
                None => {
                    assert(parts@ + mddf_parts_from(d@, p as int) =~= parts@);
                    break ;
                },
            }
        }
        MDDF { parts }
    }
}

#[derive(Clone, Copy, Debug, PartialEq, Eq, Structural)]
pub enum MODFFlags {
    NONE,
    DESTROYABLE,
}

/// One map-object placement; vectors hold single-precision bits.
#[derive(Clone, Copy, Debug, PartialEq, Eq, Structural)]
pub struct MODFPart {
    pub name_id: u32,
    pub unique_id: u32,
    pub position: crate::shared::C3Vector,
    pub rotation: crate::shared::C3Vector,
    pub extends: CAaBox,
    pub scale: u16,
    pub flags: MODFFlags,
    pub doodat_set: u16,
    pub name_set: u16,
}

/// Bytes of a map-object placement.
pub const MODF_PART_SIZE: usize = 64;

pub open spec fn modf_flags_spec(i: int) -> Option<MODFFlags> {
    if i == 0 {
        Some(MODFFlags::NONE)
    } else if i == 1 {
        Some(MODFFlags::DESTROYABLE)
    } else {
        None
    }
}

pub open spec fn modf_part_ok(d: Seq<u8>, p: int) -> bool {
    fits(d, p, 64) && modf_flags_spec(u16_le(d, p + 58)) is Some
}

pub open spec fn modf_part_at(d: Seq<u8>, p: int) -> MODFPart {
    MODFPart {
        name_id: u32_le(d, p) as u32,
        unique_id: u32_le(d, p + 4) as u32,
        position: c3_at(d, p + 8),
        rotation: c3_at(d, p + 20),
        extends: CAaBox { min: c3_at(d, p + 32), max: c3_at(d, p + 44) },
        scale: u16_le(d, p + 56) as u16,
        flags: modf_flags_spec(u16_le(d, p + 58))->Some_0,
        doodat_set: u16_le(d, p + 60) as u16,
        name_set: u16_le(d, p + 62) as u16,
    }
}

/// The placements from `p` on, up to the first one that is cut short or
/// has unknown flags.
pub open spec fn modf_parts_from(d: Seq<u8>, p: int) -> Seq<MODFPart>
    decreases d.len() - p,
{
    if p < 0 || !modf_part_ok(d, p) {
        Seq::empty()
    } else {
        seq![modf_part_at(d, p)] + modf_parts_from(d, p + 64)
    }
}

impl MODFPart {
    /// Reads the placement at `p`.
    pub fn read(d: &Vec<u8>, p: usize) -> (r: Option<MODFPart>)
        ensures
            r is Some <==> modf_part_ok(d@, p as int),
            r matches Some(m) ==> m == modf_part_at(d@, p as int),
    {
        if p > d.len() || d.len() - p < MODF_PART_SIZE {
            return None;
        }
        let f = read_u16(d, p + 58).unwrap();
        let flags = if f == 0 {
            MODFFlags::NONE
        } else if f == 1 {
            MODFFlags::DESTROYABLE
        } else {
            return None;
        };
        Some(
            MODFPart {
                name_id: read_u32(d, p).unwrap(),
                unique_id: read_u32(d, p + 4).unwrap(),
                position: read_c3(d, p + 8),
                rotation: read_c3(d, p + 20),
                extends: CAaBox { min: read_c3(d, p + 32), max: read_c3(d, p + 44) },
                scale: read_u16(d, p + 56).unwrap(),
                flags,
                doodat_set: read_u16(d, p + 60).unwrap(),
                name_set: read_u16(d, p + 62).unwrap(),
            },
        )
    }
}

/// Map-object placements.
#[derive(Debug)]
pub struct MODF {
    pub parts: Vec<MODFPart>,
}

impl MODF {
    pub fn read(d: &Vec<u8>) -> (r: MODF)
        ensures
            r.parts@ == modf_parts_from(d@, 0),
    {
        let mut parts: Vec<MODFPart> = Vec::new();
        let mut p: usize = 0;
        loop
            invariant
                p <= d@.len(),
                d@.len() == d.len(),
                modf_parts_from(d@, 0) == parts@ + modf_parts_from(d@, p as int),
            ensures
                parts@ == modf_parts_from(d@, 0),
            decreases d@.len() - p,
        {
            match MODFPart::read(d, p) {
                Some(m) => {
                    let ghost before = parts@;
                    parts.push(m);
                    assert(before + (seq![m] + modf_parts_from(d@, p + 64)) =~= parts@
                        + modf_parts_from(d@, p + 64));
                    p = p + MODF_PART_SIZE;
                },
                None => {
                    assert(parts@ + modf_parts_from(d@, p as int) =~= parts@);
                    break ;
                },
            }
        }
        MODF { parts }
    }
}

pub const MPHD_FLAG_UNK: u32 = 0x40;
pub const MPHD_FLAG_ADT_HAS_HEIGHT_TEXTURING: u32 = 0x80;

/// The world-table flags that tile decoding needs.
#[derive(Clone, Copy, Debug, PartialEq, Eq, Structural)]
pub struct MPHDFlags {
    /// Blend masks hold one byte per value. Set by either of two flag bits.
    pub has_height_texturing: bool,
}

pub open spec fn mphd_flags_spec(i: u32) -> MPHDFlags {
    MPHDFlags {
        has_height_texturing: i & MPHD_FLAG_ADT_HAS_HEIGHT_TEXTURING
            == MPHD_FLAG_ADT_HAS_HEIGHT_TEXTURING || i & MPHD_FLAG_UNK == MPHD_FLAG_UNK,
    }
}

impl MPHDFlags {
    pub fn from_bits(i: u32) -> (r: MPHDFlags)
        ensures
            r == mphd_flags_spec(i),
    {
        let unk = i & MPHD_FLAG_UNK == MPHD_FLAG_UNK;
        let has_height_texturing = i & MPHD_FLAG_ADT_HAS_HEIGHT_TEXTURING
            == MPHD_FLAG_ADT_HAS_HEIGHT_TEXTURING;
        MPHDFlags { has_height_texturing: has_height_texturing || unk }
    }
}

/// The world-table header.
#[derive(Clone, Copy, Debug, PartialEq, Eq, Structural)]
pub struct MPHD {
    pub version: u32,
    pub flags: MPHDFlags,
    pub _something: u32,
    pub _unused: u32,
}

impl MPHD {
    pub fn read(d: &Vec<u8>) -> (r: Option<MPHD>)
        ensures
            r is Some <==> fits(d@, 0, 16),
            r matches Some(h) ==> {
                &&& h.version as int == u32_le(d@, 0)
                &&& h.flags == mphd_flags_spec(u32_le(d@, 4) as u32)
                &&& h._something as int == u32_le(d@, 8)
                &&& h._unused as int == u32_le(d@, 12)
            },
    {
        if d.len() < 16 {
            return None;
        }
        Some(
            MPHD {
                version: read_u32(d, 0).unwrap(),
                flags: MPHDFlags::from_bits(read_u32(d, 4).unwrap()),
                _something: read_u32(d, 8).unwrap(),
                _unused: read_u32(d, 12).unwrap(),
            },
        )
    }
}

/// One cell of the world table.
#[derive(Clone, Copy, Debug, PartialEq, Eq, Structural)]
pub struct MAINTile {
    pub has_adt: u32,
    pub flag_loaded: u32,
}

/// Cells in the world table.
pub const MAIN_TILES: usize = 4096;

pub open spec fn main_tile_at(d: Seq<u8>, p: int) -> MAINTile {
    MAINTile { has_adt: u32_le(d, p) as u32, flag_loaded: u32_le(d, p + 4) as u32 }
}

/// The 64 x 64 world table.
#[derive(Debug)]
pub struct MAIN {
    pub tiles: Vec<MAINTile>,
}

impl MAIN {
    pub fn read(d: &Vec<u8>) -> (r: Option<MAIN>)
        ensures
            r is Some <==> fits(d@, 0, 32768),
            r matches Some(m) ==> m.tiles@ == Seq::new(4096, |k: int| main_tile_at(d@, 8 * k)),
    {
        if d.len() < 8 * MAIN_TILES {
            return None;
        }
        let mut tiles: Vec<MAINTile> = Vec::new();
        let mut k: usize = 0;
        while k < MAIN_TILES
            invariant
                fits(d@, 0, 32768),
                d@.len() == d.len(),
                k <= MAIN_TILES,
                tiles@ =~= Seq::new(4096, |k: int| main_tile_at(d@, 8 * k)).take(k as int),
            decreases MAIN_TILES - k,
        {
            let has_adt = read_u32(d, 8 * k).unwrap();
            let flag_loaded = read_u32(d, 8 * k + 4).unwrap();
            tiles.push(MAINTile { has_adt, flag_loaded });
            k = k + 1;
            assert(tiles@ =~= Seq::new(4096, |k: int| main_tile_at(d@, 8 * k)).take(k as int));
        }
        Some(MAIN { tiles })
    }
}

} // verus!
