//! The terrain tile chunk. Its payload starts with a fixed header whose
//! offsets locate the tile's sub-chunks, all relative to the start of the
//! payload. The blend masks are decoded with flags from three scopes: the
//! file's wide-alpha flag, the tile's edge flag and each layer's own flags.
use vstd::prelude::*;

use crate::alpha::{alpha_layer_spec, MCALLayer, MCAL};
use crate::bytes::{
    copy_range,
    fits,
    read_u16,
    read_u16_array,
    read_u32,
    read_u32_array,
    u16_array,
    u16_le,
    u32_array,
    u32_le,
};
use crate::error::{DecodeError, Subchunk};
use crate::height::{heightfield_spec, parse_heightmap, HEIGHT_SAMPLES, MCVT};
use crate::liquid::{liquid_len, liquid_spec, LiquidFlags, MCLQ};
use crate::shared::{c3_at, read_c3, C3Vector};

verus! {

/// Bytes of the tile header.
pub const MCNK_HEADER_SIZE: usize = 128;

pub const MCNK_FLAG_HAS_MCSH: u32 = 0x01;
pub const MCNK_FLAG_IMPASS: u32 = 0x02;
pub const MCNK_FLAG_LQ_RIVER: u32 = 0x04;
pub const MCNK_FLAG_LQ_OCEAN: u32 = 0x08;
pub const MCNK_FLAG_LQ_MAGMA: u32 = 0x10;
pub const MCNK_FLAG_HAS_MCCV: u32 = 0x20;
pub const MCNK_FLAG_DO_NOT_FIX_ALPHA_MAP: u32 = 0x200;

pub const MCLY_FLAG_USE_ALPHA: u32 = 0x100;
pub const MCLY_FLAG_ALPHA_COMPRESSED: u32 = 0x200;

/// Bytes of the height sub-chunk: 145 single-precision values.
pub const MCVT_SIZE: usize = 580;

/// Bytes of the normal sub-chunk: 145 three-byte entries.
pub const MCNR_SIZE: usize = 435;

/// Bytes of one texture layer entry.
pub const MCLY_ENTRY_SIZE: usize = 16;

/// Whether every bit of `m` is set in `i`.
pub open spec fn flag_set(i: u32, m: u32) -> bool {
    i & m == m
}

/// The tile-level flags.
#[derive(Clone, Copy, Debug, PartialEq, Eq, Structural)]
pub struct MCNKFlags {
    pub has_mcsh: bool,
    pub impass: bool,
    pub lq_river: bool,
    pub lq_ocean: bool,
    pub lq_magma: bool,
    pub has_mccv: bool,
    /// Leave the last row and column of the blend masks as stored.
    pub do_not_fix_alpha_map: bool,
}

pub open spec fn mcnk_flags_spec(i: u32) -> MCNKFlags {
    MCNKFlags {
        has_mcsh: flag_set(i, MCNK_FLAG_HAS_MCSH),
        impass: flag_set(i, MCNK_FLAG_IMPASS),
        lq_river: flag_set(i, MCNK_FLAG_LQ_RIVER),
        lq_ocean: flag_set(i, MCNK_FLAG_LQ_OCEAN),
        lq_magma: flag_set(i, MCNK_FLAG_LQ_MAGMA),
        has_mccv: flag_set(i, MCNK_FLAG_HAS_MCCV),
        do_not_fix_alpha_map: flag_set(i, MCNK_FLAG_DO_NOT_FIX_ALPHA_MAP),
    }
}

pub open spec fn liquid_flags_spec(f: MCNKFlags) -> LiquidFlags {
    LiquidFlags { river: f.lq_river, ocean: f.lq_ocean, magma: f.lq_magma }
}

impl MCNKFlags {
    /// Decodes the tile's flag word.
    pub fn from_bits(i: u32) -> (r: MCNKFlags)
        ensures
            r == mcnk_flags_spec(i),
    {
        MCNKFlags {
            has_mcsh: i & MCNK_FLAG_HAS_MCSH == MCNK_FLAG_HAS_MCSH,
            impass: i & MCNK_FLAG_IMPASS == MCNK_FLAG_IMPASS,
            lq_river: i & MCNK_FLAG_LQ_RIVER == MCNK_FLAG_LQ_RIVER,
            lq_ocean: i & MCNK_FLAG_LQ_OCEAN == MCNK_FLAG_LQ_OCEAN,
            lq_magma: i & MCNK_FLAG_LQ_MAGMA == MCNK_FLAG_LQ_MAGMA,
            has_mccv: i & MCNK_FLAG_HAS_MCCV == MCNK_FLAG_HAS_MCCV,
            do_not_fix_alpha_map: i & MCNK_FLAG_DO_NOT_FIX_ALPHA_MAP
                == MCNK_FLAG_DO_NOT_FIX_ALPHA_MAP,
        }
    }

    /// The liquids these flags announce.
    pub fn liquids(&self) -> (r: LiquidFlags)
        ensures
            r == liquid_flags_spec(*self),
    {
        LiquidFlags { river: self.lq_river, ocean: self.lq_ocean, magma: self.lq_magma }
    }
}

/// The per-layer flags.
#[derive(Clone, Copy, Debug, PartialEq, Eq, Structural)]
pub struct MCLYFlags {
    /// Not decoded: always `false`.
    pub animate_45: bool,
    /// Not decoded: always `false`.
    pub animate_90: bool,
    /// The layer has a blend mask.
    pub use_alpha: bool,
    /// The layer's mask is run-length coded.
    pub alpha_compressed: bool,
}

pub open spec fn mcly_flags_spec(i: u32) -> MCLYFlags {
    MCLYFlags {
        animate_45: false,
        animate_90: false,
        use_alpha: flag_set(i, MCLY_FLAG_USE_ALPHA),
        alpha_compressed: flag_set(i, MCLY_FLAG_ALPHA_COMPRESSED),
    }
}

impl MCLYFlags {
    /// Decodes a layer's flag word.
    pub fn from_bits(i: u32) -> (r: MCLYFlags)
        ensures
            r == mcly_flags_spec(i),
    {
        MCLYFlags {
            animate_45: false,
            animate_90: false,
            use_alpha: i & MCLY_FLAG_USE_ALPHA == MCLY_FLAG_USE_ALPHA,
            alpha_compressed: i & MCLY_FLAG_ALPHA_COMPRESSED == MCLY_FLAG_ALPHA_COMPRESSED,
        }
    }
}

/// One texture layer. `offset_in_mcal` is kept for reference only: masks are
/// decoded in layer order, one after the other.
#[derive(Clone, Copy, Debug, PartialEq, Eq, Structural)]
pub struct MCLYLayer {
    pub texture_id: u32,
    pub flags: MCLYFlags,
    pub offset_in_mcal: u32,
    pub effect_id: u32,
}

/// The texture layers of a tile.
#[derive(Debug)]
pub struct MCLY {
    pub layers: Vec<MCLYLayer>,
}

/// One stored normal.
#[derive(Clone, Copy, Debug, PartialEq, Eq, Structural)]
pub struct MCNREntry {
    pub x: i8,
    pub y: i8,
    pub z: i8,
}

/// The normals of a tile, one per height sample.
#[derive(Debug)]
pub struct MCNR {
    pub normals: Vec<MCNREntry>,
}

/// The doodad and map-object references of a tile.
#[derive(Debug)]
pub struct MCRF {
    pub doodad_refs: Vec<u32>,
    pub map_obj_refs: Vec<u32>,
}

pub open spec fn layer_at(b: Seq<u8>, q: int) -> MCLYLayer {
    MCLYLayer {
        texture_id: u32_le(b, q) as u32,
        flags: mcly_flags_spec(u32_le(b, q + 4) as u32),
        offset_in_mcal: u32_le(b, q + 8) as u32,
        effect_id: u32_le(b, q + 12) as u32,
    }
}

pub open spec fn layers_spec(b: Seq<u8>, p: int, n: nat) -> Seq<MCLYLayer> {
    Seq::new(n, |k: int| layer_at(b, p + 16 * k))
}

pub open spec fn normal_at(b: Seq<u8>, q: int) -> MCNREntry {
    MCNREntry { x: b[q] as i8, y: b[q + 1] as i8, z: b[q + 2] as i8 }
}

pub open spec fn normals_spec(b: Seq<u8>, p: int) -> Seq<MCNREntry> {
    Seq::new(145, |k: int| normal_at(b, p + 3 * k))
}

/// The masks of the layers from index `k` on that have alpha, decoded one
/// after the other from `pos` in the tile's alpha bytes `sub`, up to the
/// first such layer whose mask is cut short; and that layer's index, if
/// there is one.
pub open spec fn alpha_layers_spec(
    sub: Seq<u8>,
    layers: Seq<MCLYLayer>,
    k: int,
    pos: int,
    wide: bool,
    preserve_edges: bool,
) -> (Seq<Seq<u8>>, Option<u32>)
    decreases layers.len() - k,
{
    if k < 0 || k >= layers.len() {
        (Seq::empty(), None)
    } else if !layers[k].flags.use_alpha {
        alpha_layers_spec(sub, layers, k + 1, pos, wide, preserve_edges)
    } else {
        match alpha_layer_spec(sub, pos, wide, layers[k].flags.alpha_compressed, preserve_edges) {
            None => (Seq::empty(), Some(k as u32)),
            Some((m, q)) => {
                let rest = alpha_layers_spec(sub, layers, k + 1, q, wide, preserve_edges);
                (seq![m] + rest.0, rest.1)
            },
        }
    }
}

pub open spec fn masks_of(ls: Seq<MCALLayer>) -> Seq<Seq<u8>> {
    ls.map_values(|l: MCALLayer| l.alpha_map@)
}

/// Decodes the masks of the layers that have alpha, in layer order, from
/// the tile's alpha bytes, up to the first layer that is cut short; returns
/// them with that layer's index, if there is one.
pub fn decode_alpha_layers(
    sub: &Vec<u8>,
    layers: &Vec<MCLYLayer>,
    wide: bool,
    preserve_edges: bool,
) -> (r: (Vec<MCALLayer>, Option<u32>))
    requires
        layers@.len() <= u32::MAX,
    ensures
        alpha_layers_spec(sub@, layers@, 0, 0, wide, preserve_edges) == (masks_of(r.0@), r.1),
{
    let mut out: Vec<MCALLayer> = Vec::new();
    let mut pos: usize = 0;
    let mut k: usize = 0;
    while k < layers.len()
        invariant
            k <= layers@.len() <= u32::MAX,
            ({
                let rest = alpha_layers_spec(sub@, layers@, k as int, pos as int, wide, preserve_edges);
                alpha_layers_spec(sub@, layers@, 0, 0, wide, preserve_edges) == (
                    masks_of(out@) + rest.0,
                    rest.1,
                )
            }),
        decreases layers@.len() - k,
    {
        let l = layers[k];
        if l.flags.use_alpha {
            match MCALLayer::read(sub, pos, wide, l.flags.alpha_compressed, preserve_edges) {
                None => {
                    assert(masks_of(out@) + Seq::<Seq<u8>>::empty() =~= masks_of(out@));
                    return (out, Some(k as u32));
                },
                Some((m, q)) => {
                    let ghost ms = masks_of(out@);
                    let ghost mm = m.alpha_map@;
                    out.push(m);
                    pos = q;
                    assert(masks_of(out@) =~= ms + seq![mm]);
                    proof {
                        let rest = alpha_layers_spec(sub@, layers@, k + 1, pos as int, wide, preserve_edges);
                        assert(ms + (seq![mm] + rest.0) =~= (ms + seq![mm]) + rest.0);
                    }
                },
            }
        }
        k = k + 1;
    }
    assert(masks_of(out@) + Seq::<Seq<u8>>::empty() =~= masks_of(out@));
    (out, None)
}

/// A decoded terrain tile.
#[derive(Debug)]
pub struct MCNK {
    pub flags: MCNKFlags,
    pub x: u32,
    pub y: u32,
    pub n_layers: u32,
    pub n_doodad_refs: u32,
    pub ofs_height: u32,
    pub ofs_normal: u32,
    pub ofs_layer: u32,
    pub ofs_refs: u32,
    pub ofs_alpha: u32,
    pub size_alpha: u32,
    pub ofs_shadow: u32,
    pub size_shadow: u32,
    pub area_id: u32,
    pub n_map_obj_refs: u32,
    pub holes_low_res: u16,
    pub low_res_texture_map: Vec<u16>,
    pub doodad_stencil: Vec<u8>,
    pub ofs_snd_emitters: u32,
    pub n_snd_emitters: u32,
    pub ofs_liquid: u32,
    pub size_liquid: u32,
    /// The tile's world anchor.
    pub position: C3Vector,
    pub ofs_mccv: u32,
    pub mcvt: MCVT,
    pub mcnr: MCNR,
    pub mcly: MCLY,
    pub mcrf: MCRF,
    pub mcal: MCAL,
    /// The liquid block; `None` only from a lenient decode whose block was
    /// cut short.
    pub mclq: Option<MCLQ>,
}

/// The header word at byte `at` of the payload.
pub open spec fn hd(p: Seq<u8>, at: int) -> int {
    u32_le(p, at)
}

pub open spec fn tile_flags(p: Seq<u8>) -> MCNKFlags {
    mcnk_flags_spec(hd(p, 0) as u32)
}

pub open spec fn tile_layers(p: Seq<u8>) -> Seq<MCLYLayer> {
    layers_spec(p, hd(p, 28), hd(p, 12) as nat)
}

/// The alpha bytes of the tile.
pub open spec fn alpha_bytes(p: Seq<u8>) -> Seq<u8> {
    p.subrange(hd(p, 36), hd(p, 36) + hd(p, 40))
}

pub open spec fn tile_alpha(p: Seq<u8>, wide: bool) -> (Seq<Seq<u8>>, Option<u32>) {
    alpha_layers_spec(
        alpha_bytes(p),
        tile_layers(p),
        0,
        0,
        wide,
        tile_flags(p).do_not_fix_alpha_map,
    )
}

/// The first offset that fails to resolve in the tile payload `p`: the
/// header, then the height, normal, layer, reference and alpha ranges, then
/// the liquid offset; `None` when every offset resolves.
pub open spec fn offsets_error(p: Seq<u8>) -> Option<DecodeError> {
    if p.len() < 128 {
        Some(DecodeError::MalformedTile { subchunk: Subchunk::Header, offset: 0 })
    } else if !fits(p, hd(p, 20), 580) {
        Some(DecodeError::MalformedTile { subchunk: Subchunk::Height, offset: hd(p, 20) as u32 })
    } else if !fits(p, hd(p, 24), 435) {
        Some(DecodeError::MalformedTile { subchunk: Subchunk::Normal, offset: hd(p, 24) as u32 })
    } else if !fits(p, hd(p, 28), 16 * hd(p, 12)) {
        Some(DecodeError::MalformedTile { subchunk: Subchunk::Layer, offset: hd(p, 28) as u32 })
    } else if !fits(p, hd(p, 32), 4 * (hd(p, 16) + hd(p, 56))) {
        Some(DecodeError::MalformedTile { subchunk: Subchunk::Refs, offset: hd(p, 32) as u32 })
    } else if !fits(p, hd(p, 36), hd(p, 40)) {
        Some(DecodeError::MalformedTile { subchunk: Subchunk::Alpha, offset: hd(p, 36) as u32 })
    } else if hd(p, 96) > p.len() {
        Some(DecodeError::MalformedTile { subchunk: Subchunk::Liquid, offset: hd(p, 96) as u32 })
    } else {
        None
    }
}

/// Whether the liquid block of the tile payload `p` is complete.
pub open spec fn liquid_fits(p: Seq<u8>) -> bool {
    fits(p, hd(p, 96), liquid_len(liquid_flags_spec(tile_flags(p))))
}

/// The failures of a tile whose offsets resolve: the first mask that is cut
/// short, then a cut-short liquid block.
pub open spec fn content_errors(p: Seq<u8>, wide: bool) -> Seq<DecodeError> {
    let a: Seq<DecodeError> = match tile_alpha(p, wide).1 {
        Some(k) => seq![DecodeError::MalformedAlphaLayer { layer: k }],
        None => Seq::empty(),
    };
    if liquid_fits(p) {
        a
    } else {
        a.push(DecodeError::MalformedLiquid)
    }
}

/// The first failure met while decoding the tile payload `p`: an offset
/// that does not resolve, then a mask, then the liquid block; `None` when
/// there is none.
pub open spec fn tile_error(p: Seq<u8>, wide: bool) -> Option<DecodeError> {
    if offsets_error(p) is Some {
        offsets_error(p)
    } else if content_errors(p, wide).len() > 0 {
        Some(content_errors(p, wide)[0])
    } else {
        None
    }
}

/// A tile whose alpha offset points past the end of its payload is
/// rejected as malformed, before any mask is decoded.
pub proof fn alpha_offset_contained(p: Seq<u8>, wide: bool)
    requires
        hd(p, 36) > p.len(),
    ensures
        tile_error(p, wide) matches Some(DecodeError::MalformedTile { .. }),
{
}

/// The header fields of `t` are those stored in `p`.
pub open spec fn header_spec(t: MCNK, p: Seq<u8>) -> bool {
    &&& t.flags == tile_flags(p)
    &&& t.x as int == hd(p, 4)
    &&& t.y as int == hd(p, 8)
    &&& t.n_layers as int == hd(p, 12)
    &&& t.n_doodad_refs as int == hd(p, 16)
    &&& t.ofs_height as int == hd(p, 20)
    &&& t.ofs_normal as int == hd(p, 24)
    &&& t.ofs_layer as int == hd(p, 28)
    &&& t.ofs_refs as int == hd(p, 32)
    &&& t.ofs_alpha as int == hd(p, 36)
    &&& t.size_alpha as int == hd(p, 40)
    &&& t.ofs_shadow as int == hd(p, 44)
    &&& t.size_shadow as int == hd(p, 48)
    &&& t.area_id as int == hd(p, 52)
    &&& t.n_map_obj_refs as int == hd(p, 56)
    &&& t.holes_low_res as int == u16_le(p, 60)
    &&& t.low_res_texture_map@ == u16_array(p, 64, 8)
    &&& t.doodad_stencil@ == p.subrange(80, 88)
    &&& t.ofs_snd_emitters as int == hd(p, 88)
    &&& t.n_snd_emitters as int == hd(p, 92)
    &&& t.ofs_liquid as int == hd(p, 96)
    &&& t.size_liquid as int == hd(p, 100)
    &&& t.position == c3_at(p, 104)
    &&& t.ofs_mccv as int == hd(p, 116)
}

/// The sub-chunks of `t` are those that the offsets of `p` locate; the
/// masks stop before the first layer that is cut short.
pub open spec fn subchunks_spec(t: MCNK, p: Seq<u8>, wide: bool) -> bool {
    &&& t.mcvt.heights@ == heightfield_spec(u32_array(p, hd(p, 20), 145))
    &&& t.mcnr.normals@ == normals_spec(p, hd(p, 24))
    &&& t.mcly.layers@ == tile_layers(p)
    &&& t.mcrf.doodad_refs@ == u32_array(p, hd(p, 32), hd(p, 16) as nat)
    &&& t.mcrf.map_obj_refs@ == u32_array(p, hd(p, 32) + 4 * hd(p, 16), hd(p, 56) as nat)
    &&& masks_of(t.mcal.layers@) == tile_alpha(p, wide).0
    &&& (t.mclq is Some <==> liquid_fits(p))
    &&& (t.mclq matches Some(l) ==> liquid_spec(l, p, hd(p, 96), liquid_flags_spec(tile_flags(p))))
}

/// Whether `n` bytes are available in `b` at offset `ofs`.
fn range_fits(b: &Vec<u8>, ofs: u32, n: u64) -> (r: bool)
    ensures
        r == fits(b@, ofs as int, n as int),
{
    ofs as usize <= b.len() && ((b.len() - ofs as usize) as u64) >= n
}

fn read_normals(b: &Vec<u8>, p: usize) -> (r: Vec<MCNREntry>)
    requires
        fits(b@, p as int, 435),
    ensures
        r@ == normals_spec(b@, p as int),
{
    let mut out: Vec<MCNREntry> = Vec::new();
    let mut k: usize = 0;
    while k < HEIGHT_SAMPLES
        invariant
            fits(b@, p as int, 435),
            b@.len() == b.len(),
            k <= HEIGHT_SAMPLES,
            out@ =~= normals_spec(b@, p as int).take(k as int),
        decreases HEIGHT_SAMPLES - k,
    {
        let q = p + 3 * k;
        out.push(MCNREntry { x: b[q] as i8, y: b[q + 1] as i8, z: b[q + 2] as i8 });
        k = k + 1;
        assert(out@ =~= normals_spec(b@, p as int).take(k as int));
    }
    out
}

fn read_layers(b: &Vec<u8>, p: usize, n: usize) -> (r: Vec<MCLYLayer>)
    requires
        fits(b@, p as int, 16 * n),
    ensures
        r@ == layers_spec(b@, p as int, n as nat),
{
    let mut out: Vec<MCLYLayer> = Vec::new();
    let mut k: usize = 0;
    while k < n
        invariant
            fits(b@, p as int, 16 * n),
            b@.len() == b.len(),
            k <= n,
            out@ =~= layers_spec(b@, p as int, n as nat).take(k as int),
        decreases n - k,
    {
        let q = p + MCLY_ENTRY_SIZE * k;
        let texture_id = read_u32(b, q).unwrap();
        let flags = MCLYFlags::from_bits(read_u32(b, q + 4).unwrap());
        let offset_in_mcal = read_u32(b, q + 8).unwrap();
        let effect_id = read_u32(b, q + 12).unwrap();
        out.push(MCLYLayer { texture_id, flags, offset_in_mcal, effect_id });
        k = k + 1;
        assert(out@ =~= layers_spec(b@, p as int, n as nat).take(k as int));
    }
    out
}

impl MCNK {
    /// Decodes as much of a tile as its payload allows. `wide_alpha` is the
    /// file-level flag that selects one byte per blend-mask value.
    ///
    /// Fails only when an offset does not resolve. Otherwise returns the tile
    /// with the masks decoded before the first layer that is cut short and
    /// without a liquid block if that is cut short, together with those
    /// failures.
    #[verifier::rlimit(50)]
    pub fn read_partial(payload: &Vec<u8>, wide_alpha: bool) -> (r: Result<(MCNK, Vec<DecodeError>), DecodeError>)
        ensures
            r is Err <==> offsets_error(payload@) is Some,
            r matches Err(e) ==> offsets_error(payload@) == Some(e),
            r matches Ok((t, errs)) ==> {
                &&& header_spec(t, payload@)
                &&& subchunks_spec(t, payload@, wide_alpha)
                &&& errs@ == content_errors(payload@, wide_alpha)
            },
    {
        let b = payload;
        if b.len() < MCNK_HEADER_SIZE {
            return Err(DecodeError::MalformedTile { subchunk: Subchunk::Header, offset: 0 });
        }
        let flags = MCNKFlags::from_bits(read_u32(b, 0).unwrap());
        let x = read_u32(b, 4).unwrap();
        let y = read_u32(b, 8).unwrap();
        let n_layers = read_u32(b, 12).unwrap();
        let n_doodad_refs = read_u32(b, 16).unwrap();
        let ofs_height = read_u32(b, 20).unwrap();
        let ofs_normal = read_u32(b, 24).unwrap();
        let ofs_layer = read_u32(b, 28).unwrap();
        let ofs_refs = read_u32(b, 32).unwrap();
        let ofs_alpha = read_u32(b, 36).unwrap();
        let size_alpha = read_u32(b, 40).unwrap();
        let ofs_shadow = read_u32(b, 44).unwrap();
        let size_shadow = read_u32(b, 48).unwrap();
        let area_id = read_u32(b, 52).unwrap();
        let n_map_obj_refs = read_u32(b, 56).unwrap();
        let holes_low_res = read_u16(b, 60).unwrap();
        let low_res_texture_map = read_u16_array(b, 64, 8).unwrap();
        let doodad_stencil = copy_range(b, 80, 8);
        let ofs_snd_emitters = read_u32(b, 88).unwrap();
        let n_snd_emitters = read_u32(b, 92).unwrap();
        let ofs_liquid = read_u32(b, 96).unwrap();
        let size_liquid = read_u32(b, 100).unwrap();
        let position = read_c3(b, 104);
        let ofs_mccv = read_u32(b, 116).unwrap();

        if !range_fits(b, ofs_height, MCVT_SIZE as u64) {
            return Err(DecodeError::MalformedTile { subchunk: Subchunk::Height, offset: ofs_height });
        }
        let raw = read_u32_array(b, ofs_height as usize, HEIGHT_SAMPLES).unwrap();
        let mcvt = MCVT { heights: parse_heightmap(&raw) };

        if !range_fits(b, ofs_normal, MCNR_SIZE as u64) {
            return Err(DecodeError::MalformedTile { subchunk: Subchunk::Normal, offset: ofs_normal });
        }
        let mcnr = MCNR { normals: read_normals(b, ofs_normal as usize) };

        if !range_fits(b, ofs_layer, 16 * n_layers as u64) {
            return Err(DecodeError::MalformedTile { subchunk: Subchunk::Layer, offset: ofs_layer });
        }
        let mcly = MCLY { layers: read_layers(b, ofs_layer as usize, n_layers as usize) };

        if !range_fits(b, ofs_refs, 4 * (n_doodad_refs as u64 + n_map_obj_refs as u64)) {
            return Err(DecodeError::MalformedTile { subchunk: Subchunk::Refs, offset: ofs_refs });
        }
        let doodad_refs = read_u32_array(b, ofs_refs as usize, n_doodad_refs as usize).unwrap();
        let map_obj_refs = read_u32_array(
            b,
            ofs_refs as usize + 4 * n_doodad_refs as usize,
            n_map_obj_refs as usize,
        ).unwrap();
        let mcrf = MCRF { doodad_refs, map_obj_refs };

        if !range_fits(b, ofs_alpha, size_alpha as u64) {
            return Err(DecodeError::MalformedTile { subchunk: Subchunk::Alpha, offset: ofs_alpha });
        }
        if ofs_liquid as usize > b.len() {
            return Err(DecodeError::MalformedTile { subchunk: Subchunk::Liquid, offset: ofs_liquid });
        }

        let mut errs: Vec<DecodeError> = Vec::new();
        let sub = copy_range(b, ofs_alpha as usize, size_alpha as usize);
        let (masks, cut) = decode_alpha_layers(&sub, &mcly.layers, wide_alpha, flags.do_not_fix_alpha_map);
        if let Some(k) = cut {
            errs.push(DecodeError::MalformedAlphaLayer { layer: k });
        }
        let mcal = MCAL { layers: masks };

        let mclq = match MCLQ::read(b, ofs_liquid as usize, flags.liquids()) {
            Some((l, _)) => Some(l),
            None => {
                errs.push(DecodeError::MalformedLiquid);
                None
            },
        };
        assert(errs@ =~= content_errors(b@, wide_alpha));

        Ok((
            MCNK {
                flags,
                x,
                y,
                n_layers,
                n_doodad_refs,
                ofs_height,
                ofs_normal,
                ofs_layer,
                ofs_refs,
                ofs_alpha,
                size_alpha,
                ofs_shadow,
                size_shadow,
                area_id,
                n_map_obj_refs,
                holes_low_res,
                low_res_texture_map,
                doodad_stencil,
                ofs_snd_emitters,
                n_snd_emitters,
                ofs_liquid,
                size_liquid,
                position,
                ofs_mccv,
                mcvt,
                mcnr,
                mcly,
                mcrf,
                mcal,
                mclq,
            },
            errs,
        ))
    }

    /// Decodes a tile from its chunk payload. `wide_alpha` is the file-level
    /// flag that selects one byte per blend-mask value.
    ///
    /// Fails with the first failure that `tile_error` names; on success the
    /// header and every sub-chunk, liquid block included, are those that the
    /// payload holds.
    pub fn read(payload: &Vec<u8>, wide_alpha: bool) -> (r: Result<MCNK, DecodeError>)
        ensures
            r is Err <==> tile_error(payload@, wide_alpha) is Some,
            r matches Err(e) ==> tile_error(payload@, wide_alpha) == Some(e),
            r matches Ok(t) ==> {
                &&& header_spec(t, payload@)
                &&& subchunks_spec(t, payload@, wide_alpha)
                &&& tile_alpha(payload@, wide_alpha).1 is None
                &&& t.mclq is Some
            },
    {
        match MCNK::read_partial(payload, wide_alpha) {
            Err(e) => Err(e),
            Ok((t, errs)) => {
                if errs.len() > 0 {
                    Err(errs[0])
                } else {
                    Ok(t)
                }
            },
        }
    }
}

} // verus!
