use wow_chunky::error::{DecodeError, Subchunk};
use wow_chunky::height::parse_heightmap;
use wow_chunky::liquid::{LiquidFlags, MCLQ};
use wow_chunky::tile::{MCLYFlags, MCNKFlags, MCNK};

fn put(b: &mut Vec<u8>, at: usize, v: u32) {
    b[at..at + 4].copy_from_slice(&v.to_le_bytes());
}

/// A tile with two layers (the second with a 4-bit alpha mask), one doodad
/// and one map-object reference, and a river.
fn sample_tile(flags: u32) -> Vec<u8> {
    let mut b = vec![0u8; 128];
    put(&mut b, 0, flags);
    put(&mut b, 4, 3);
    put(&mut b, 8, 5);
    put(&mut b, 12, 2);
    put(&mut b, 16, 1);
    put(&mut b, 20, 128);
    put(&mut b, 24, 708);
    put(&mut b, 28, 1143);
    put(&mut b, 32, 1175);
    put(&mut b, 36, 1183);
    put(&mut b, 40, 2048);
    put(&mut b, 52, 12);
    put(&mut b, 56, 1);
    b[60] = 0x34;
    b[61] = 0x12;
    put(&mut b, 96, 3231);
    put(&mut b, 104, 1.5f32.to_bits());
    for i in 0..145u32 {
        b.extend_from_slice(&(i as f32).to_bits().to_le_bytes());
    }
    for i in 0..435u32 {
        b.push((i % 256) as u8);
    }
    for (tex, fl) in [(1u32, 0u32), (2, 0x100)] {
        b.extend_from_slice(&tex.to_le_bytes());
        b.extend_from_slice(&fl.to_le_bytes());
        b.extend_from_slice(&0u32.to_le_bytes());
        b.extend_from_slice(&9u32.to_le_bytes());
    }
    b.extend_from_slice(&77u32.to_le_bytes());
    b.extend_from_slice(&88u32.to_le_bytes());
    let mut alpha = vec![0x11u8; 2048];
    alpha[0] = 0x3A;
    b.extend_from_slice(&alpha);
    b.extend_from_slice(&0u32.to_le_bytes());
    b.extend_from_slice(&10u32.to_le_bytes());
    for k in 0..81u32 {
        b.extend_from_slice(&[k as u8, 1, 2, 3]);
        b.extend_from_slice(&(k as f32).to_bits().to_le_bytes());
    }
    b.extend_from_slice(&[1u8; 64]);
    b
}

#[test]
fn tile_decodes_every_subchunk() {
    let b = sample_tile(0x04);
    assert_eq!(b.len(), 3951);
    let t = MCNK::read(&b, false).unwrap();
    assert_eq!((t.x, t.y, t.n_layers, t.n_doodad_refs, t.area_id), (3, 5, 2, 1, 12));
    assert_eq!(t.holes_low_res, 0x1234);
    assert!(t.flags.lq_river && !t.flags.lq_ocean && !t.flags.do_not_fix_alpha_map);
    assert_eq!(f32::from_bits(t.position.x), 1.5);
    assert_eq!(t.mcvt.heights.len(), 145);
    assert_eq!(f32::from_bits(t.mcvt.heights[20].height), 20.0);
    assert_eq!(t.mcnr.normals[1].x, 3);
    assert_eq!(t.mcnr.normals[42].z, -128);
    assert_eq!(t.mcly.layers.len(), 2);
    assert_eq!(t.mcly.layers[1].texture_id, 2);
    assert!(t.mcly.layers[1].flags.use_alpha && !t.mcly.layers[0].flags.use_alpha);
    assert_eq!(t.mcrf.doodad_refs, vec![77]);
    assert_eq!(t.mcrf.map_obj_refs, vec![88]);
    assert_eq!(t.mcal.layers.len(), 1);
    let m = &t.mcal.layers[0].alpha_map;
    assert_eq!(m.len(), 4096);
    assert_eq!((m[0], m[1], m[2]), (0xA, 0x3, 0x1));
    let l = t.mclq.as_ref().unwrap();
    assert_eq!(l.river_verts.len(), 81);
    assert_eq!(l.river_verts[80].depth, 80);
    assert!(l.ocean_verts.is_empty() && l.magma_verts.is_empty());
    assert_eq!(l.tiles, vec![1u8; 64]);
    assert_eq!(l.height.max, 10);
}

#[test]
fn tile_alpha_offset_outside_payload() {
    let mut b = sample_tile(0x04);
    put(&mut b, 36, 5000);
    assert_eq!(
        MCNK::read(&b, false).err(),
        Some(DecodeError::MalformedTile { subchunk: Subchunk::Alpha, offset: 5000 })
    );
}

#[test]
fn tile_errors_in_order() {
    assert_eq!(
        MCNK::read(&vec![0u8; 127], false).err(),
        Some(DecodeError::MalformedTile { subchunk: Subchunk::Header, offset: 0 })
    );
    let mut short = vec![0u8; 40];
    put(&mut short, 36, 255);
    assert_eq!(
        MCNK::read_partial(&short, false).err(),
        Some(DecodeError::MalformedTile { subchunk: Subchunk::Header, offset: 0 })
    );
    let mut b = sample_tile(0x04);
    put(&mut b, 20, 3900);
    assert_eq!(
        MCNK::read(&b, false).err(),
        Some(DecodeError::MalformedTile { subchunk: Subchunk::Height, offset: 3900 })
    );
    let mut b = sample_tile(0x04);
    put(&mut b, 12, 1000);
    assert_eq!(
        MCNK::read(&b, false).err(),
        Some(DecodeError::MalformedTile { subchunk: Subchunk::Layer, offset: 1143 })
    );
    let b = sample_tile(0x04);
    assert_eq!(
        MCNK::read(&b, true).err(),
        Some(DecodeError::MalformedAlphaLayer { layer: 1 })
    );
    let mut b = sample_tile(0x04);
    put(&mut b, 96, 4000);
    assert_eq!(
        MCNK::read(&b, false).err(),
        Some(DecodeError::MalformedTile { subchunk: Subchunk::Liquid, offset: 4000 })
    );
    let b = sample_tile(0x04 | 0x08);
    assert_eq!(MCNK::read(&b, false).err(), Some(DecodeError::MalformedLiquid));
}

#[test]
fn tile_partial_keeps_what_decodes() {
    let b = sample_tile(0x04 | 0x08);
    let (t, errs) = MCNK::read_partial(&b, true).unwrap();
    assert_eq!(
        errs,
        vec![DecodeError::MalformedAlphaLayer { layer: 1 }, DecodeError::MalformedLiquid]
    );
    assert!(t.mcal.layers.is_empty());
    assert!(t.mclq.is_none());
    assert_eq!(t.mcvt.heights.len(), 145);
    assert_eq!(t.mcrf.doodad_refs, vec![77]);
    let (t, errs) = MCNK::read_partial(&sample_tile(0x04), false).unwrap();
    assert!(errs.is_empty());
    assert_eq!(t.mcal.layers.len(), 1);
    let mut b = sample_tile(0x04);
    put(&mut b, 24, 4000);
    assert_eq!(
        MCNK::read_partial(&b, false).err(),
        Some(DecodeError::MalformedTile { subchunk: Subchunk::Normal, offset: 4000 })
    );
    let mut b = sample_tile(0x04);
    put(&mut b, 16, 1000);
    assert_eq!(
        MCNK::read(&b, false).err(),
        Some(DecodeError::MalformedTile { subchunk: Subchunk::Refs, offset: 1175 })
    );
}

#[test]
fn tile_offsets_resolve_before_masks() {
    let mut b = sample_tile(0x04);
    put(&mut b, 96, 4000);
    assert_eq!(
        MCNK::read(&b, true).err(),
        Some(DecodeError::MalformedTile { subchunk: Subchunk::Liquid, offset: 4000 })
    );
}

#[test]
fn tile_flag_preserves_edges() {
    let t = MCNK::read(&sample_tile(0x04), false).unwrap();
    assert_eq!(t.mcal.layers[0].alpha_map[63], 1);
    let mut b = sample_tile(0x04 | 0x200);
    b[1183 + 31] = 0x50;
    let t = MCNK::read(&b, false).unwrap();
    assert!(t.flags.do_not_fix_alpha_map);
    assert_eq!(t.mcal.layers[0].alpha_map[63], 5);
    let mut b = sample_tile(0x04);
    b[1183 + 31] = 0x50;
    let t = MCNK::read(&b, false).unwrap();
    assert_eq!(t.mcal.layers[0].alpha_map[63], 0);
}

#[test]
fn flag_words_decode() {
    let f = MCNKFlags::from_bits(0x04 | 0x10 | 0x200);
    assert!(f.lq_river && f.lq_magma && !f.lq_ocean && f.do_not_fix_alpha_map && !f.impass);
    let l = MCLYFlags::from_bits(0x300);
    assert!(l.use_alpha && l.alpha_compressed && !l.animate_45);
    let a = MCLYFlags::from_bits(0x03);
    assert!(!a.animate_45 && !a.animate_90 && !a.use_alpha);
}

#[test]
fn heightfield_places_145_samples() {
    let raw: Vec<u32> = (0..145u32).collect();
    let a = parse_heightmap(&raw);
    let b = parse_heightmap(&raw);
    assert_eq!(a.len(), 145);
    assert_eq!(a, b);
    assert_eq!((a[0].row, a[0].column, a[0].inner), (0, 0, false));
    assert_eq!((a[8].row, a[8].column, a[8].inner), (0, 8, false));
    assert_eq!((a[9].row, a[9].column, a[9].inner), (0, 0, true));
    assert_eq!((a[16].row, a[16].column, a[16].inner), (0, 7, true));
    assert_eq!((a[17].row, a[17].column, a[17].inner), (1, 0, false));
    assert_eq!((a[144].row, a[144].column, a[144].inner), (8, 8, false));
    assert_eq!(a[144].height, 144);
}

#[test]
fn liquid_river_and_ocean_consumed_in_order() {
    let mut b: Vec<u8> = vec![0xEE; 3];
    b.extend_from_slice(&[0u8; 8]);
    for k in 0..81u8 {
        b.extend_from_slice(&[k, 0, 0, 0, 0, 0, 0, 0]);
    }
    for k in 0..81u8 {
        b.extend_from_slice(&[k, 1, 2, 3]);
    }
    b.extend_from_slice(&[9u8; 64]);
    b.extend_from_slice(&[0xEE; 5]);
    let flags = LiquidFlags { river: true, ocean: true, magma: false };
    let (l, q) = MCLQ::read(&b, 3, flags).unwrap();
    assert_eq!(q, 3 + 8 + 81 * 8 + 81 * 4 + 64);
    assert_eq!(l.river_verts.len(), 81);
    assert_eq!(l.ocean_verts.len(), 81);
    assert_eq!(l.ocean_verts[5].depth, 5);
    assert_eq!(l.ocean_verts[5].wet, 3);
    assert!(l.magma_verts.is_empty());
    assert_eq!(l.tiles, vec![9u8; 64]);
}

#[test]
fn liquid_without_flags_reads_only_range() {
    let b: Vec<u8> = vec![0; 8];
    let none = LiquidFlags { river: false, ocean: false, magma: false };
    let (l, q) = MCLQ::read(&b, 0, none).unwrap();
    assert_eq!(q, 8);
    assert!(l.tiles.is_empty());
    assert!(MCLQ::read(&b, 1, none).is_none());
}
