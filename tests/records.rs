use wow_chunky::records::{MCINChunk, MDDFFlags, MDDFPart, MHDR, MHDRFlags, MPHDFlags, MTEX, MMID};

#[test]
fn mcin_parse_valid_chunk() {
    let raw: Vec<u8> = vec![0xFA, 0x10, 0x00, 0x00, 0xCC, 0x06, 0x00, 0x00, 0x00, 0x00, 0x00, 0x00];
    let chunk = MCINChunk::read(&raw, 0).unwrap();
    assert_eq!(chunk, MCINChunk { offset: 4346, size: 1740, flags: 0 });
}

#[test]
fn mddf_parse_valid_chunk() {
    let raw: Vec<u8> = vec![
        0x67, 0x00, 0x00, 0x00, 0x8D, 0xF4, 0x02, 0x00, 0xB9, 0x40, 0x85, 0x46, 0x46, 0x39, 0x44,
        0x42, 0x91, 0x21, 0x80, 0x46, 0x00, 0x00, 0x00, 0x00, 0x1C, 0xFC, 0xAD, 0x42, 0x00, 0x00,
        0x00, 0x00, 0x34, 0x04, 0x00, 0x00,
    ];
    let chunk = MDDFPart::read(&raw, 0).unwrap();
    assert_eq!(chunk.name_id, 103);
    assert_eq!(chunk.unique_id, 193677);
    assert_eq!(f32::from_bits(chunk.position.x), 17056.361);
    assert_eq!(f32::from_bits(chunk.position.y), 49.05593);
    assert_eq!(f32::from_bits(chunk.position.z), 16400.783);
    assert_eq!(f32::from_bits(chunk.rotation.x), 0.0);
    assert_eq!(f32::from_bits(chunk.rotation.y), 86.9924);
    assert_eq!(f32::from_bits(chunk.rotation.z), 0.0);
    assert_eq!(chunk.scale, 1076);
    assert_eq!(chunk.flags, MDDFFlags::NONE);
}

#[test]
fn mddf_part_with_unknown_flags_is_rejected() {
    let mut raw: Vec<u8> = vec![0; 36];
    raw[34] = 7;
    assert!(MDDFPart::read(&raw, 0).is_none());
    assert!(MDDFPart::read(&vec![0u8; 35], 0).is_none());
}

#[test]
fn mhdr_flags_decode() {
    assert_eq!(MHDR::read(&vec![1, 0, 0, 0]).unwrap().flags, MHDRFlags::MFBO);
    assert_eq!(MHDR::read(&vec![2, 0, 0, 0]).unwrap().flags, MHDRFlags::NORTHREND);
    assert!(MHDR::read(&vec![3, 0, 0, 0]).is_none());
    assert!(MHDR::read(&vec![0, 0]).is_none());
}

#[test]
fn string_table_splits_at_zeros() {
    let raw: Vec<u8> = b"a.blp\0tex\\b.blp\0trailing".to_vec();
    let t = MTEX::read(&raw);
    assert_eq!(t.filenames, vec!["a.blp".to_string(), "tex\\b.blp".to_string()]);
}

#[test]
fn offset_list_drops_partial_word() {
    let raw: Vec<u8> = vec![1, 0, 0, 0, 2, 1, 0, 0, 9];
    assert_eq!(MMID::read(&raw).offsets, vec![1, 258]);
}

#[test]
fn mphd_flags_either_bit_selects_wide_alpha() {
    assert!(MPHDFlags::from_bits(0x80).has_height_texturing);
    assert!(MPHDFlags::from_bits(0x40).has_height_texturing);
    assert!(!MPHDFlags::from_bits(0x04).has_height_texturing);
}
