use wow_chunky::alpha::{fix_edges, rle_decompress, unpack_half_bytes, MCALLayer};

fn sample_mask() -> Vec<u8> {
    (0..4096u32).map(|i| (i * 7 % 251) as u8).collect()
}

#[test]
fn rle_fill_run() {
    let (out, pos) = rle_decompress(&vec![0x85, 0x07], 0, 4096).unwrap();
    assert_eq!(out, vec![7, 7, 7, 7, 7]);
    assert_eq!(pos, 2);
}

#[test]
fn rle_copy_run() {
    let (out, pos) = rle_decompress(&vec![0x03, 0x01, 0x02, 0x03], 0, 4096).unwrap();
    assert_eq!(out, vec![1, 2, 3]);
    assert_eq!(pos, 4);
}

#[test]
fn rle_cut_short_run_fails() {
    assert!(rle_decompress(&vec![0x85], 0, 4096).is_none());
    assert!(rle_decompress(&vec![0x03, 0x01], 0, 4096).is_none());
}

#[test]
fn rle_stops_at_limit() {
    let (out, pos) = rle_decompress(&vec![0x82, 0x09, 0x81, 0x04], 0, 2).unwrap();
    assert_eq!(out, vec![9, 9]);
    assert_eq!(pos, 2);
}

#[test]
fn nibble_unpack_low_first() {
    let mut input = vec![0u8; 2048];
    input[0] = 0x3A;
    let (layer, pos) = MCALLayer::read(&input, 0, false, false, true).unwrap();
    assert_eq!(layer.alpha_map[0], 0xA);
    assert_eq!(layer.alpha_map[1], 0x3);
    assert_eq!(pos, 2048);
    assert_eq!(unpack_half_bytes(&vec![0xF1, 0x2C], 2), vec![0x1, 0xF, 0xC, 0x2]);
}

#[test]
fn alpha_size_all_combinations() {
    let wide_raw = vec![5u8; 4096];
    let half_raw = vec![0x21u8; 2048];
    let mut wide_rle: Vec<u8> = Vec::new();
    for _ in 0..32 {
        wide_rle.extend_from_slice(&[0xFF, 1]);
    }
    wide_rle.extend_from_slice(&[0xA0, 2]);
    let mut half_rle: Vec<u8> = Vec::new();
    for _ in 0..16 {
        half_rle.extend_from_slice(&[0xFF, 0x33]);
    }
    half_rle.extend_from_slice(&[0x10, 1, 2, 3, 4, 5, 6, 7, 8, 9, 10, 11, 12, 13, 14, 15, 16]);
    for (input, wide, compressed) in [
        (wide_raw, true, false),
        (half_raw, false, false),
        (wide_rle, true, true),
        (half_rle, false, true),
    ] {
        let (layer, pos) = MCALLayer::read(&input, 0, wide, compressed, false).unwrap();
        assert_eq!(layer.alpha_map.len(), 4096);
        assert_eq!(pos, input.len());
    }
}

#[test]
fn alpha_short_input_fails() {
    assert!(MCALLayer::read(&vec![0u8; 4095], 0, true, false, false).is_none());
    assert!(MCALLayer::read(&vec![0u8; 2047], 0, false, false, false).is_none());
    assert!(MCALLayer::read(&vec![0x85, 0x07], 0, true, true, false).is_none());
}

#[test]
fn edge_fix_copies_last_row_and_column() {
    let m = sample_mask();
    let mut f = m.clone();
    fix_edges(&mut f);
    assert_eq!(f[63], m[62]);
    assert_eq!(f[64 * 10 + 63], m[64 * 10 + 62]);
    assert_eq!(f[4032], m[4032]);
    assert_eq!(f[4033], m[4033 - 64]);
    assert_eq!(f[4094], m[4094 - 64]);
    assert_eq!(f[4095], m[4030]);
    assert_eq!(f[100], m[100]);
}

#[test]
fn edge_fix_twice_equals_once() {
    let mut once = sample_mask();
    fix_edges(&mut once);
    let mut twice = once.clone();
    fix_edges(&mut twice);
    assert_eq!(once, twice);
}

#[test]
fn edge_fix_skipped_when_preserved() {
    let input = sample_mask();
    let (kept, _) = MCALLayer::read(&input, 0, true, false, true).unwrap();
    assert_eq!(kept.alpha_map, input);
    let (fixed, _) = MCALLayer::read(&input, 0, true, false, false).unwrap();
    assert_ne!(fixed.alpha_map, input);
}
