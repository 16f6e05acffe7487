use wow_chunky::blp::{AlphaCompression, BlpError, ColorEncoding, Mipmap, BLP};

fn header(color: u8, alpha: u8, w: u32, h: u32) -> Vec<u8> {
    let mut b = vec![0u8; 148];
    b[0..4].copy_from_slice(b"BLP2");
    b[4..8].copy_from_slice(&1u32.to_le_bytes());
    b[8] = color;
    b[9] = 8;
    b[10] = alpha;
    b[11] = 1;
    b[12..16].copy_from_slice(&w.to_le_bytes());
    b[16..20].copy_from_slice(&h.to_le_bytes());
    b
}

#[test]
fn dxt1_level_is_decompressed() {
    let mut b = header(2, 0, 4, 4);
    b[20..24].copy_from_slice(&148u32.to_le_bytes());
    b[84..88].copy_from_slice(&8u32.to_le_bytes());
    b.extend_from_slice(&[0xFF, 0xFF, 0x00, 0x00, 0, 0, 0, 0]);
    let blp = BLP::read(&b).unwrap();
    assert_eq!(blp.color_encoding, ColorEncoding::DXT);
    assert_eq!(blp.alpha_compression, AlphaCompression::DXT1);
    assert_eq!((blp.width, blp.height), (4, 4));
    assert_eq!(blp.mipmaps.len(), 1);
    assert_eq!(blp.mipmaps[0].decompressed, vec![255u8; 64]);
}

#[test]
fn level_beyond_file_reads_zeros() {
    let b = header(2, 0, 4, 4);
    let m = Mipmap::read(&b, 10000, 8, ColorEncoding::DXT, AlphaCompression::DXT1, 4, 4).unwrap();
    assert_eq!(m.decompressed.len(), 64);
}

#[test]
fn blp_errors() {
    assert_eq!(BLP::read(&vec![0u8; 100]).err(), Some(BlpError::TruncatedInput));
    assert_eq!(BLP::read(&header(7, 0, 4, 4)).err(), Some(BlpError::InvalidValue));
    assert_eq!(BLP::read(&header(2, 10, 4, 4)).err(), Some(BlpError::InvalidValue));
    let mut b = header(2, 2, 4, 4);
    b[20..24].copy_from_slice(&148u32.to_le_bytes());
    b[84..88].copy_from_slice(&8u32.to_le_bytes());
    assert_eq!(BLP::read(&b).err(), Some(BlpError::Unsupported));
    let mut b = header(2, 0, 0, 4);
    b[20..24].copy_from_slice(&148u32.to_le_bytes());
    b[84..88].copy_from_slice(&8u32.to_le_bytes());
    assert_eq!(BLP::read(&b).err(), Some(BlpError::ZeroWidth));
    let mut b = header(2, 0, u32::MAX, u32::MAX);
    b[20..24].copy_from_slice(&148u32.to_le_bytes());
    b[84..88].copy_from_slice(&8u32.to_le_bytes());
    assert_eq!(BLP::read(&b).err(), Some(BlpError::TooLarge));
    let b = header(1, 0, 4, 4);
    let blp = BLP::read(&b).unwrap();
    assert!(blp.mipmaps.is_empty());
}
