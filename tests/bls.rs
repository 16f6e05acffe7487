use wow_chunky::bls::{BlsError, ParamType, BLS};

fn container(kind: &[u8; 4], block: &[u8], table: usize) -> Vec<u8> {
    let mut b: Vec<u8> = kind.to_vec();
    b.extend_from_slice(&2u32.to_le_bytes());
    b.extend_from_slice(&9u32.to_le_bytes());
    let start = 12 + 4 * table;
    for i in 0..table {
        let off: u32 = if i == 1 { start as u32 } else { 0 };
        b.extend_from_slice(&off.to_le_bytes());
    }
    b.extend_from_slice(block);
    b
}

fn block(param_type: u32) -> Vec<u8> {
    let mut k: Vec<u8> = 1u32.to_le_bytes().to_vec();
    let mut name = vec![0u8; 64];
    name[0] = b'a';
    name[2] = b'b';
    k.extend_from_slice(&name);
    k.extend_from_slice(&3u32.to_le_bytes());
    for f in 0..16u32 {
        k.extend_from_slice(&(f as f32).to_bits().to_le_bytes());
    }
    k.extend_from_slice(&param_type.to_le_bytes());
    k.extend_from_slice(&[0u8; 8]);
    k.extend_from_slice(&0u32.to_le_bytes());
    k.extend_from_slice(&5u32.to_le_bytes());
    k.extend_from_slice(&4u32.to_le_bytes());
    k.extend_from_slice(b"x\0yz");
    k
}

#[test]
fn vertex_shader_container() {
    let d = container(b"SVXG", &block(3), 6);
    let s = BLS::read(&d).unwrap();
    assert_eq!(s.token, "SVXG");
    assert_eq!((s.version, s.permutation_count), (2, 9));
    assert_eq!(s.blocks.len(), 1);
    let b = &s.blocks[0];
    assert_eq!(b.index, 1);
    assert_eq!((b.constant_count, b.param_count, b.unk, b.bytes), (1, 0, 5, 4));
    assert_eq!(b.constants[0].name, "ab");
    assert_eq!(b.constants[0].binding, 3);
    assert_eq!(f32::from_bits(b.constants[0].float[15]), 15.0);
    assert_eq!(b.constants[0].param_type, ParamType::Texture);
    assert_eq!(b.code, "xyz");
}

#[test]
fn shader_container_errors() {
    assert_eq!(BLS::read(&vec![0u8; 11]).err(), Some(BlsError::TruncatedInput));
    assert_eq!(BLS::read(&container(b"ABCD", &[], 6)).err(), Some(BlsError::UnknownShaderType));
    let short: Vec<u8> = container(b"SPXG", &[], 6);
    assert_eq!(BLS::read(&short).err(), Some(BlsError::TruncatedInput));
    assert_eq!(
        BLS::read(&container(b"SVXG", &block(77), 6)).err(),
        Some(BlsError::MalformedBlock { index: 1 })
    );
}
