use wow_chunky::error::{DecodeError, Subchunk};
use wow_chunky::files::{adt_stem, parse_adt, ChunkFailure, Error, ADT, WDT};
use wow_chunky::records::MPHDFlags;

fn chunk(tag: &[u8; 4], payload: &[u8]) -> Vec<u8> {
    let mut v: Vec<u8> = tag.iter().rev().cloned().collect();
    v.extend_from_slice(&(payload.len() as u32).to_le_bytes());
    v.extend_from_slice(payload);
    v
}

fn world_table(flags: u32) -> Vec<u8> {
    let mut w = chunk(b"MVER", &18u32.to_le_bytes());
    let mut mphd = vec![0u8; 16];
    mphd[4..8].copy_from_slice(&flags.to_le_bytes());
    w.extend(chunk(b"MPHD", &mphd));
    w
}

#[test]
fn terrain_file_best_effort() {
    let mut f = chunk(b"MVER", &18u32.to_le_bytes());
    f.extend(chunk(b"MTEX", b"a.blp\0"));
    f.extend(chunk(b"ZZZZ", &[1, 2, 3]));
    f.extend(chunk(b"MCNK", &[0u8; 10]));
    f.extend(chunk(b"MHDR", &[9, 0, 0, 0]));
    f.extend(chunk(b"MWID", &[4, 0, 0, 0]));
    let adt = parse_adt(&f, &MPHDFlags { has_height_texturing: false });
    assert_eq!(adt.mver.unwrap().version, 18);
    assert_eq!(adt.mtex.as_ref().unwrap().filenames, vec!["a.blp".to_string()]);
    assert_eq!(adt.mwid.as_ref().unwrap().offsets, vec![4]);
    assert!(adt.mhdr.is_none());
    assert!(adt.mcnk.is_empty());
    assert_eq!(
        adt.failures,
        vec![
            ChunkFailure { offset: 26, error: DecodeError::UnrecognizedTag { tag: 0x5A5A5A5A } },
            ChunkFailure {
                offset: 37,
                error: DecodeError::MalformedTile { subchunk: Subchunk::Header, offset: 0 },
            },
            ChunkFailure { offset: 55, error: DecodeError::MalformedRecord { tag: 0x4D484452 } },
        ]
    );
}

#[test]
fn empty_terrain_file() {
    let adt = parse_adt(&vec![], &MPHDFlags { has_height_texturing: false });
    assert!(adt.mver.is_none() && adt.mcnk.is_empty() && adt.failures.is_empty());
}

#[test]
fn terrain_file_keeps_tile_with_short_liquid() {
    let mut t = vec![0u8; 128];
    t[0] = 0x04;
    for (at, v) in [(20usize, 0u32), (24, 0), (28, 0), (32, 0), (36, 0), (96, 128)] {
        t[at..at + 4].copy_from_slice(&v.to_le_bytes());
    }
    t.extend_from_slice(&[0u8; 600]);
    let f = chunk(b"MCNK", &t);
    let adt = parse_adt(&f, &MPHDFlags { has_height_texturing: false });
    assert_eq!(adt.mcnk.len(), 1);
    assert!(adt.mcnk[0].mclq.is_none());
    assert_eq!(adt.failures, vec![ChunkFailure { offset: 0, error: DecodeError::MalformedLiquid }]);
}

#[test]
fn terrain_file_truncated_tail_is_recorded() {
    let mut f = chunk(b"MVER", &18u32.to_le_bytes());
    f.extend_from_slice(&[1, 2, 3]);
    let adt = parse_adt(&f, &MPHDFlags { has_height_texturing: true });
    assert_eq!(adt.mver.unwrap().version, 18);
    assert_eq!(adt.failures, vec![ChunkFailure { offset: 12, error: DecodeError::TruncatedInput }]);
}

#[test]
fn terrain_file_name_gives_coordinates() {
    let f = chunk(b"MVER", &18u32.to_le_bytes());
    let flags = MPHDFlags { has_height_texturing: false };
    let adt = ADT::from_file("Azeroth_31_30", &f, &flags).unwrap();
    assert_eq!((adt.x, adt.y), (31, 30));
    assert_eq!(adt.filename, "Azeroth_31_30");
    assert_eq!(ADT::from_file("Azeroth", &f, &flags).err(), Some(Error::MissingCoordinates));
}

#[test]
fn world_table_supplies_flags() {
    let wdt = WDT::from_file("Azeroth.wdt", &world_table(0x80));
    assert_eq!(wdt.filename, "Azeroth.wdt");
    assert_eq!(wdt.mver.unwrap().version, 18);
    assert!(wdt.mphd.unwrap().flags.has_height_texturing);
    assert!(wdt.failures.is_empty());
    let adt = ADT::from_wdt(&wdt, "Azeroth", 25, 20, &chunk(b"MVER", &[1, 0, 0, 0])).unwrap();
    assert_eq!(adt.filename, "Azeroth_25_20");
    assert_eq!((adt.x, adt.y), (25, 20));
    let adt = ADT::from_wdt_file("Azeroth.wdt", &world_table(0), "Azeroth", 0, 7, &vec![]).unwrap();
    assert_eq!(adt.filename, "Azeroth_0_7");
}

#[test]
fn world_table_without_header() {
    let wdt = WDT::from_file("Empty.wdt", &chunk(b"MVER", &[1, 0, 0, 0]));
    assert_eq!(ADT::from_wdt(&wdt, "Empty", 1, 1, &vec![]).err(), Some(Error::MissingMphd));
    let short = WDT::from_file("Short.wdt", &chunk(b"MPHD", &[0u8; 8]));
    assert!(short.mphd.is_none());
    assert_eq!(short.failures, vec![ChunkFailure { offset: 0, error: DecodeError::TruncatedInput }]);
}

#[test]
fn stem_of_terrain_file() {
    assert_eq!(adt_stem("Kalimdor", 0, 4294967295), "Kalimdor_0_4294967295");
    assert_eq!(adt_stem("", 10, 9), "_10_9");
}
