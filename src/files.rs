//! Whole files: a terrain file (`ADT`) and a world table (`WDT`), each a
//! sequence of chunks dispatched by tag. Decoding is best effort: a chunk that
//! fails is recorded with its offset and the walk goes on; a truncated chunk
//! ends the walk, since the next chunk boundary is then unknown.
use vstd::prelude::*;

use crate::bytes::{fits, u32_array, u32_le};
use crate::chunk::{chunk_fits, next_chunk, ChunkWrapper};
use crate::error::DecodeError;
use crate::records::{
    mcin_entry_at,
    mddf_parts_from,
    mhdr_flags_spec,
    modf_parts_from,
    main_tile_at,
    MAIN,
    MCIN,
    MDDF,
    MHDR,
    MMDX,
    MMID,
    MODF,
    MPHD,
    MPHDFlags,
    MTEX,
    MVER,
    MWID,
    MWMO,
};
use crate::strings::{adt_coordinates, stem_coordinates, views, zstrings};
use crate::tile::{content_errors, header_spec, offsets_error, subchunks_spec, MCNK};

verus! {

pub const MVER_ID: u32 = 0x4D564552;
pub const MHDR_ID: u32 = 0x4D484452;
pub const MCIN_ID: u32 = 0x4D43494E;
pub const MTEX_ID: u32 = 0x4D544558;
pub const MMDX_ID: u32 = 0x4D4D4458;
pub const MMID_ID: u32 = 0x4D4D4944;
pub const MWMO_ID: u32 = 0x4D574D4F;
pub const MWID_ID: u32 = 0x4D574944;
pub const MDDF_ID: u32 = 0x4D444446;
pub const MODF_ID: u32 = 0x4D4F4446;
pub const MCNK_ID: u32 = 0x4D434E4B;
pub const MPHD_ID: u32 = 0x4D504844;
pub const MAIN_ID: u32 = 0x4D41494E;

/// A chunk that could not be decoded, and where it starts in the file.
#[derive(Clone, Copy, Debug, PartialEq, Eq, Structural)]
pub struct ChunkFailure {
    pub offset: usize,
    pub error: DecodeError,
}

/// Why a file could not be decoded at all.
#[derive(Clone, Copy, Debug, PartialEq, Eq, Structural)]
pub enum Error {
    /// A terrain file stem that does not end in `_<x>_<y>`.
    MissingCoordinates,
    /// A world table without the header that tile decoding needs.
    MissingMphd,
}

/// A chunk as the model sees it: where it starts, its tag and its payload.
pub struct ChunkModel {
    pub offset: int,
    pub id: u32,
    pub payload: Seq<u8>,
}

/// The chunks of `b` from `p` on, and where a truncated chunk stops the
/// walk, if one does.
pub open spec fn chunks_from(b: Seq<u8>, p: int) -> (Seq<ChunkModel>, Option<int>)
    decreases b.len() - p,
{
    if p < 0 || p >= b.len() {
        (Seq::empty(), if p == b.len() {
            None
        } else {
            Some(p)
        })
    } else if !chunk_fits(b, p) {
        (Seq::empty(), Some(p))
    } else {
        let size = u32_le(b, p + 4);
        let rest = chunks_from(b, p + 8 + size);
        (
            seq![ChunkModel { offset: p, id: u32_le(b, p) as u32, payload: b.subrange(p + 8, p + 8 + size) }]
                + rest.0,
            rest.1,
        )
    }
}

/// Every chunk that the walk of `b` from `p` yields lies inside `b`, with
/// its payload taken from the bytes after its header; a chunk whose length
/// runs past the end yields no chunk, only the position where the walk
/// stopped, and every chunk yielded ends before that position.
pub proof fn chunks_within_file(b: Seq<u8>, p: int)
    requires
        0 <= p <= b.len(),
    ensures
        forall|i: int|
            0 <= i < chunks_from(b, p).0.len() ==> {
                let c = #[trigger] chunks_from(b, p).0[i];
                &&& p <= c.offset
                &&& c.offset + 8 + c.payload.len() <= b.len()
                &&& c.payload == b.subrange(c.offset + 8, c.offset + 8 + c.payload.len())
            },
        chunks_from(b, p).1 matches Some(t) ==> {
            &&& p <= t < b.len()
            &&& !chunk_fits(b, t)
            &&& forall|i: int|
                0 <= i < chunks_from(b, p).0.len() ==> {
                    let c = #[trigger] chunks_from(b, p).0[i];
                    c.offset + 8 + c.payload.len() <= t
                }
        },
    decreases b.len() - p,
{
    if p < b.len() && chunk_fits(b, p) {
        let q = p + 8 + u32_le(b, p + 4);
        chunks_within_file(b, q);
        let head = ChunkModel { offset: p, id: u32_le(b, p) as u32, payload: b.subrange(p + 8, q) };
        let rest = chunks_from(b, q).0;
        assert(chunks_from(b, p).0 == seq![head] + rest);
        assert forall|i: int| 0 < i < chunks_from(b, p).0.len() implies chunks_from(b, p).0[i]
            == rest[i - 1] by {}
    }
}

/// Whether a flat record chunk with tag `id` decodes from `d`.
pub open spec fn record_ok(id: u32, d: Seq<u8>) -> bool {
    if id == MVER_ID {
        fits(d, 0, 4)
    } else if id == MHDR_ID {
        fits(d, 0, 4) && mhdr_flags_spec(u32_le(d, 0)) is Some
    } else if id == MCIN_ID {
        fits(d, 0, 3072)
    } else if id == MPHD_ID {
        fits(d, 0, 16)
    } else if id == MAIN_ID {
        fits(d, 0, 32768)
    } else {
        true
    }
}

/// Why a flat record chunk does not decode.
pub open spec fn record_error(id: u32, d: Seq<u8>) -> DecodeError {
    if id == MHDR_ID && fits(d, 0, 4) {
        DecodeError::MalformedRecord { tag: id }
    } else {
        DecodeError::TruncatedInput
    }
}

/// The payload of the last chunk tagged `id` whose record decodes.
pub open spec fn last_ok(cs: Seq<ChunkModel>, id: u32) -> Option<Seq<u8>>
    decreases cs.len(),
{
    if cs.len() == 0 {
        None
    } else if cs.last().id == id && record_ok(id, cs.last().payload) {
        Some(cs.last().payload)
    } else {
        last_ok(cs.drop_last(), id)
    }
}

/// The payloads of the tile chunks whose offsets resolve, in file order.
pub open spec fn ok_tiles(cs: Seq<ChunkModel>, wide: bool) -> Seq<Seq<u8>>
    decreases cs.len(),
{
    if cs.len() == 0 {
        Seq::empty()
    } else {
        let prev = ok_tiles(cs.drop_last(), wide);
        if cs.last().id == MCNK_ID && offsets_error(cs.last().payload) is None {
            prev.push(cs.last().payload)
        } else {
            prev
        }
    }
}

pub open spec fn adt_known(id: u32) -> bool {
    id == MVER_ID || id == MHDR_ID || id == MCIN_ID || id == MTEX_ID || id == MMDX_ID || id
        == MMID_ID || id == MWMO_ID || id == MWID_ID || id == MDDF_ID || id == MODF_ID
}

pub open spec fn wdt_known(id: u32) -> bool {
    id == MVER_ID || id == MPHD_ID || id == MAIN_ID || id == MWMO_ID || id == MODF_ID
}

/// What goes wrong with chunk `c` of a terrain file: for a tile, an offset
/// that does not resolve or else the failures of its content.
pub open spec fn adt_chunk_errors(c: ChunkModel, wide: bool) -> Seq<DecodeError> {
    if c.id == MCNK_ID {
        match offsets_error(c.payload) {
            Some(e) => seq![e],
            None => content_errors(c.payload, wide),
        }
    } else if !adt_known(c.id) {
        seq![DecodeError::UnrecognizedTag { tag: c.id }]
    } else if record_ok(c.id, c.payload) {
        Seq::empty()
    } else {
        seq![record_error(c.id, c.payload)]
    }
}

/// The errors `es` of the chunk at `offset`, as failures.
pub open spec fn failures_at(es: Seq<DecodeError>, offset: int) -> Seq<ChunkFailure> {
    es.map_values(|e: DecodeError| ChunkFailure { offset: offset as usize, error: e })
}

/// What goes wrong with chunk `c` of a world table, if anything.
pub open spec fn wdt_chunk_error(c: ChunkModel) -> Option<DecodeError> {
    if !wdt_known(c.id) {
        Some(DecodeError::UnrecognizedTag { tag: c.id })
    } else if record_ok(c.id, c.payload) {
        None
    } else {
        Some(record_error(c.id, c.payload))
    }
}

/// The failures of a terrain file's chunks, in file order.
pub open spec fn adt_failures(cs: Seq<ChunkModel>, wide: bool) -> Seq<ChunkFailure>
    decreases cs.len(),
{
    if cs.len() == 0 {
        Seq::empty()
    } else {
        adt_failures(cs.drop_last(), wide) + failures_at(
            adt_chunk_errors(cs.last(), wide),
            cs.last().offset,
        )
    }
}

/// The failures of a world table's chunks, in file order.
pub open spec fn wdt_failures(cs: Seq<ChunkModel>) -> Seq<ChunkFailure>
    decreases cs.len(),
{
    if cs.len() == 0 {
        Seq::empty()
    } else {
        let prev = wdt_failures(cs.drop_last());
        match wdt_chunk_error(cs.last()) {
            Some(e) => prev.push(ChunkFailure { offset: cs.last().offset as usize, error: e }),
            None => prev,
        }
    }
}

/// The failure a truncated chunk at `t` adds, if there is one.
pub open spec fn truncation(t: Option<int>) -> Seq<ChunkFailure> {
    match t {
        Some(p) => seq![ChunkFailure { offset: p as usize, error: DecodeError::TruncatedInput }],
        None => Seq::empty(),
    }
}

pub open spec fn mver_of(d: Option<Seq<u8>>) -> Option<MVER> {
    match d {
        Some(d) => Some(MVER { version: u32_le(d, 0) as u32 }),
        None => None,
    }
}

pub open spec fn mhdr_of(d: Option<Seq<u8>>) -> Option<MHDR> {
    match d {
        Some(d) => Some(MHDR { flags: mhdr_flags_spec(u32_le(d, 0))->Some_0 }),
        None => None,
    }
}

pub open spec fn mphd_of(d: Option<Seq<u8>>) -> Option<MPHD> {
    match d {
        Some(d) => Some(
            MPHD {
                version: u32_le(d, 0) as u32,
                flags: crate::records::mphd_flags_spec(u32_le(d, 4) as u32),
                _something: u32_le(d, 8) as u32,
                _unused: u32_le(d, 12) as u32,
            },
        ),
        None => None,
    }
}

pub open spec fn strings_of(v: Option<Seq<Seq<char>>>, d: Option<Seq<u8>>) -> bool {
    match (v, d) {
        (Some(v), Some(d)) => v == zstrings(d),
        (None, None) => true,
        _ => false,
    }
}

pub open spec fn offsets_of(v: Option<Seq<u32>>, d: Option<Seq<u8>>) -> bool {
    match (v, d) {
        (Some(v), Some(d)) => v == u32_array(d, 0, d.len() / 4),
        (None, None) => true,
        _ => false,
    }
}

/// A terrain file: its name and grid coordinates, the last decoded chunk of
/// each flat kind, its tiles in file order and the chunks that failed.
#[derive(Debug)]
pub struct ADT {
    pub filename: String,
    pub x: u32,
    pub y: u32,
    pub mver: Option<MVER>,
    pub mhdr: Option<MHDR>,
    pub mcin: Option<MCIN>,
    pub mtex: Option<MTEX>,
    pub mmdx: Option<MMDX>,
    pub mmid: Option<MMID>,
    pub mwmo: Option<MWMO>,
    pub mwid: Option<MWID>,
    pub mddf: Option<MDDF>,
    pub modf: Option<MODF>,
    pub mcnk: Vec<MCNK>,
    pub failures: Vec<ChunkFailure>,
}

/// The chunk-derived fields of `r` are those of the chunks `cs`.
pub open spec fn adt_fields(r: ADT, cs: Seq<ChunkModel>, wide: bool) -> bool {
    &&& r.mver == mver_of(last_ok(cs, MVER_ID))
    &&& r.mhdr == mhdr_of(last_ok(cs, MHDR_ID))
    &&& (r.mcin is Some <==> last_ok(cs, MCIN_ID) is Some)
    &&& (r.mcin matches Some(m) ==> m.chunks@ == Seq::new(
        256,
        |k: int| mcin_entry_at(last_ok(cs, MCIN_ID)->Some_0, 12 * k),
    ))
    &&& strings_of(
        match r.mtex {
            Some(t) => Some(views(t.filenames@)),
            None => None,
        },
        last_ok(cs, MTEX_ID),
    )
    &&& strings_of(
        match r.mmdx {
            Some(t) => Some(views(t.filenames@)),
            None => None,
        },
        last_ok(cs, MMDX_ID),
    )
    &&& strings_of(
        match r.mwmo {
            Some(t) => Some(views(t.filenames@)),
            None => None,
        },
        last_ok(cs, MWMO_ID),
    )
    &&& offsets_of(
        match r.mmid {
            Some(t) => Some(t.offsets@),
            None => None,
        },
        last_ok(cs, MMID_ID),
    )
    &&& offsets_of(
        match r.mwid {
            Some(t) => Some(t.offsets@),
            None => None,
        },
        last_ok(cs, MWID_ID),
    )
    &&& (r.mddf is Some <==> last_ok(cs, MDDF_ID) is Some)
    &&& (r.mddf matches Some(m) ==> m.parts@ == mddf_parts_from(last_ok(cs, MDDF_ID)->Some_0, 0))
    &&& (r.modf is Some <==> last_ok(cs, MODF_ID) is Some)
    &&& (r.modf matches Some(m) ==> m.parts@ == modf_parts_from(last_ok(cs, MODF_ID)->Some_0, 0))
    &&& r.mcnk@.len() == ok_tiles(cs, wide).len()
    &&& forall|i: int|
        0 <= i < r.mcnk@.len() ==> header_spec(#[trigger] r.mcnk@[i], ok_tiles(cs, wide)[i])
            && subchunks_spec(r.mcnk@[i], ok_tiles(cs, wide)[i], wide)
}

/// `r` holds what the chunks of the terrain file `b` hold.
pub open spec fn adt_spec(r: ADT, b: Seq<u8>, wide: bool) -> bool {
    let (cs, t) = chunks_from(b, 0);
    adt_fields(r, cs, wide) && r.failures@ == adt_failures(cs, wide) + truncation(t)
}

/// Appends the errors `errs` of the chunk at `offset` to `failures`.
fn record_failures(failures: &mut Vec<ChunkFailure>, errs: &Vec<DecodeError>, offset: usize)
    ensures
        final(failures)@ == old(failures)@ + failures_at(errs@, offset as int),
{
    let ghost f0 = failures@;
    let mut i: usize = 0;
    while i < errs.len()
        invariant
            i <= errs@.len(),
            failures@ == f0 + failures_at(errs@.take(i as int), offset as int),
        decreases errs@.len() - i,
    {
        failures.push(ChunkFailure { offset, error: errs[i] });
        i = i + 1;
        assert(failures_at(errs@.take(i as int), offset as int) =~= failures_at(
            errs@.take(i - 1),
            offset as int,
        ).push(ChunkFailure { offset, error: errs@[i - 1] }));
        assert(failures@ =~= f0 + failures_at(errs@.take(i as int), offset as int));
    }
    assert(errs@.take(errs@.len() as int) =~= errs@);
}

proof fn lemma_push(cs: Seq<ChunkModel>, c: ChunkModel)
    ensures
        cs.push(c).drop_last() == cs,
        cs.push(c).last() == c,
        cs.push(c).len() == cs.len() + 1,
{
    assert(cs.push(c).drop_last() =~= cs);
}

proof fn lemma_walk_step(b: Seq<u8>, p: int, q: int, seen: Seq<ChunkModel>)
    requires
        0 <= p < b.len(),
        chunk_fits(b, p),
        q == p + 8 + u32_le(b, p + 4),
        chunks_from(b, 0).0 == seen + chunks_from(b, p).0,
        chunks_from(b, 0).1 == chunks_from(b, p).1,
    ensures
        chunks_from(b, 0).0 == seen.push(
            ChunkModel { offset: p, id: u32_le(b, p) as u32, payload: b.subrange(p + 8, q) },
        ) + chunks_from(b, q).0,
        chunks_from(b, 0).1 == chunks_from(b, q).1,
{
    let c = ChunkModel { offset: p, id: u32_le(b, p) as u32, payload: b.subrange(p + 8, q) };
    assert(seen + (seq![c] + chunks_from(b, q).0) =~= seen.push(c) + chunks_from(b, q).0);
}

impl ADT {
    /// Files chunk `c`, which starts at `offset`, into the file.
    fn absorb(&mut self, c: ChunkWrapper, offset: usize, wide: bool, Ghost(seen): Ghost<Seq<ChunkModel>>)
        requires
            adt_fields(*old(self), seen, wide),
            old(self).failures@ == adt_failures(seen, wide),
        ensures
            adt_fields(
                *final(self),
                seen.push(ChunkModel { offset: offset as int, id: c.id, payload: c.data@ }),
                wide,
            ),
            final(self).failures@ == adt_failures(
                seen.push(ChunkModel { offset: offset as int, id: c.id, payload: c.data@ }),
                wide,
            ),
            final(self).filename == old(self).filename,
            final(self).x == old(self).x,
            final(self).y == old(self).y,
    {
        let ghost m = ChunkModel { offset: offset as int, id: c.id, payload: c.data@ };
        proof {
            lemma_push(seen, m);
        }
        let id = c.id;
        let d = &c.data;
        let mut errs: Vec<DecodeError> = Vec::new();
        let failure = if id == MCNK_ID {
            match MCNK::read_partial(d, wide) {
                Ok((t, content)) => {
                    self.mcnk.push(t);
                    errs = content;
                    None
                },
                Err(e) => Some(e),
            }
        } else if id == MVER_ID {
            match MVER::read(d) {
                Some(v) => {
                    self.mver = Some(v);
                    None
                },
                None => Some(DecodeError::TruncatedInput),
            }
        } else if id == MHDR_ID {
            match MHDR::read(d) {
                Some(h) => {
                    self.mhdr = Some(h);
                    None
                },
                None => if d.len() < 4 {
                    Some(DecodeError::TruncatedInput)
                } else {
                    Some(DecodeError::MalformedRecord { tag: id })
                },
            }
        } else if id == MCIN_ID {
            match MCIN::read(d) {
                Some(m) => {
                    self.mcin = Some(m);
                    None
                },
                None => Some(DecodeError::TruncatedInput),
            }
        } else if id == MTEX_ID {
            self.mtex = Some(MTEX::read(d));
            None
        } else if id == MMDX_ID {
            self.mmdx = Some(MMDX::read(d));
            None
        } else if id == MMID_ID {
            self.mmid = Some(MMID::read(d));
            None
        } else if id == MWMO_ID {
            self.mwmo = Some(MWMO::read(d));
            None
        } else if id == MWID_ID {
            self.mwid = Some(MWID::read(d));
            None
        } else if id == MDDF_ID {
            self.mddf = Some(MDDF::read(d));
            None
        } else if id == MODF_ID {
            self.modf = Some(MODF::read(d));
            None
        } else {
            Some(DecodeError::UnrecognizedTag { tag: id })
        };
        if let Some(e) = failure {
            errs.push(e);
        }
        assert(errs@ =~= adt_chunk_errors(m, wide));
        record_failures(&mut self.failures, &errs, offset);
    }
}

/// Decodes the chunks of a terrain file. `mphd_flags` comes from the world
/// table and selects the blend-mask width. The name and coordinates are left
/// empty.
pub fn parse_adt(data: &Vec<u8>, mphd_flags: &MPHDFlags) -> (r: ADT)
    ensures
        r.filename@ == Seq::<char>::empty(),
        r.x == 0,
        r.y == 0,
        adt_spec(r, data@, mphd_flags.has_height_texturing),
{
    let wide = mphd_flags.has_height_texturing;
    let mut adt = ADT {
        filename: String::new(),
        x: 0,
        y: 0,
        mver: None,
        mhdr: None,
        mcin: None,
        mtex: None,
        mmdx: None,
        mmid: None,
        mwmo: None,
        mwid: None,
        mddf: None,
        modf: None,
        mcnk: Vec::new(),
        failures: Vec::new(),
    };
    let mut pos: usize = 0;
    let ghost mut seen: Seq<ChunkModel> = Seq::empty();
    assert(adt.mcnk@ =~= Seq::<MCNK>::empty());
    loop
        invariant_except_break
            adt.failures@ == adt_failures(seen, wide),
        invariant
            pos <= data@.len(),
            chunks_from(data@, 0).0 == seen + chunks_from(data@, pos as int).0,
            chunks_from(data@, 0).1 == chunks_from(data@, pos as int).1,
            adt_fields(adt, seen, wide),
            adt.filename@ == Seq::<char>::empty(),
            adt.x == 0,
            adt.y == 0,
        ensures
            adt_spec(adt, data@, wide),
            adt.filename@ == Seq::<char>::empty(),
            adt.x == 0,
            adt.y == 0,
        decreases data@.len() - pos,
    {
        let start = pos;
        match next_chunk(data, &mut pos) {
            Ok(None) => {
                assert(seen + Seq::<ChunkModel>::empty() =~= seen);
                assert(adt.failures@ + Seq::<ChunkFailure>::empty() =~= adt.failures@);
                break ;
            },
            Err(e) => {
                assert(seen + Seq::<ChunkModel>::empty() =~= seen);
                let ghost before = adt.failures@;
                adt.failures.push(ChunkFailure { offset: start, error: e });
                assert(adt.failures@ =~= before + truncation(Some(start as int)));
                break ;
            },
            Ok(Some(c)) => {
                proof {
                    lemma_walk_step(data@, start as int, pos as int, seen);
                }
                let ghost m = ChunkModel { offset: start as int, id: c.id, payload: c.data@ };
                adt.absorb(c, start, wide, Ghost(seen));
                proof {
                    seen = seen.push(m);
                }
            },
        }
    }
    adt
}

/// A world table: its file name, the last decoded chunk of each kind and
/// the chunks that failed.
#[derive(Debug)]
pub struct WDT {
    pub filename: String,
    pub mver: Option<MVER>,
    pub mphd: Option<MPHD>,
    pub main: Option<MAIN>,
    pub mwmo: Option<MWMO>,
    pub modf: Option<MODF>,
    pub failures: Vec<ChunkFailure>,
}

/// The chunk-derived fields of `r` are those of the chunks `cs`.
pub open spec fn wdt_fields(r: WDT, cs: Seq<ChunkModel>) -> bool {
    &&& r.mver == mver_of(last_ok(cs, MVER_ID))
    &&& r.mphd == mphd_of(last_ok(cs, MPHD_ID))
    &&& (r.main is Some <==> last_ok(cs, MAIN_ID) is Some)
    &&& (r.main matches Some(m) ==> m.tiles@ == Seq::new(
        4096,
        |k: int| main_tile_at(last_ok(cs, MAIN_ID)->Some_0, 8 * k),
    ))
    &&& strings_of(
        match r.mwmo {
            Some(t) => Some(views(t.filenames@)),
            None => None,
        },
        last_ok(cs, MWMO_ID),
    )
    &&& (r.modf is Some <==> last_ok(cs, MODF_ID) is Some)
    &&& (r.modf matches Some(m) ==> m.parts@ == modf_parts_from(last_ok(cs, MODF_ID)->Some_0, 0))
}

/// `r` holds what the chunks of the world table `b` hold.
pub open spec fn wdt_spec(r: WDT, b: Seq<u8>) -> bool {
    let (cs, t) = chunks_from(b, 0);
    wdt_fields(r, cs) && r.failures@ == wdt_failures(cs) + truncation(t)
}

impl WDT {
    /// Files chunk `c`, which starts at `offset`, into the table.
    fn absorb(&mut self, c: ChunkWrapper, offset: usize, Ghost(seen): Ghost<Seq<ChunkModel>>)
        requires
            wdt_fields(*old(self), seen),
            old(self).failures@ == wdt_failures(seen),
        ensures
            wdt_fields(*final(self), seen.push(ChunkModel { offset: offset as int, id: c.id, payload: c.data@ })),
            final(self).failures@ == wdt_failures(
                seen.push(ChunkModel { offset: offset as int, id: c.id, payload: c.data@ }),
            ),
            final(self).filename == old(self).filename,
    {
        let ghost m = ChunkModel { offset: offset as int, id: c.id, payload: c.data@ };
        proof {
            lemma_push(seen, m);
        }
        let id = c.id;
        let d = &c.data;
        let failure = if id == MVER_ID {
            match MVER::read(d) {
                Some(v) => {
                    self.mver = Some(v);
                    None
                },
                None => Some(DecodeError::TruncatedInput),
            }
        } else if id == MPHD_ID {
            match MPHD::read(d) {
                Some(h) => {
                    self.mphd = Some(h);
                    None
                },
                None => Some(DecodeError::TruncatedInput),
            }
        } else if id == MAIN_ID {
            match MAIN::read(d) {
                Some(m) => {
                    self.main = Some(m);
                    None
                },
                None => Some(DecodeError::TruncatedInput),
            }
        } else if id == MWMO_ID {
            self.mwmo = Some(MWMO::read(d));
            None
        } else if id == MODF_ID {
            self.modf = Some(MODF::read(d));
            None
        } else {
            Some(DecodeError::UnrecognizedTag { tag: id })
        };
        if let Some(e) = failure {
            self.failures.push(ChunkFailure { offset, error: e });
        }
    }

    /// Decodes a world table from the bytes of the file named `filename`.
    pub fn from_file(filename: &str, data: &Vec<u8>) -> (r: WDT)
        ensures
            r.filename@ == filename@,
            wdt_spec(r, data@),
    {
        parse_wdt_file(filename, data)
    }
}

/// Decodes the chunks of a world table; the name is left empty.
pub fn parse_wdt(data: &Vec<u8>) -> (r: WDT)
    ensures
        r.filename@ == Seq::<char>::empty(),
        wdt_spec(r, data@),
{
    let mut wdt = WDT {
        filename: String::new(),
        mver: None,
        mphd: None,
        main: None,
        mwmo: None,
        modf: None,
        failures: Vec::new(),
    };
    let mut pos: usize = 0;
    let ghost mut seen: Seq<ChunkModel> = Seq::empty();
    loop
        invariant_except_break
            wdt.failures@ == wdt_failures(seen),
        invariant
            pos <= data@.len(),
            chunks_from(data@, 0).0 == seen + chunks_from(data@, pos as int).0,
            chunks_from(data@, 0).1 == chunks_from(data@, pos as int).1,
            wdt_fields(wdt, seen),
            wdt.filename@ == Seq::<char>::empty(),
        ensures
            wdt_spec(wdt, data@),
            wdt.filename@ == Seq::<char>::empty(),
        decreases data@.len() - pos,
    {
        let start = pos;
        match next_chunk(data, &mut pos) {
            Ok(None) => {
                assert(seen + Seq::<ChunkModel>::empty() =~= seen);
                assert(wdt.failures@ + Seq::<ChunkFailure>::empty() =~= wdt.failures@);
                break ;
            },
            Err(e) => {
                assert(seen + Seq::<ChunkModel>::empty() =~= seen);
                let ghost before = wdt.failures@;
                wdt.failures.push(ChunkFailure { offset: start, error: e });
                assert(wdt.failures@ =~= before + truncation(Some(start as int)));
                break ;
            },
            Ok(Some(c)) => {
                proof {
                    lemma_walk_step(data@, start as int, pos as int, seen);
                }
                let ghost m = ChunkModel { offset: start as int, id: c.id, payload: c.data@ };
                wdt.absorb(c, start, Ghost(seen));
                proof {
                    seen = seen.push(m);
                }
            },
        }
    }
    wdt
}

/// Decodes the world table named `filename` from its bytes.
pub fn parse_wdt_file(filename: &str, data: &Vec<u8>) -> (r: WDT)
    ensures
        r.filename@ == filename@,
        wdt_spec(r, data@),
{
    let mut wdt = parse_wdt(data);
    wdt.filename = filename.to_owned();
    wdt
}

/// The decimal digits of `n`, most significant first.
pub open spec fn decimal(n: nat) -> Seq<char>
    decreases n,
{
    if n < 10 {
        seq![(n + 48) as char]
    } else {
        decimal(n / 10).push(((n % 10) + 48) as char)
    }
}

fn push_decimal(s: &mut String, n: u32)
    ensures
        final(s)@ == old(s)@ + decimal(n as nat),
    decreases n,
{
    if n >= 10 {
        push_decimal(s, n / 10);
    }
    let d = (n % 10) as u8 + 48;
    s.push(d as char);
    assert(final(s)@ =~= old(s)@ + decimal(n as nat)) by {
        if n >= 10 {
            assert(old(s)@ + decimal(n as nat / 10) + seq![(d as char)] =~= old(s)@ + decimal(n as nat / 10).push(d as char));
        }
    }
}

/// The stem of the terrain file at `(x, y)` of the map `map`:
/// `<map>_<x>_<y>`.
pub fn adt_stem(map: &str, x: u32, y: u32) -> (r: String)
    ensures
        r@ == map@ + seq!['_'] + decimal(x as nat) + seq!['_'] + decimal(y as nat),
{
    let mut s = map.to_owned();
    s.push('_');
    push_decimal(&mut s, x);
    s.push('_');
    push_decimal(&mut s, y);
    s
}

impl ADT {
    /// Decodes a terrain file from its stem (which ends in `_<x>_<y>`) and
    /// bytes, with the world table's flags.
    pub fn from_file(stem: &str, data: &Vec<u8>, mphd_flags: &MPHDFlags) -> (r: Result<ADT, Error>)
        ensures
            r is Err <==> stem_coordinates(stem@) is None,
            r is Err ==> r == Err::<ADT, Error>(Error::MissingCoordinates),
            r matches Ok(a) ==> {
                &&& a.filename@ == stem@
                &&& stem_coordinates(stem@) == Some((a.x, a.y))
                &&& adt_spec(a, data@, mphd_flags.has_height_texturing)
            },
    {
        let (x, y) = match adt_coordinates(stem) {
            Some(c) => c,
            None => {
                return Err(Error::MissingCoordinates);
            },
        };
        let mut adt = parse_adt(data, mphd_flags);
        adt.filename = stem.to_owned();
        adt.x = x;
        adt.y = y;
        Ok(adt)
    }

    /// Decodes the terrain file at `(x, y)` of the map whose world table is
    /// `wdt` and whose name is `map`; the table's header supplies the flags.
    pub fn from_wdt(wdt: &WDT, map: &str, x: u32, y: u32, data: &Vec<u8>) -> (r: Result<ADT, Error>)
        ensures
            r is Err <==> wdt.mphd is None,
            r is Err ==> r == Err::<ADT, Error>(Error::MissingMphd),
            r matches Ok(a) ==> {
                &&& a.filename@ == map@ + seq!['_'] + decimal(x as nat) + seq!['_'] + decimal(y as nat)
                &&& a.x == x
                &&& a.y == y
                &&& adt_spec(a, data@, wdt.mphd->Some_0.flags.has_height_texturing)
            },
    {
        let flags = match &wdt.mphd {
            Some(h) => h.flags,
            None => {
                return Err(Error::MissingMphd);
            },
        };
        let mut adt = parse_adt(data, &flags);
        adt.filename = adt_stem(map, x, y);
        adt.x = x;
        adt.y = y;
        Ok(adt)
    }

    /// Decodes the world table named `wdt_filename` from `wdt_data`, then the
    /// terrain file at `(x, y)` of the map `map` from `adt_data`.
    pub fn from_wdt_file(
        wdt_filename: &str,
        wdt_data: &Vec<u8>,
        map: &str,
        x: u32,
        y: u32,
        adt_data: &Vec<u8>,
    ) -> (r: Result<ADT, Error>)
        ensures
            ({
                let cs = chunks_from(wdt_data@, 0).0;
                &&& (r is Err <==> last_ok(cs, MPHD_ID) is None)
                &&& (r is Err ==> r == Err::<ADT, Error>(Error::MissingMphd))
                &&& (r matches Ok(a) ==> {
                    &&& a.filename@ == map@ + seq!['_'] + decimal(x as nat) + seq!['_'] + decimal(
                        y as nat,
                    )
                    &&& a.x == x
                    &&& a.y == y
                    &&& adt_spec(a, adt_data@, mphd_of(last_ok(cs, MPHD_ID))->Some_0.flags.has_height_texturing)
                })
            }),
    {
        let wdt = WDT::from_file(wdt_filename, wdt_data);
        ADT::from_wdt(&wdt, map, x, y, adt_data)
    }
}

} // verus!
