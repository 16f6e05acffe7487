//! The chunk container: a four-byte tag stored in reverse order, a
//! little-endian `u32` length and that many payload bytes.
use vstd::prelude::*;

use crate::bytes::{copy_range, fits, read_u32, u32_le};
use crate::error::DecodeError;
use crate::strings::{char_vec_to_string_le, latin1};

verus! {

/// Size of a chunk header: the tag and the length.
pub const CHUNK_HEADER_SIZE: usize = 8;

/// The logical identifier of a tag stored as `raw` on disk: its bytes in
/// reverse order, each as the character of that code.
pub open spec fn decode_tag(raw: Seq<u8>) -> Seq<char> {
    seq![raw[3] as char, raw[2] as char, raw[1] as char, raw[0] as char]
}

/// The on-disk bytes of a logical identifier.
pub open spec fn encode_tag(t: Seq<char>) -> Seq<u8> {
    seq![t[3] as u8, t[2] as u8, t[1] as u8, t[0] as u8]
}

/// Decoding a stored tag and encoding the identifier again gives back the
/// stored bytes.
pub proof fn tag_round_trip(raw: Seq<u8>)
    requires
        raw.len() == 4,
    ensures
        encode_tag(decode_tag(raw)) == raw,
{
    let t = decode_tag(raw);
    assert forall|i: int| 0 <= i < 4 implies (raw[i] as char) as u8 == raw[i] by {
        let b = raw[i];
        assert((b as char) as u8 == b);
    }
    assert(t[0] as u8 == raw[3]);
    assert(t[1] as u8 == raw[2]);
    assert(t[2] as u8 == raw[1]);
    assert(t[3] as u8 == raw[0]);
    assert(encode_tag(t) =~= raw);
}

/// One chunk read from a container.
#[derive(Debug)]
pub struct ChunkWrapper {
    /// The logical identifier, e.g. `MVER`.
    pub token: String,
    /// The four on-disk tag bytes read as a little-endian number; written in
    /// hexadecimal it spells the logical identifier (`0x4D564552` is `MVER`).
    pub id: u32,
    pub size: u32,
    pub data: Vec<u8>,
}

/// Reads a four-byte tag and returns its logical identifier.
pub fn token_parse(b: &Vec<u8>, p: usize) -> (r: Option<String>)
    ensures
        r is Some <==> fits(b@, p as int, 4),
        r matches Some(t) ==> t@ == decode_tag(b@.subrange(p as int, p + 4)),
{
    if p > b.len() || b.len() - p < 4 {
        return None;
    }
    let raw = copy_range(b, p, 4);
    let t = char_vec_to_string_le(&raw, true);
    assert(latin1(raw@).reverse() =~= decode_tag(raw@));
    Some(t)
}

/// Whether a whole chunk starts at `p`: an eight-byte header and the payload
/// its length announces.
pub open spec fn chunk_fits(b: Seq<u8>, p: int) -> bool {
    fits(b, p, 8) && fits(b, p + 8, u32_le(b, p + 4))
}

/// Reads the chunk at `*pos` and moves `*pos` past it.
///
/// `Ok(None)` when no bytes remain; `TruncatedInput` when fewer than eight
/// header bytes, or fewer payload bytes than the length says, remain. On
/// every outcome but a chunk read, `*pos` is left as it was.
pub fn next_chunk(b: &Vec<u8>, pos: &mut usize) -> (r: Result<Option<ChunkWrapper>, DecodeError>)
    ensures
        r == Ok::<Option<ChunkWrapper>, DecodeError>(None) <==> *old(pos) == b@.len(),
        r is Err <==> *old(pos) != b@.len() && !chunk_fits(b@, *old(pos) as int),
        r is Err ==> r == Err::<Option<ChunkWrapper>, DecodeError>(DecodeError::TruncatedInput),
        !(r matches Ok(Some(_))) ==> *final(pos) == *old(pos),
        *old(pos) <= b@.len() ==> *final(pos) <= b@.len(),
        r matches Ok(Some(c)) ==> {
            let p = *old(pos) as int;
            &&& chunk_fits(b@, p)
            &&& c.token@ == decode_tag(b@.subrange(p, p + 4))
            &&& c.id as int == u32_le(b@, p)
            &&& c.size as int == u32_le(b@, p + 4)
            &&& c.data@ == b@.subrange(p + 8, p + 8 + c.size)
            &&& *final(pos) == p + 8 + c.size
        },
{
    let p = *pos;
    if p == b.len() {
        return Ok(None);
    }
    if p > b.len() || b.len() - p < CHUNK_HEADER_SIZE {
        return Err(DecodeError::TruncatedInput);
    }
    let id = read_u32(b, p).unwrap();
    let size = read_u32(b, p + 4).unwrap();
    if ((b.len() - (p + 8)) as u64) < size as u64 {
        return Err(DecodeError::TruncatedInput);
    }
    let token = token_parse(b, p).unwrap();
    let data = copy_range(b, p + 8, size as usize);
    *pos = p + 8 + size as usize;
    Ok(Some(ChunkWrapper { token, id, size, data }))
}

} // verus!
