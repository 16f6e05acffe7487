//! Shader containers: a four-character kind, a version, a permutation count
//! and a table of block offsets (twelve for pixel shaders, six for vertex
//! shaders); each non-zero offset locates a block of constants, parameters
//! and code.
use vstd::prelude::*;

use crate::bytes::{fits, read_u32, read_u32_array, u32_array, u32_le};
use crate::strings::latin1;

verus! {

/// Bytes of one parameter record.
pub const BLS_PARAM_SIZE: usize = 144;

#[derive(Clone, Copy, Debug, PartialEq, Eq, Structural)]
pub enum ParamType {
    Vector4,
    Matrix34,
    Matrix44,
    Texture,
    BumpMatrix,
    Vec3,
    Vec2,
    Vec1,
    Matrix33,
    Struct,
    Array,
    Force32Bit,
}

pub open spec fn param_type_spec(v: int) -> Option<ParamType> {
    if v == 0 {
        Some(ParamType::Vector4)
    } else if v == 1 {
        Some(ParamType::Matrix34)
    } else if v == 2 {
        Some(ParamType::Matrix44)
    } else if v == 3 {
        Some(ParamType::Texture)
    } else if v == 4 {
        Some(ParamType::BumpMatrix)
    } else if v == 5 {
        Some(ParamType::Vec3)
    } else if v == 6 {
        Some(ParamType::Vec2)
    } else if v == 7 {
        Some(ParamType::Vec1)
    } else if v == 8 {
        Some(ParamType::Matrix33)
    } else if v == 9 {
        Some(ParamType::Struct)
    } else if v == 10 {
        Some(ParamType::Array)
    } else if v == 0xFFFF_FFFF {
        Some(ParamType::Force32Bit)
    } else {
        None
    }
}

impl ParamType {
    pub fn from_u32(v: u32) -> (r: Option<ParamType>)
        ensures
            r == param_type_spec(v as int),
    {
        match v {
            0 => Some(ParamType::Vector4),
            1 => Some(ParamType::Matrix34),
            2 => Some(ParamType::Matrix44),
            3 => Some(ParamType::Texture),
            4 => Some(ParamType::BumpMatrix),
            5 => Some(ParamType::Vec3),
            6 => Some(ParamType::Vec2),
            7 => Some(ParamType::Vec1),
            8 => Some(ParamType::Matrix33),
            9 => Some(ParamType::Struct),
            10 => Some(ParamType::Array),
            0xFFFF_FFFF => Some(ParamType::Force32Bit),
            _ => None,
        }
    }
}

/// The characters of `s` with the zero bytes left out.
pub open spec fn without_nul(s: Seq<u8>) -> Seq<char>
    decreases s.len(),
{
    if s.len() == 0 {
        Seq::empty()
    } else if s.last() == 0 {
        without_nul(s.drop_last())
    } else {
        without_nul(s.drop_last()).push(s.last() as char)
    }
}

/// The `n` bytes of `d` at `p` as text, zero bytes left out.
pub fn text_without_nul(d: &Vec<u8>, p: usize, n: usize) -> (r: String)
    requires
        fits(d@, p as int, n as int),
    ensures
        r@ == without_nul(d@.subrange(p as int, p + n)),
{
    let mut s = String::new();
    let mut i: usize = 0;
    while i < n
        invariant
            fits(d@, p as int, n as int),
            d@.len() == d.len(),
            i <= n,
            s@ == without_nul(d@.subrange(p as int, p + i)),
        decreases n - i,
    {
        let b = d[p + i];
        assert(d@.subrange(p as int, p + i + 1).drop_last() =~= d@.subrange(p as int, p + i));
        if b != 0 {
            s.push(b as char);
        }
        i = i + 1;
    }
    s
}

/// One constant or parameter; `float` holds single-precision bits.
#[derive(Debug)]
pub struct BLSBlockParam {
    pub name: String,
    pub binding: u32,
    pub float: Vec<u32>,
    pub param_type: ParamType,
    pub unk: u32,
    pub unk2: u32,
}

pub open spec fn param_ok(d: Seq<u8>, p: int) -> bool {
    fits(d, p, 144) && param_type_spec(u32_le(d, p + 132)) is Some
}

/// `r` is the parameter stored at `p`.
pub open spec fn param_spec(r: BLSBlockParam, d: Seq<u8>, p: int) -> bool {
    &&& r.name@ == without_nul(d.subrange(p, p + 64))
    &&& r.binding as int == u32_le(d, p + 64)
    &&& r.float@ == u32_array(d, p + 68, 16)
    &&& Some(r.param_type) == param_type_spec(u32_le(d, p + 132))
    &&& r.unk as int == u32_le(d, p + 136)
    &&& r.unk2 as int == u32_le(d, p + 140)
}

impl BLSBlockParam {
    pub fn read(d: &Vec<u8>, p: usize) -> (r: Option<BLSBlockParam>)
        ensures
            r is Some <==> param_ok(d@, p as int),
            r matches Some(v) ==> param_spec(v, d@, p as int),
    {
        if p > d.len() || d.len() - p < BLS_PARAM_SIZE {
            return None;
        }
        let param_type = match ParamType::from_u32(read_u32(d, p + 132).unwrap()) {
            Some(t) => t,
            None => {
                return None;
            },
        };
        Some(
            BLSBlockParam {
                name: text_without_nul(d, p, 64),
                binding: read_u32(d, p + 64).unwrap(),
                float: read_u32_array(d, p + 68, 16).unwrap(),
                param_type,
                unk: read_u32(d, p + 136).unwrap(),
                unk2: read_u32(d, p + 140).unwrap(),
            },
        )
    }
}

/// Whether `n` parameters are stored one after the other from `p`.
pub open spec fn params_ok(d: Seq<u8>, p: int, n: int) -> bool {
    &&& fits(d, p, 144 * n)
    &&& forall|k: int| 0 <= k < n ==> #[trigger] param_ok(d, p + 144 * k)
}

pub open spec fn params_spec(v: Seq<BLSBlockParam>, d: Seq<u8>, p: int, n: int) -> bool {
    &&& v.len() == n
    &&& forall|k: int| 0 <= k < n ==> #[trigger] param_spec(v[k], d, p + 144 * k)
}

/// Reads `n` parameters from `p`, or `None` when one of them does not
/// decode.
fn read_params(d: &Vec<u8>, p: usize, n: u32) -> (r: Option<Vec<BLSBlockParam>>)
    ensures
        r is Some <==> params_ok(d@, p as int, n as int),
        r matches Some(v) ==> params_spec(v@, d@, p as int, n as int),
{
    if p > d.len() || ((d.len() - p) as u64) < 144 * (n as u64) {
        return None;
    }
    let mut out: Vec<BLSBlockParam> = Vec::new();
    let mut k: usize = 0;
    while k < n as usize
        invariant
            fits(d@, p as int, 144 * n),
            d@.len() == d.len(),
            k <= n,
            forall|j: int| 0 <= j < k ==> #[trigger] param_ok(d@, p + 144 * j),
            params_spec(out@, d@, p as int, k as int),
        decreases n - k,
    {
        match BLSBlockParam::read(d, p + BLS_PARAM_SIZE * k) {
            Some(v) => {
                out.push(v);
            },
            None => {
                return None;
            },
        }
        k = k + 1;
    }
    Some(out)
}

/// One block of a shader container.
#[derive(Debug)]
pub struct BLSBlock {
    /// Its position in the offset table.
    pub index: usize,
    pub constant_count: u32,
    pub constants: Vec<BLSBlockParam>,
    pub param_count: u32,
    pub params: Vec<BLSBlockParam>,
    pub unk: u32,
    pub bytes: u32,
    /// The code, zero bytes left out.
    pub code: String,
}

/// Where the parameter count of the block at `p` is stored.
pub open spec fn params_at(d: Seq<u8>, p: int) -> int {
    p + 4 + 144 * u32_le(d, p)
}

/// Where the trailer (`unk`, `bytes`) of the block at `p` is stored.
pub open spec fn trailer_at(d: Seq<u8>, p: int) -> int {
    params_at(d, p) + 4 + 144 * u32_le(d, params_at(d, p))
}

pub open spec fn block_ok(d: Seq<u8>, p: int) -> bool {
    &&& fits(d, p, 4)
    &&& params_ok(d, p + 4, u32_le(d, p))
    &&& fits(d, params_at(d, p), 4)
    &&& params_ok(d, params_at(d, p) + 4, u32_le(d, params_at(d, p)))
    &&& fits(d, trailer_at(d, p), 8)
    &&& fits(d, trailer_at(d, p) + 8, u32_le(d, trailer_at(d, p) + 4))
}

/// `b` is the block at `p`, with table index `index`.
pub open spec fn block_spec(b: BLSBlock, d: Seq<u8>, p: int, index: int) -> bool {
    let q = params_at(d, p);
    let t = trailer_at(d, p);
    &&& b.index == index
    &&& b.constant_count as int == u32_le(d, p)
    &&& params_spec(b.constants@, d, p + 4, u32_le(d, p))
    &&& b.param_count as int == u32_le(d, q)
    &&& params_spec(b.params@, d, q + 4, u32_le(d, q))
    &&& b.unk as int == u32_le(d, t)
    &&& b.bytes as int == u32_le(d, t + 4)
    &&& b.code@ == without_nul(d.subrange(t + 8, t + 8 + u32_le(d, t + 4)))
}

impl BLSBlock {
    pub fn read(d: &Vec<u8>, p: usize, index: usize) -> (r: Option<BLSBlock>)
        ensures
            r is Some <==> block_ok(d@, p as int),
            r matches Some(b) ==> block_spec(b, d@, p as int, index as int),
    {
        assert(d@.len() == d.len());
        let constant_count = match read_u32(d, p) {
            Some(c) => c,
            None => {
                return None;
            },
        };
        let constants = match read_params(d, p + 4, constant_count) {
            Some(v) => v,
            None => {
                return None;
            },
        };
        let q = p + 4 + BLS_PARAM_SIZE * constant_count as usize;
        let param_count = match read_u32(d, q) {
            Some(c) => c,
            None => {
                return None;
            },
        };
        let params = match read_params(d, q + 4, param_count) {
            Some(v) => v,
            None => {
                return None;
            },
        };
        let t = q + 4 + BLS_PARAM_SIZE * param_count as usize;
        if t > d.len() || d.len() - t < 8 {
            return None;
        }
        let unk = read_u32(d, t).unwrap();
        let bytes = read_u32(d, t + 4).unwrap();
        if d.len() - (t + 8) < bytes as usize {
            return None;
        }
        let code = text_without_nul(d, t + 8, bytes as usize);
        Some(BLSBlock { index, constant_count, constants, param_count, params, unk, bytes, code })
    }
}

/// Why a shader container could not be decoded.
#[derive(Clone, Copy, Debug, PartialEq, Eq, Structural)]
pub enum BlsError {
    /// The header or the offset table is cut short.
    TruncatedInput,
    /// The kind is neither `SPXG` nor `SVXG`.
    UnknownShaderType,
    /// The block at this index of the offset table does not decode.
    MalformedBlock { index: usize },
}

/// A shader container.
#[derive(Debug)]
pub struct BLS {
    pub token: String,
    pub version: u32,
    pub permutation_count: u32,
    /// The blocks at non-zero offsets, in table order.
    pub blocks: Vec<BLSBlock>,
}

/// Entries of the offset table for the kind stored at the start of `d`, or
/// zero for an unknown kind.
pub open spec fn offset_count(d: Seq<u8>) -> int {
    if d[0] == 0x53 && d[1] == 0x50 && d[2] == 0x58 && d[3] == 0x47 {
        12
    } else if d[0] == 0x53 && d[1] == 0x56 && d[2] == 0x58 && d[3] == 0x47 {
        6
    } else {
        0
    }
}

pub open spec fn block_offset(d: Seq<u8>, i: int) -> int {
    u32_le(d, 12 + 4 * i)
}

/// The table indices below `n` whose offset is non-zero.
pub open spec fn present_blocks(d: Seq<u8>, n: int) -> Seq<int>
    decreases n,
{
    if n <= 0 {
        Seq::empty()
    } else if block_offset(d, n - 1) != 0 {
        present_blocks(d, n - 1).push(n - 1)
    } else {
        present_blocks(d, n - 1)
    }
}

/// The first present block below `n` that does not decode, if any.
pub open spec fn first_bad_block(d: Seq<u8>, n: int) -> Option<int>
    decreases n,
{
    if n <= 0 {
        None
    } else {
        match first_bad_block(d, n - 1) {
            Some(i) => Some(i),
            None => if block_offset(d, n - 1) != 0 && !block_ok(d, block_offset(d, n - 1)) {
                Some(n - 1)
            } else {
                None
            },
        }
    }
}

pub open spec fn bls_error(d: Seq<u8>) -> Option<BlsError> {
    if d.len() < 12 {
        Some(BlsError::TruncatedInput)
    } else if offset_count(d) == 0 {
        Some(BlsError::UnknownShaderType)
    } else if !fits(d, 12, 4 * offset_count(d)) {
        Some(BlsError::TruncatedInput)
    } else {
        match first_bad_block(d, offset_count(d)) {
            Some(i) => Some(BlsError::MalformedBlock { index: i as usize }),
            None => None,
        }
    }
}

impl BLS {
    /// Decodes a shader container.
    pub fn read(d: &Vec<u8>) -> (r: Result<BLS, BlsError>)
        ensures
            r is Err <==> bls_error(d@) is Some,
            r matches Err(e) ==> bls_error(d@) == Some(e),
            r matches Ok(s) ==> {
                let present = present_blocks(d@, offset_count(d@));
                &&& s.token@ == latin1(d@.subrange(0, 4))
                &&& s.version as int == u32_le(d@, 4)
                &&& s.permutation_count as int == u32_le(d@, 8)
                &&& s.blocks@.len() == present.len()
                &&& forall|j: int|
                    0 <= j < present.len() ==> block_spec(
                        #[trigger] s.blocks@[j],
                        d@,
                        block_offset(d@, present[j]),
                        present[j],
                    )
            },
    {
        if d.len() < 12 {
            return Err(BlsError::TruncatedInput);
        }
        let raw = crate::bytes::copy_range(d, 0, 4);
        let token = crate::strings::char_vec_to_string_le(&raw, false);
        let version = read_u32(d, 4).unwrap();
        let permutation_count = read_u32(d, 8).unwrap();
        let n: usize = if d[0] == 0x53 && d[1] == 0x50 && d[2] == 0x58 && d[3] == 0x47 {
            12
        } else if d[0] == 0x53 && d[1] == 0x56 && d[2] == 0x58 && d[3] == 0x47 {
            6
        } else {
            return Err(BlsError::UnknownShaderType);
        };
        let offsets = match read_u32_array(d, 12, n) {
            Some(v) => v,
            None => {
                return Err(BlsError::TruncatedInput);
            },
        };
        let mut blocks: Vec<BLSBlock> = Vec::new();
        let mut i: usize = 0;
        while i < n
            invariant
                d@.len() >= 12,
                n == offset_count(d@),
                n > 0,
                fits(d@, 12, 4 * n),
                i <= n,
                offsets@ == u32_array(d@, 12, n as nat),
                first_bad_block(d@, i as int) is None,
                blocks@.len() == present_blocks(d@, i as int).len(),
                forall|j: int|
                    0 <= j < present_blocks(d@, i as int).len() ==> block_spec(
                        #[trigger] blocks@[j],
                        d@,
                        block_offset(d@, present_blocks(d@, i as int)[j]),
                        present_blocks(d@, i as int)[j],
                    ),
            decreases n - i,
        {
            let offset = offsets[i];
            assert(offset as int == block_offset(d@, i as int));
            if offset != 0 {
                match BLSBlock::read(d, offset as usize, i) {
                    Some(b) => {
                        blocks.push(b);
                    },
                    None => {
                        assert(first_bad_block(d@, i as int + 1) == Some(i as int));
                        proof {
                            lemma_first_bad_stays(d@, i as int + 1, n as int);
                        }
                        return Err(BlsError::MalformedBlock { index: i });
                    },
                }
            }
            i = i + 1;
        }
        Ok(BLS { token, version, permutation_count, blocks })
    }
}

proof fn lemma_first_bad_stays(d: Seq<u8>, n: int, m: int)
    requires
        0 <= n <= m,
        first_bad_block(d, n) is Some,
    ensures
        first_bad_block(d, m) == first_bad_block(d, n),
    decreases m - n,
{
    if n < m {
        lemma_first_bad_stays(d, n + 1, m);
    }
}

} // verus!
