//! Texture files: a fixed header, then up to sixteen mipmap levels located by
//! offset and size. DXT-compressed levels are decompressed with the
//! `texpresso` codec; other encodings are carried as empty levels.
use vstd::prelude::*;

use crate::bytes::{fits, read_u32, u32_le};

verus! {

/// Bytes of the texture header.
pub const BLP_HEADER_SIZE: usize = 148;

/// Mipmap levels a texture can have.
pub const BLP_MIP_LEVELS: usize = 16;

/// One decompressed pixel.
#[derive(Clone, Copy, Debug, PartialEq, Eq, Structural)]
pub struct BLPPixel {
    pub b: u8,
    pub g: u8,
    pub r: u8,
    pub _pad: u8,
}

#[derive(Clone, Copy, Debug, PartialEq, Eq, Structural)]
pub enum AlphaCompression {
    DXT1,
    DXT3,
    ARGB8888,
    ARGB1555,
    ARGB4444,
    RGB565,
    A8,
    DXT5,
    UNSPECIFIED,
    ARGB2565,
    BC5,
    NumPixelFormats,
}

#[derive(Clone, Copy, Debug, PartialEq, Eq, Structural)]
pub enum ColorEncoding {
    JPEG,
    PALETTE,
    DXT,
    ARGB8888,
    ARGB8888_,
}

/// Why a texture could not be decoded.
#[derive(Clone, Copy, Debug, PartialEq, Eq, Structural)]
pub enum BlpError {
    /// The header is shorter than its fixed size.
    TruncatedInput,
    /// An encoding byte of the header is not a known value.
    InvalidValue,
    /// The encoding (JPEG, or a DXT level with a non-DXT alpha
    /// compression) is not supported.
    Unsupported,
    /// A DXT texture of width zero.
    ZeroWidth,
    /// A DXT texture whose buffers would not fit in memory.
    TooLarge,
}

pub open spec fn color_encoding_spec(v: u8) -> Option<ColorEncoding> {
    if v == 0 {
        Some(ColorEncoding::JPEG)
    } else if v == 1 {
        Some(ColorEncoding::PALETTE)
    } else if v == 2 {
        Some(ColorEncoding::DXT)
    } else if v == 3 {
        Some(ColorEncoding::ARGB8888)
    } else if v == 4 {
        Some(ColorEncoding::ARGB8888_)
    } else {
        None
    }
}

pub open spec fn alpha_compression_spec(v: u8) -> Option<AlphaCompression> {
    if v == 0 {
        Some(AlphaCompression::DXT1)
    } else if v == 1 {
        Some(AlphaCompression::DXT3)
    } else if v == 2 {
        Some(AlphaCompression::ARGB8888)
    } else if v == 3 {
        Some(AlphaCompression::ARGB1555)
    } else if v == 4 {
        Some(AlphaCompression::ARGB4444)
    } else if v == 5 {
        Some(AlphaCompression::RGB565)
    } else if v == 6 {
        Some(AlphaCompression::A8)
    } else if v == 7 {
        Some(AlphaCompression::DXT5)
    } else if v == 8 {
        Some(AlphaCompression::UNSPECIFIED)
    } else if v == 9 {
        Some(AlphaCompression::ARGB2565)
    } else if v == 11 {
        Some(AlphaCompression::BC5)
    } else if v == 12 {
        Some(AlphaCompression::NumPixelFormats)
    } else {
        None
    }
}

impl ColorEncoding {
    pub fn from_u8(v: u8) -> (r: Option<ColorEncoding>)
        ensures
            r == color_encoding_spec(v),
    {
        match v {
            0 => Some(ColorEncoding::JPEG),
            1 => Some(ColorEncoding::PALETTE),
            2 => Some(ColorEncoding::DXT),
            3 => Some(ColorEncoding::ARGB8888),
            4 => Some(ColorEncoding::ARGB8888_),
            _ => None,
        }
    }
}

impl AlphaCompression {
    pub fn from_u8(v: u8) -> (r: Option<AlphaCompression>)
        ensures
            r == alpha_compression_spec(v),
    {
        match v {
            0 => Some(AlphaCompression::DXT1),
            1 => Some(AlphaCompression::DXT3),
            2 => Some(AlphaCompression::ARGB8888),
            3 => Some(AlphaCompression::ARGB1555),
            4 => Some(AlphaCompression::ARGB4444),
            5 => Some(AlphaCompression::RGB565),
            6 => Some(AlphaCompression::A8),
            7 => Some(AlphaCompression::DXT5),
            8 => Some(AlphaCompression::UNSPECIFIED),
            9 => Some(AlphaCompression::ARGB2565),
            11 => Some(AlphaCompression::BC5),
            12 => Some(AlphaCompression::NumPixelFormats),
            _ => None,
        }
    }
}

/// The block codec of a DXT alpha compression: 1, 2 and 3 for BC1, BC2 and
/// BC3; 0 when it is not a DXT compression.
pub open spec fn dxt_code(a: AlphaCompression) -> u8 {
    match a {
        AlphaCompression::DXT1 => 1,
        AlphaCompression::DXT3 => 2,
        AlphaCompression::DXT5 => 3,
        _ => 0,
    }
}

/// Bytes of one compressed 4 x 4 block.
pub open spec fn block_bytes(code: u8) -> int {
    if code == 1 {
        8
    } else {
        16
    }
}

/// Bytes of a compressed image: one block per 4 x 4 pixels, rounded up.
pub open spec fn compressed_size(code: u8, w: int, h: int) -> int {
    ((w + 3) / 4) * ((h + 3) / 4) * block_bytes(code)
}

/// The RGBA pixels (four bytes each, row after row) that the `texpresso`
/// codec makes of a compressed image.
pub uninterp spec fn dxt_decoded(code: u8, data: Seq<u8>, width: nat, height: nat) -> Seq<u8>;

/// Relies on `texpresso::Format::decompress`: for a non-zero width whose
/// rows of blocks (`16 * width` bytes) fit in memory, enough
/// compressed blocks and an output buffer of `4 * width * height` bytes, it
/// fills that buffer with RGBA pixels, as a function of its arguments alone.
#[verifier::external_body]
fn dxt_decompress(code: u8, data: &Vec<u8>, width: usize, height: usize, out_len: usize) -> (r: Vec<u8>)
    requires
        1 <= code <= 3,
        width > 0,
        16 * width <= usize::MAX,
        data@.len() >= compressed_size(code, width as int, height as int),
        out_len == 4 * width * height,
    ensures
        r@.len() == out_len,
        r@ == dxt_decoded(code, data@, width as nat, height as nat),
{
    let format = match code {
        1 => texpresso::Format::Bc1,
        2 => texpresso::Format::Bc2,
        _ => texpresso::Format::Bc3,
    };
    let mut out = vec![0u8; out_len];
    format.decompress(data, width, height, &mut out);
    out
}

/// One decompressed mipmap level.
#[derive(Debug)]
pub struct Mipmap {
    pub decompressed: Vec<u8>,
}

/// Why a level with these encodings and size cannot be decoded, if it can't.
pub open spec fn mip_error(ce: ColorEncoding, ac: AlphaCompression, w: u32, h: u32) -> Option<BlpError> {
    match ce {
        ColorEncoding::JPEG => Some(BlpError::Unsupported),
        ColorEncoding::DXT => if dxt_code(ac) == 0 {
            Some(BlpError::Unsupported)
        } else if w == 0 {
            Some(BlpError::ZeroWidth)
        } else if 16 * w > usize::MAX || 4 * w * h > usize::MAX || compressed_size(dxt_code(ac), w as int, h as int)
            > usize::MAX {
            Some(BlpError::TooLarge)
        } else {
            None
        },
        _ => None,
    }
}

/// The compressed bytes of a level: the `valid` bytes at `off`, as far as
/// both the level's size and the file reach, and zeros after them.
pub open spec fn mip_source(d: Seq<u8>, off: int, size: int, valid: int) -> Seq<u8> {
    Seq::new(valid as nat, |i: int| if i < size && off + i < d.len() { d[off + i] } else { 0u8 })
}

/// The pixels of a level that decodes.
pub open spec fn mip_pixels(
    d: Seq<u8>,
    off: u32,
    size: u32,
    ce: ColorEncoding,
    ac: AlphaCompression,
    w: u32,
    h: u32,
) -> Seq<u8> {
    match ce {
        ColorEncoding::DXT => dxt_decoded(
            dxt_code(ac),
            mip_source(d, off as int, size as int, compressed_size(dxt_code(ac), w as int, h as int)),
            w as nat,
            h as nat,
        ),
        _ => Seq::empty(),
    }
}

impl Mipmap {
    /// Decodes the level of `buffer_size` bytes at `offset` of the file `d`.
    pub fn read(
        d: &Vec<u8>,
        offset: u32,
        buffer_size: u32,
        color_encoding: ColorEncoding,
        alpha_compression: AlphaCompression,
        width: u32,
        height: u32,
    ) -> (r: Result<Mipmap, BlpError>)
        ensures
            r is Err <==> mip_error(color_encoding, alpha_compression, width, height) is Some,
            r matches Err(e) ==> mip_error(color_encoding, alpha_compression, width, height) == Some(e),
            r matches Ok(m) ==> (color_encoding == ColorEncoding::DXT ==> m.decompressed@.len() == 4
                * width * height),
            r matches Ok(m) ==> m.decompressed@ == mip_pixels(
                d@,
                offset,
                buffer_size,
                color_encoding,
                alpha_compression,
                width,
                height,
            ),
    {
        match color_encoding {
            ColorEncoding::JPEG => {
                return Err(BlpError::Unsupported);
            },
            ColorEncoding::DXT => {},
            _ => {
                return Ok(Mipmap { decompressed: Vec::new() });
            },
        }
        let code: u8 = match alpha_compression {
            AlphaCompression::DXT1 => 1,
            AlphaCompression::DXT3 => 2,
            AlphaCompression::DXT5 => 3,
            _ => {
                return Err(BlpError::Unsupported);
            },
        };
        if width == 0 {
            return Err(BlpError::ZeroWidth);
        }
        let block: u128 = if code == 1 {
            8
        } else {
            16
        };
        let w = width as u128;
        let h = height as u128;
        assert(w * h <= 0xffff_ffff * 0xffff_ffff) by (nonlinear_arith)
            requires
                w <= 0xffff_ffff,
                h <= 0xffff_ffff,
        ;
        assert(((w + 3) / 4) * ((h + 3) / 4) <= 0xffff_ffff * 0xffff_ffff) by (nonlinear_arith)
            requires
                w <= 0xffff_ffff,
                h <= 0xffff_ffff,
        ;
        let pixels: u128 = 4 * (w * h);
        assert(pixels == 4 * width * height) by (nonlinear_arith)
            requires
                pixels == 4 * (w * h),
                w == width,
                h == height,
        ;
        let valid: u128 = ((w + 3) / 4) * ((h + 3) / 4) * block;
        assert(valid == compressed_size(code, width as int, height as int)) by (nonlinear_arith)
            requires
                block as int == block_bytes(code),
                valid == ((width as u128 + 3) / 4) * ((height as u128 + 3) / 4) * block,
                w == width,
                h == height,
        ;
        if 16 * w > usize::MAX as u128 || pixels > usize::MAX as u128 || valid > usize::MAX as u128 {
            return Err(BlpError::TooLarge);
        }
        let valid = valid as usize;
        let mut compressed: Vec<u8> = Vec::new();
        let mut i: usize = 0;
        while i < valid
            invariant
                i <= valid,
                compressed@ =~= mip_source(d@, offset as int, buffer_size as int, valid as int).take(
                    i as int,
                ),
            decreases valid - i,
        {
            let v = if (i as u64) < (buffer_size as u64) && (offset as usize) < d.len() && i < d.len()
                - offset as usize {
                d[offset as usize + i]
            } else {
                0
            };
            compressed.push(v);
            i = i + 1;
            assert(compressed@ =~= mip_source(d@, offset as int, buffer_size as int, valid as int).take(
                i as int,
            ));
        }
        assert(compressed@ =~= mip_source(d@, offset as int, buffer_size as int, valid as int));
        let out_len = pixels as usize;
        let decompressed = dxt_decompress(code, &compressed, width as usize, height as usize, out_len);
        Ok(Mipmap { decompressed })
    }
}

/// A texture.
#[derive(Debug)]
pub struct BLP {
    pub magic: u32,
    pub version: u32,
    pub color_encoding: ColorEncoding,
    pub alpha_channel_bit_depth: u8,
    pub alpha_compression: AlphaCompression,
    pub has_mips: u8,
    pub width: u32,
    pub height: u32,
    /// The levels whose offset and size are both non-zero, in level order.
    pub mipmaps: Vec<Mipmap>,
}

pub open spec fn mip_offset(d: Seq<u8>, i: int) -> u32 {
    u32_le(d, 20 + 4 * i) as u32
}

pub open spec fn mip_size(d: Seq<u8>, i: int) -> u32 {
    u32_le(d, 84 + 4 * i) as u32
}

/// The levels among the first `n` whose offset and size are both non-zero.
pub open spec fn present_levels(d: Seq<u8>, n: int) -> Seq<int>
    decreases n,
{
    if n <= 0 {
        Seq::empty()
    } else if mip_offset(d, n - 1) != 0 && mip_size(d, n - 1) != 0 {
        present_levels(d, n - 1).push(n - 1)
    } else {
        present_levels(d, n - 1)
    }
}

/// Why the texture `d` cannot be decoded, if it can't: a short header, an
/// unknown encoding, or a present level that cannot be decoded.
pub open spec fn blp_error(d: Seq<u8>) -> Option<BlpError> {
    if d.len() < 148 {
        Some(BlpError::TruncatedInput)
    } else if color_encoding_spec(d[8]) is None || alpha_compression_spec(d[10]) is None {
        Some(BlpError::InvalidValue)
    } else if present_levels(d, 16).len() > 0 {
        mip_error(
            color_encoding_spec(d[8])->Some_0,
            alpha_compression_spec(d[10])->Some_0,
            u32_le(d, 12) as u32,
            u32_le(d, 16) as u32,
        )
    } else {
        None
    }
}

impl BLP {
    /// Decodes a texture file.
    pub fn read(d: &Vec<u8>) -> (r: Result<BLP, BlpError>)
        ensures
            r is Err <==> blp_error(d@) is Some,
            r matches Err(e) ==> blp_error(d@) == Some(e),
            r matches Ok(b) ==> {
                let ce = color_encoding_spec(d@[8])->Some_0;
                let ac = alpha_compression_spec(d@[10])->Some_0;
                let levels = present_levels(d@, 16);
                &&& b.magic as int == u32_le(d@, 0)
                &&& b.version as int == u32_le(d@, 4)
                &&& b.color_encoding == ce
                &&& b.alpha_channel_bit_depth == d@[9]
                &&& b.alpha_compression == ac
                &&& b.has_mips == d@[11]
                &&& b.width as int == u32_le(d@, 12)
                &&& b.height as int == u32_le(d@, 16)
                &&& b.mipmaps@.len() == levels.len()
                &&& forall|j: int|
                    0 <= j < levels.len() ==> (#[trigger] b.mipmaps@[j]).decompressed@ == mip_pixels(
                        d@,
                        mip_offset(d@, levels[j]),
                        mip_size(d@, levels[j]),
                        ce,
                        ac,
                        b.width,
                        b.height,
                    )
            },
    {
        if d.len() < BLP_HEADER_SIZE {
            return Err(BlpError::TruncatedInput);
        }
        let magic = read_u32(d, 0).unwrap();
        let version = read_u32(d, 4).unwrap();
        let color_encoding = ColorEncoding::from_u8(d[8]);
        let alpha_channel_bit_depth = d[9];
        let alpha_compression = AlphaCompression::from_u8(d[10]);
        let has_mips = d[11];
        let (color_encoding, alpha_compression) = match (color_encoding, alpha_compression) {
            (Some(c), Some(a)) => (c, a),
            _ => {
                return Err(BlpError::InvalidValue);
            },
        };
        let width = read_u32(d, 12).unwrap();
        let height = read_u32(d, 16).unwrap();
        let mut mipmaps: Vec<Mipmap> = Vec::new();
        let mut i: usize = 0;
        while i < BLP_MIP_LEVELS
            invariant
                d@.len() >= 148,
                i <= BLP_MIP_LEVELS,
                color_encoding_spec(d@[8]) == Some(color_encoding),
                alpha_compression_spec(d@[10]) == Some(alpha_compression),
                width == u32_le(d@, 12) as u32,
                height == u32_le(d@, 16) as u32,
                mipmaps@.len() == present_levels(d@, i as int).len(),
                present_levels(d@, i as int).len() > 0 ==> mip_error(
                    color_encoding,
                    alpha_compression,
                    width,
                    height,
                ) is None,
                forall|j: int|
                    0 <= j < present_levels(d@, i as int).len() ==> (#[trigger] mipmaps@[j]).decompressed@
                        == mip_pixels(
                        d@,
                        mip_offset(d@, present_levels(d@, i as int)[j]),
                        mip_size(d@, present_levels(d@, i as int)[j]),
                        color_encoding,
                        alpha_compression,
                        width,
                        height,
                    ),
            decreases BLP_MIP_LEVELS - i,
        {
            let offset = read_u32(d, 20 + 4 * i).unwrap();
            let size = read_u32(d, 84 + 4 * i).unwrap();
            if offset != 0 && size != 0 {
                let m = Mipmap::read(d, offset, size, color_encoding, alpha_compression, width, height);
                match m {
                    Ok(m) => {
                        mipmaps.push(m);
                    },
                    Err(e) => {
                        assert(present_levels(d@, i as int + 1).len() > 0);
                        proof {
                            lemma_present_levels_grow(d@, i as int + 1, 16);
                        }
                        return Err(e);
                    },
                }
            }
            i = i + 1;
        }
        Ok(
            BLP {
                magic,
                version,
                color_encoding,
                alpha_channel_bit_depth,
                alpha_compression,
                has_mips,
                width,
                height,
                mipmaps,
            },
        )
    }
}

proof fn lemma_present_levels_grow(d: Seq<u8>, n: int, m: int)
    requires
        0 <= n <= m,
        present_levels(d, n).len() > 0,
    ensures
        present_levels(d, m).len() > 0,
    decreases m - n,
{
    if n < m {
        lemma_present_levels_grow(d, n + 1, m);
    }
}

} // verus!
