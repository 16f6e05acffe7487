//! Texture-blend ("alpha") masks: run-length decoding, 4-bit unpacking and
//! the correction of the mask's last row and column.
use vstd::prelude::*;

use crate::bytes::{copy_range, fits};

verus! {

/// Side of the square alpha mask.
pub const ALPHA_SIDE: usize = 64;

/// Number of intensity values in a decoded alpha mask.
pub const ALPHA_MAP_SIZE: usize = 4096;

/// Bytes of mask data before unpacking: one per value when masks are wide,
/// one per two values otherwise.
pub open spec fn packed_len(wide: bool) -> nat {
    if wide {
        4096
    } else {
        2048
    }
}

/// `n` copies of `v`.
pub open spec fn fill_run(v: u8, n: nat) -> Seq<u8> {
    Seq::new(n, |_i: int| v)
}

/// Run-length decoding of `input` from `p`, appended to `out`.
///
/// A control byte with the high bit set is followed by one value that is
/// repeated `control & 0x7F` times; otherwise `control & 0x7F` bytes follow
/// that are copied as they are. Decoding stops at the end of the input or
/// once `limit` bytes have been produced; a run cut short by the end of the
/// input is an error (`None`). The result also gives the position after the
/// last run.
pub open spec fn rle_spec(input: Seq<u8>, p: int, out: Seq<u8>, limit: nat) -> Option<(Seq<u8>, int)>
    decreases input.len() - p,
{
    if p < 0 || p >= input.len() || out.len() >= limit {
        Some((out, p))
    } else {
        let c = input[p];
        let n = c % 128;
        if c >= 128 {
            if p + 1 < input.len() {
                rle_spec(input, p + 2, out + fill_run(input[p + 1], n as nat), limit)
            } else {
                None
            }
        } else if p + 1 + n <= input.len() {
            rle_spec(input, p + 1 + n, out + input.subrange(p + 1, p + 1 + n), limit)
        } else {
            None
        }
    }
}

/// Each byte split in two values, its low nibble first.
pub open spec fn unpack_nibbles(s: Seq<u8>) -> Seq<u8> {
    Seq::new(
        2 * s.len(),
        |i: int|
            if i % 2 == 0 {
                (s[i / 2] % 16) as u8
            } else {
                (s[i / 2] / 16) as u8
            },
    )
}

/// The mask with its last row copied from the row above and its last column
/// copied from the column to its left (the corner takes the value diagonally
/// inside it).
pub open spec fn edge_fixed(m: Seq<u8>) -> Seq<u8> {
    Seq::new(
        m.len(),
        |i: int|
            if i % 64 == 63 {
                if i / 64 == 63 {
                    m[i - 65]
                } else {
                    m[i - 1]
                }
            } else if i > 4032 {
                m[i - 64]
            } else {
                m[i]
            },
    )
}

/// Correcting the edges of a corrected mask changes nothing.
pub proof fn edge_fix_idempotent(m: Seq<u8>)
    requires
        m.len() == 4096,
    ensures
        edge_fixed(edge_fixed(m)) == edge_fixed(m),
{
    let f = edge_fixed(m);
    assert forall|i: int| 0 <= i < 4096 implies #[trigger] edge_fixed(f)[i] == f[i] by {
        if i % 64 == 63 {
            if i / 64 == 63 {
                assert((i - 65) % 64 == 62 && (i - 65) / 64 == 62);
            } else {
                assert((i - 1) % 64 == 62 && (i - 1) <= 4030);
            }
        } else if i > 4032 {
            assert((i - 64) % 64 == i % 64 && (i - 64) <= 4032);
        }
    }
    assert(edge_fixed(f) =~= f);
}

/// The packed bytes of one layer at `p`, and the position after them.
pub open spec fn alpha_source(input: Seq<u8>, p: int, wide: bool, compressed: bool) -> Option<(Seq<u8>, int)> {
    let need = packed_len(wide);
    if compressed {
        match rle_spec(input, p, Seq::empty(), need) {
            Some((o, q)) => if o.len() >= need {
                Some((o.take(need as int), q))
            } else {
                None
            },
            None => None,
        }
    } else if fits(input, p, need as int) {
        Some((input.subrange(p, p + need), p + need))
    } else {
        None
    }
}

/// The final mask made from a layer's packed bytes.
pub open spec fn alpha_mask(packed: Seq<u8>, wide: bool, preserve_edges: bool) -> Seq<u8> {
    let m = if wide {
        packed
    } else {
        unpack_nibbles(packed)
    };
    if preserve_edges {
        m
    } else {
        edge_fixed(m)
    }
}

/// One layer decoded at `p`: its mask and the position after its bytes.
pub open spec fn alpha_layer_spec(
    input: Seq<u8>,
    p: int,
    wide: bool,
    compressed: bool,
    preserve_edges: bool,
) -> Option<(Seq<u8>, int)> {
    match alpha_source(input, p, wide, compressed) {
        Some((s, q)) => Some((alpha_mask(s, wide, preserve_edges), q)),
        None => None,
    }
}

/// The decoded blend mask of one texture layer: 64 rows of 64 intensities.
#[derive(Debug)]
pub struct MCALLayer {
    pub alpha_map: Vec<u8>,
}

/// The decoded masks of a tile, one per layer that has alpha, in layer order.
#[derive(Debug)]
pub struct MCAL {
    pub layers: Vec<MCALLayer>,
}

/// Decodes runs from `input[start..]` until `limit` bytes have been produced
/// or the input ends between two runs. Returns the bytes and the position
/// after the last run read, or `None` when a run is cut short.
pub fn rle_decompress(input: &Vec<u8>, start: usize, limit: usize) -> (r: Option<(Vec<u8>, usize)>)
    ensures
        r is None <==> rle_spec(input@, start as int, Seq::empty(), limit as nat) is None,
        r matches Some((v, q)) ==> rle_spec(input@, start as int, Seq::empty(), limit as nat)
            == Some((v@, q as int)),
{
    let mut out: Vec<u8> = Vec::new();
    let mut p: usize = start;
    if p >= input.len() {
        return Some((out, p));
    }
    while p < input.len() && out.len() < limit
        invariant
            p <= input@.len(),
            input@.len() == input.len(),
            rle_spec(input@, start as int, Seq::empty(), limit as nat) == rle_spec(
                input@,
                p as int,
                out@,
                limit as nat,
            ),
        decreases input@.len() - p,
    {
        let c = input[p];
        let n = (c & 0x7f) as usize;
        assert(c & 0x7f == c % 128) by (bit_vector);
        assert((c & 0x80 == 0x80) == (c >= 128)) by (bit_vector);
        let ghost out0 = out@;
        if c & 0x80 == 0x80 {
            if p + 1 >= input.len() {
                return None;
            }
            let v = input[p + 1];
            let mut k: usize = 0;
            while k < n
                invariant
                    k <= n,
                    out@ == out0 + fill_run(v, k as nat),
                decreases n - k,
            {
                out.push(v);
                k = k + 1;
                assert(out@ =~= out0 + fill_run(v, k as nat));
            }
            p = p + 2;
        } else {
            if input.len() - (p + 1) < n {
                return None;
            }
            let mut k: usize = 0;
            while k < n
                invariant
                    k <= n,
                    p + 1 + n <= input@.len(),
                    input@.len() == input.len(),
                    out@ == out0 + input@.subrange(p + 1, p + 1 + k),
                decreases n - k,
            {
                out.push(input[p + 1 + k]);
                k = k + 1;
                assert(out@ =~= out0 + input@.subrange(p + 1, p + 1 + k));
            }
            p = p + 1 + n;
        }
    }
    Some((out, p))
}

/// Splits each of the first `n` bytes of `packed` in two values, low nibble
/// first.
pub fn unpack_half_bytes(packed: &Vec<u8>, n: usize) -> (r: Vec<u8>)
    requires
        n <= packed@.len(),
    ensures
        r@ == unpack_nibbles(packed@.take(n as int)),
{
    let mut out: Vec<u8> = Vec::new();
    let mut i: usize = 0;
    while i < n
        invariant
            i <= n,
            n <= packed@.len(),
            out@ =~= unpack_nibbles(packed@.take(i as int)),
        decreases n - i,
    {
        let b = packed[i];
        assert(b & 0x0f == b % 16) by (bit_vector);
        assert(b >> 4 == b / 16) by (bit_vector);
        out.push(b & 0x0f);
        out.push(b >> 4);
        i = i + 1;
        assert(out@ =~= unpack_nibbles(packed@.take(i as int)));
    }
    out
}

/// Overwrites the last row of the mask with the row above it and the last
/// column with the column to its left.
pub fn fix_edges(m: &mut Vec<u8>)
    requires
        old(m)@.len() == ALPHA_MAP_SIZE,
    ensures
        final(m)@ == edge_fixed(old(m)@),
{
    let ghost m0 = m@;
    let mut i: usize = 0;
    while i < ALPHA_MAP_SIZE
        invariant
            m0.len() == ALPHA_MAP_SIZE,
            m@.len() == ALPHA_MAP_SIZE,
            i <= ALPHA_MAP_SIZE,
            forall|j: int| 0 <= j < i ==> #[trigger] m@[j] == edge_fixed(m0)[j],
            forall|j: int| i <= j < ALPHA_MAP_SIZE ==> #[trigger] m@[j] == m0[j],
        decreases ALPHA_MAP_SIZE - i,
    {
        if i > ALPHA_MAP_SIZE - ALPHA_SIDE {
            let v = m[i - ALPHA_SIDE];
            m.set(i, v);
        }
        if i > 0 && (i + 1) % ALPHA_SIDE == 0 {
            let v = m[i - 1];
            m.set(i, v);
        }
        assert(m@[i as int] == edge_fixed(m0)[i as int]);
        i = i + 1;
    }
    assert(m@ =~= edge_fixed(m0));
}

impl MCALLayer {
    /// Decodes one layer's mask from `input` at `p` and returns it with the
    /// position after the bytes it used.
    ///
    /// `wide` selects one byte per value (else two values per byte),
    /// `compressed` selects run-length coding, and `preserve_edges` leaves the
    /// last row and column as they are. `None` when the input ends before
    /// the layer is complete.
    pub fn read(
        input: &Vec<u8>,
        p: usize,
        wide: bool,
        compressed: bool,
        preserve_edges: bool,
    ) -> (r: Option<(MCALLayer, usize)>)
        ensures
            r is None <==> alpha_layer_spec(input@, p as int, wide, compressed, preserve_edges) is None,
            r matches Some((l, q)) ==> alpha_layer_spec(input@, p as int, wide, compressed, preserve_edges)
                == Some((l.alpha_map@, q as int)),
            r matches Some((l, _)) ==> l.alpha_map@.len() == ALPHA_MAP_SIZE,
    {
        let need: usize = if wide {
            4096
        } else {
            2048
        };
        let (source, q) = if compressed {
            match rle_decompress(input, p, need) {
                Some((o, q)) => {
                    if o.len() < need {
                        return None;
                    }
                    (o, q)
                },
                None => {
                    return None;
                },
            }
        } else {
            if p > input.len() || input.len() - p < need {
                return None;
            }
            (copy_range(input, p, need), p + need)
        };
        let mut alpha_map: Vec<u8> = if wide {
            let m = copy_range(&source, 0, need);
            assert(m@ =~= source@.take(need as int));
            m
        } else {
            unpack_half_bytes(&source, need)
        };
        if !preserve_edges {
            fix_edges(&mut alpha_map);
        }
        Some((MCALLayer { alpha_map }, q))
    }
}

} // verus!
