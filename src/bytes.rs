//! Bounds-checked little-endian reads from a byte buffer.
use vstd::prelude::*;

verus! {

/// The little-endian `u16` that starts at `p`.
pub open spec fn u16_le(b: Seq<u8>, p: int) -> int {
    b[p] + 256 * b[p + 1]
}

/// The little-endian `u32` that starts at `p`.
pub open spec fn u32_le(b: Seq<u8>, p: int) -> int {
    b[p] + 256 * b[p + 1] + 65536 * b[p + 2] + 16777216 * b[p + 3]
}

/// The `n` little-endian `u32`s that start at `p`.
pub open spec fn u32_array(b: Seq<u8>, p: int, n: nat) -> Seq<u32> {
    Seq::new(n, |i: int| u32_le(b, p + 4 * i) as u32)
}

/// The `n` little-endian `u16`s that start at `p`.
pub open spec fn u16_array(b: Seq<u8>, p: int, n: nat) -> Seq<u16> {
    Seq::new(n, |i: int| u16_le(b, p + 2 * i) as u16)
}

/// Whether `n` bytes are available at `p`.
pub open spec fn fits(b: Seq<u8>, p: int, n: int) -> bool {
    0 <= p && 0 <= n && p + n <= b.len()
}

/// Reads the byte at `p`, if there is one.
pub fn read_u8(b: &Vec<u8>, p: usize) -> (r: Option<u8>)
    ensures
        r == (if p < b@.len() { Some(b@[p as int]) } else { None::<u8> }),
{
    if p < b.len() {
        Some(b[p])
    } else {
        None
    }
}

/// Reads the little-endian `u16` at `p`, if two bytes are available there.
pub fn read_u16(b: &Vec<u8>, p: usize) -> (r: Option<u16>)
    ensures
        r == (if fits(b@, p as int, 2) { Some(u16_le(b@, p as int) as u16) } else { None::<u16> }),
{
    if p <= b.len() && b.len() - p >= 2 {
        let v: u16 = b[p] as u16 + 256 * (b[p + 1] as u16);
        Some(v)
    } else {
        None
    }
}

/// Reads the little-endian `u32` at `p`, if four bytes are available there.
pub fn read_u32(b: &Vec<u8>, p: usize) -> (r: Option<u32>)
    ensures
        r == (if fits(b@, p as int, 4) { Some(u32_le(b@, p as int) as u32) } else { None::<u32> }),
{
    if p <= b.len() && b.len() - p >= 4 {
        let v: u32 = b[p] as u32 + 256 * (b[p + 1] as u32) + 65536 * (b[p + 2] as u32)
            + 16777216 * (b[p + 3] as u32);
        Some(v)
    } else {
        None
    }
}

/// Copies the `n` bytes at `p` into a buffer of their own.
pub fn copy_range(b: &Vec<u8>, p: usize, n: usize) -> (r: Vec<u8>)
    requires
        fits(b@, p as int, n as int),
    ensures
        r@ == b@.subrange(p as int, p + n),
{
    let mut out: Vec<u8> = Vec::with_capacity(n);
    let mut i: usize = 0;
    while i < n
        invariant
            fits(b@, p as int, n as int),
            b@.len() == b.len(),
            i <= n,
            out@ == b@.subrange(p as int, p + i),
        decreases n - i,
    {
        out.push(b[p + i]);
        i = i + 1;
    }
    out
}

/// Reads `n` consecutive little-endian `u32`s starting at `p`.
pub fn read_u32_array(b: &Vec<u8>, p: usize, n: usize) -> (r: Option<Vec<u32>>)
    ensures
        r is Some <==> fits(b@, p as int, 4 * n),
        r matches Some(v) ==> v@ == u32_array(b@, p as int, n as nat),
{
    if p > b.len() || (b.len() - p) / 4 < n {
        return None;
    }
    let mut out: Vec<u32> = Vec::new();
    let mut i: usize = 0;
    while i < n
        invariant
            fits(b@, p as int, 4 * n),
            b@.len() == b.len(),
            i <= n,
            out@ =~= u32_array(b@, p as int, n as nat).take(i as int),
        decreases n - i,
    {
        let v = read_u32(b, p + 4 * i).unwrap();
        out.push(v);
        i = i + 1;
        assert(out@ =~= u32_array(b@, p as int, n as nat).take(i as int));
    }
    assert(out@ =~= u32_array(b@, p as int, n as nat));
    Some(out)
}

/// Reads `n` consecutive little-endian `u16`s starting at `p`.
pub fn read_u16_array(b: &Vec<u8>, p: usize, n: usize) -> (r: Option<Vec<u16>>)
    ensures
        r is Some <==> fits(b@, p as int, 2 * n),
        r matches Some(v) ==> v@ == u16_array(b@, p as int, n as nat),
{
    if p > b.len() || (b.len() - p) / 2 < n {
        return None;
    }
    let mut out: Vec<u16> = Vec::new();
    let mut i: usize = 0;
    while i < n
        invariant
            fits(b@, p as int, 2 * n),
            b@.len() == b.len(),
            i <= n,
            out@ =~= u16_array(b@, p as int, n as nat).take(i as int),
        decreases n - i,
    {
        let v = read_u16(b, p + 2 * i).unwrap();
        out.push(v);
        i = i + 1;
        assert(out@ =~= u16_array(b@, p as int, n as nat).take(i as int));
    }
    assert(out@ =~= u16_array(b@, p as int, n as nat));
    Some(out)
}

} // verus!
