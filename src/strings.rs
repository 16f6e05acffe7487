//! Text stored in the containers: single-byte characters, zero-terminated
//! string tables, and the decimal coordinates in terrain file names.
use vstd::prelude::*;
use vstd::string::StrSliceExecFns;

verus! {

/// Each byte as the character of that code.
pub open spec fn latin1(v: Seq<u8>) -> Seq<char> {
    v.map_values(|b: u8| b as char)
}

/// Relies on `String::push`, which appends one character to the string.
pub assume_specification[ String::push ](s: &mut String, ch: char)
    ensures
        final(s)@ == old(s)@.push(ch),
;

/// The bytes of `v` as characters, in reverse order when `reversed`.
pub fn char_vec_to_string_le(v: &Vec<u8>, reversed: bool) -> (r: String)
    ensures
        r@ == (if reversed {
            latin1(v@).reverse()
        } else {
            latin1(v@)
        }),
{
    let mut s = String::new();
    let n = v.len();
    let mut i: usize = 0;
    while i < n
        invariant
            n == v@.len(),
            i <= n,
            s@ =~= (if reversed {
                latin1(v@).reverse().take(i as int)
            } else {
                latin1(v@).take(i as int)
            }),
        decreases n - i,
    {
        let b = if reversed {
            v[n - 1 - i]
        } else {
            v[i]
        };
        s.push(b as char);
        i = i + 1;
        assert(s@ =~= (if reversed {
            latin1(v@).reverse().take(i as int)
        } else {
            latin1(v@).take(i as int)
        }));
    }
    assert(latin1(v@).take(n as int) =~= latin1(v@));
    assert(latin1(v@).reverse().take(n as int) =~= latin1(v@).reverse());
    s
}

/// The zero-terminated strings of `b` from `i` on, the current one having
/// started at `s`. Bytes after the last zero belong to no string.
pub open spec fn zstrings_from(b: Seq<u8>, s: int, i: int) -> Seq<Seq<char>>
    decreases b.len() - i,
{
    if i < 0 || i >= b.len() {
        Seq::empty()
    } else if b[i] == 0 {
        seq![latin1(b.subrange(s, i))] + zstrings_from(b, i + 1, i + 1)
    } else {
        zstrings_from(b, s, i + 1)
    }
}

/// The zero-terminated strings of `b`.
pub open spec fn zstrings(b: Seq<u8>) -> Seq<Seq<char>> {
    zstrings_from(b, 0, 0)
}

pub open spec fn views(v: Seq<String>) -> Seq<Seq<char>> {
    v.map_values(|s: String| s@)
}

/// Splits `b` into its zero-terminated strings; bytes after the last zero
/// are dropped.
pub fn zero_terminated_strings(b: &Vec<u8>) -> (r: Vec<String>)
    ensures
        views(r@) == zstrings(b@),
{
    let mut out: Vec<String> = Vec::new();
    let mut cur = String::new();
    let ghost mut s: int = 0;
    let mut i: usize = 0;
    while i < b.len()
        invariant
            0 <= s <= i <= b@.len(),
            cur@ == latin1(b@.subrange(s, i as int)),
            zstrings(b@) == views(out@) + zstrings_from(b@, s, i as int),
        decreases b@.len() - i,
    {
        let v = b[i];
        let ghost vs = views(out@);
        if v != 0 {
            cur.push(v as char);
            assert(latin1(b@.subrange(s, i + 1)) =~= latin1(b@.subrange(s, i as int)).push(v as char));
        } else {
            let done = cur;
            cur = String::new();
            out.push(done);
            assert(views(out@) =~= vs + seq![done@]);
            assert(vs + (seq![done@] + zstrings_from(b@, i + 1, i + 1)) =~= (vs + seq![done@])
                + zstrings_from(b@, i + 1, i + 1));
            proof {
                s = i + 1;
            }
            assert(latin1(b@.subrange(s, i + 1)) =~= Seq::<char>::empty());
        }
        i = i + 1;
    }
    assert(views(out@) + Seq::<Seq<char>>::empty() =~= views(out@));
    out
}

pub open spec fn is_digit(c: char) -> bool {
    '0' <= c && c <= '9'
}

pub open spec fn all_digits(s: Seq<char>) -> bool {
    forall|i: int| 0 <= i < s.len() ==> is_digit(#[trigger] s[i])
}

/// The number that a run of decimal digits spells.
pub open spec fn digits_value(s: Seq<char>) -> nat
    decreases s.len(),
{
    if s.len() == 0 {
        0
    } else {
        digits_value(s.drop_last()) * 10 + ((s.last() as u32 - '0' as u32) as nat)
    }
}

/// The unsigned number that `s` spells in decimal: an optional `+`, then at
/// least one digit, with a value that fits in 32 bits.
pub open spec fn decimal_u32(s: Seq<char>) -> Option<u32> {
    let d = if s.len() > 0 && s[0] == '+' {
        s.drop_first()
    } else {
        s
    };
    if d.len() > 0 && all_digits(d) && digits_value(d) <= u32::MAX {
        Some(digits_value(d) as u32)
    } else {
        None
    }
}

/// Parses the characters `from..to` of `s` as an unsigned decimal number.
pub fn parse_u32(s: &str, from: usize, to: usize) -> (r: Option<u32>)
    requires
        from <= to <= s@.len(),
    ensures
        r == decimal_u32(s@.subrange(from as int, to as int)),
{
    let ghost w = s@.subrange(from as int, to as int);
    let mut i = from;
    if i < to && s.get_char(i) == '+' {
        i = i + 1;
    }
    let ghost d = s@.subrange(i as int, to as int);
    assert(d =~= (if w.len() > 0 && w[0] == '+' {
        w.drop_first()
    } else {
        w
    }));
    if i == to {
        return None;
    }
    let start = i;
    let mut v: u64 = 0;
    while i < to
        invariant
            start <= i <= to <= s@.len(),
            d == s@.subrange(start as int, to as int),
            w == s@.subrange(from as int, to as int),
            d == (if w.len() > 0 && w[0] == '+' {
                w.drop_first()
            } else {
                w
            }),
            all_digits(s@.subrange(start as int, i as int)),
            v as nat == digits_value(s@.subrange(start as int, i as int)),
            v <= u32::MAX,
        decreases to - i,
    {
        let c = s.get_char(i);
        if c < '0' || c > '9' {
            assert(d[i - start] == c);
            assert(!is_digit(d[i - start]));
            return None;
        }
        let ghost pre = s@.subrange(start as int, i as int);
        let ghost next = s@.subrange(start as int, i + 1);
        assert(next.drop_last() =~= pre);
        assert(next.last() == c);
        v = v * 10 + (c as u32 - '0' as u32) as u64;
        assert(v as nat == digits_value(next));
        if v > u32::MAX as u64 {
            assert(digits_value(d) >= digits_value(next)) by {
                lemma_digits_prefix_le(d, (i + 1 - start) as int);
                assert(d.take((i + 1 - start) as int) =~= next);
            }
            return None;
        }
        i = i + 1;
    }
    assert(s@.subrange(start as int, i as int) =~= d);
    Some(v as u32)
}

/// A prefix of a run of digits spells no more than the whole run.
proof fn lemma_digits_prefix_le(d: Seq<char>, k: int)
    requires
        0 <= k <= d.len(),
    ensures
        digits_value(d.take(k)) <= digits_value(d),
    decreases d.len() - k,
{
    if k < d.len() {
        lemma_digits_prefix_le(d, k + 1);
        let t = d.take(k + 1);
        assert(t.drop_last() =~= d.take(k));
    } else {
        assert(d.take(k) =~= d);
    }
}

/// The position of the last `c` before `end` in `s`, or -1.
pub open spec fn last_index_before(s: Seq<char>, c: char, end: int) -> int
    decreases end,
{
    if end <= 0 {
        -1
    } else if s[end - 1] == c {
        end - 1
    } else {
        last_index_before(s, c, end - 1)
    }
}

fn find_last_before(s: &str, c: char, end: usize) -> (r: Option<usize>)
    requires
        end <= s@.len(),
    ensures
        r matches Some(i) ==> i as int == last_index_before(s@, c, end as int),
        r is None <==> last_index_before(s@, c, end as int) == -1,
{
    let mut e = end;
    while e > 0
        invariant
            e <= end <= s@.len(),
            last_index_before(s@, c, end as int) == last_index_before(s@, c, e as int),
        decreases e,
    {
        if s.get_char(e - 1) == c {
            return Some(e - 1);
        }
        e = e - 1;
    }
    None
}

/// The grid coordinates that a terrain file stem such as `Azeroth_32_48`
/// ends with: the last two fields between underscores.
pub open spec fn stem_coordinates(s: Seq<char>) -> Option<(u32, u32)> {
    let last = last_index_before(s, '_', s.len() as int);
    if last < 0 {
        None
    } else {
        let prev = last_index_before(s, '_', last);
        match (decimal_u32(s.subrange(prev + 1, last)), decimal_u32(s.subrange(last + 1, s.len() as int))) {
            (Some(x), Some(y)) => Some((x, y)),
            _ => None,
        }
    }
}

/// Reads the grid coordinates from a terrain file stem.
pub fn adt_coordinates(stem: &str) -> (r: Option<(u32, u32)>)
    ensures
        r == stem_coordinates(stem@),
{
    let n = stem.unicode_len();
    let last = match find_last_before(stem, '_', n) {
        Some(i) => i,
        None => {
            return None;
        },
    };
    proof {
        lemma_last_index_bounds(stem@, '_', n as int);
        lemma_last_index_bounds(stem@, '_', last as int);
    }
    let from = match find_last_before(stem, '_', last) {
        Some(i) => i + 1,
        None => 0,
    };
    let x = parse_u32(stem, from, last);
    let y = parse_u32(stem, last + 1, n);
    match (x, y) {
        (Some(x), Some(y)) => Some((x, y)),
        _ => None,
    }
}

proof fn lemma_last_index_bounds(s: Seq<char>, c: char, end: int)
    requires
        0 <= end <= s.len(),
    ensures
        -1 <= last_index_before(s, c, end) < end,
    decreases end,
{
    if end > 0 && s[end - 1] != c {
        lemma_last_index_bounds(s, c, end - 1);
    }
}

} // verus!
