//! Byte-level primitives of the record schema: fixed-width little-endian
//! integers, big-endian integers (used only as derivation seeds), single-byte
//! booleans, and length-prefixed byte fields.

use vstd::prelude::*;

verus! {

/// Little-endian image of a 32-bit integer, least significant byte first.
pub open spec fn le32(x: u32) -> Seq<u8> {
    seq![
        (x & 0xff) as u8,
        ((x >> 8) & 0xff) as u8,
        ((x >> 16) & 0xff) as u8,
        ((x >> 24) & 0xff) as u8,
    ]
}

/// The 32-bit integer whose little-endian image is `s`.
pub open spec fn u32_of_le(s: Seq<u8>) -> u32
    recommends
        s.len() == 4,
{
    (s[0] as u32) | ((s[1] as u32) << 8) | ((s[2] as u32) << 16) | ((s[3] as u32) << 24)
}

/// Little-endian image of a 64-bit integer.
pub open spec fn le64(x: u64) -> Seq<u8> {
    seq![
        (x & 0xff) as u8,
        ((x >> 8) & 0xff) as u8,
        ((x >> 16) & 0xff) as u8,
        ((x >> 24) & 0xff) as u8,
        ((x >> 32) & 0xff) as u8,
        ((x >> 40) & 0xff) as u8,
        ((x >> 48) & 0xff) as u8,
        ((x >> 56) & 0xff) as u8,
    ]
}

/// The 64-bit integer whose little-endian image is `s`.
pub open spec fn u64_of_le(s: Seq<u8>) -> u64
    recommends
        s.len() == 8,
{
    (s[0] as u64) | ((s[1] as u64) << 8) | ((s[2] as u64) << 16) | ((s[3] as u64) << 24)
        | ((s[4] as u64) << 32) | ((s[5] as u64) << 40) | ((s[6] as u64) << 48)
        | ((s[7] as u64) << 56)
}

/// Big-endian image of a 64-bit integer, most significant byte first.
/// Identifiers and counter values enter address derivation in this form.
pub open spec fn be64(x: u64) -> Seq<u8> {
    seq![
        ((x >> 56) & 0xff) as u8,
        ((x >> 48) & 0xff) as u8,
        ((x >> 40) & 0xff) as u8,
        ((x >> 32) & 0xff) as u8,
        ((x >> 24) & 0xff) as u8,
        ((x >> 16) & 0xff) as u8,
        ((x >> 8) & 0xff) as u8,
        (x & 0xff) as u8,
    ]
}

/// A boolean as one byte: 1 for true, 0 for false.
pub open spec fn bool_byte(b: bool) -> Seq<u8> {
    seq![if b { 1u8 } else { 0u8 }]
}

/// Reading back the little-endian image of a 32-bit integer recovers it.
pub proof fn lemma_u32_le_roundtrip(x: u32)
    ensures
        u32_of_le(le32(x)) == x,
{
    assert(((x & 0xff) as u8 as u32) | ((((x >> 8) & 0xff) as u8 as u32) << 8)
        | ((((x >> 16) & 0xff) as u8 as u32) << 16) | ((((x >> 24) & 0xff) as u8 as u32) << 24)
        == x) by (bit_vector);
}

/// Reading back the little-endian image of a 64-bit integer recovers it.
pub proof fn lemma_u64_le_roundtrip(x: u64)
    ensures
        u64_of_le(le64(x)) == x,
{
    assert(((x & 0xff) as u8 as u64) | ((((x >> 8) & 0xff) as u8 as u64) << 8)
        | ((((x >> 16) & 0xff) as u8 as u64) << 16) | ((((x >> 24) & 0xff) as u8 as u64) << 24)
        | ((((x >> 32) & 0xff) as u8 as u64) << 32) | ((((x >> 40) & 0xff) as u8 as u64) << 40)
        | ((((x >> 48) & 0xff) as u8 as u64) << 48) | ((((x >> 56) & 0xff) as u8 as u64) << 56)
        == x) by (bit_vector);
}

/// Little-endian image of a 32-bit integer as a vector.
pub fn u32_to_le_vec(x: u32) -> (r: Vec<u8>)
    ensures
        r@ == le32(x),
{
    let mut v: Vec<u8> = Vec::new();
    v.push((x & 0xff) as u8);
    v.push(((x >> 8) & 0xff) as u8);
    v.push(((x >> 16) & 0xff) as u8);
    v.push(((x >> 24) & 0xff) as u8);
    proof {
        assert(v@ =~= le32(x));
    }
    v
}

/// Little-endian image of a 64-bit integer as a vector.
pub fn u64_to_le_vec(x: u64) -> (r: Vec<u8>)
    ensures
        r@ == le64(x),
{
    let mut v: Vec<u8> = Vec::new();
    v.push((x & 0xff) as u8);
    v.push(((x >> 8) & 0xff) as u8);
    v.push(((x >> 16) & 0xff) as u8);
    v.push(((x >> 24) & 0xff) as u8);
    v.push(((x >> 32) & 0xff) as u8);
    v.push(((x >> 40) & 0xff) as u8);
    v.push(((x >> 48) & 0xff) as u8);
    v.push(((x >> 56) & 0xff) as u8);
    proof {
        assert(v@ =~= le64(x));
    }
    v
}

/// Big-endian image of a 64-bit integer as a vector.
pub fn u64_to_be_vec(x: u64) -> (r: Vec<u8>)
    ensures
        r@ == be64(x),
{
    let mut v: Vec<u8> = Vec::new();
    v.push(((x >> 56) & 0xff) as u8);
    v.push(((x >> 48) & 0xff) as u8);
    v.push(((x >> 40) & 0xff) as u8);
    v.push(((x >> 32) & 0xff) as u8);
    v.push(((x >> 24) & 0xff) as u8);
    v.push(((x >> 16) & 0xff) as u8);
    v.push(((x >> 8) & 0xff) as u8);
    v.push((x & 0xff) as u8);
    proof {
        assert(v@ =~= be64(x));
    }
    v
}

/// Copy of `data[start .. start + n]`.
pub fn copy_range(data: &Vec<u8>, start: usize, n: usize) -> (r: Vec<u8>)
    requires
        start + n <= data@.len(),
    ensures
        r@ == data@.subrange(start as int, start as int + n as int),
{
    let dlen: usize = data.len();
    let mut out: Vec<u8> = Vec::new();
    let mut i: usize = 0;
    while i < n
        invariant
            start + n <= dlen == data@.len(),
            i <= n,
            out@ == data@.subrange(start as int, start as int + i as int),
        decreases n - i,
    {
        out.push(data[start + i]);
        proof {
            assert(out@ =~= data@.subrange(start as int, start as int + (i + 1) as int));
        }
        i = i + 1;
    }
    out
}

/// Appends a copy of `src` to `out`.
pub fn append_bytes(out: &mut Vec<u8>, src: &Vec<u8>)
    ensures
        final(out)@ == old(out)@ + src@,
{
    let n: usize = src.len();
    let mut i: usize = 0;
    while i < n
        invariant
            n == src@.len(),
            i <= n,
            out@ == old(out)@ + src@.subrange(0, i as int),
        decreases n - i,
    {
        out.push(src[i]);
        proof {
            assert(old(out)@ + src@.subrange(0, (i + 1) as int) =~= (old(out)@ + src@.subrange(
                0,
                i as int,
            )).push(src@[i as int]));
        }
        i = i + 1;
    }
    proof {
        assert(src@.subrange(0, n as int) =~= src@);
    }
}

/// A sequence of `n` zero bytes: the content of a freshly allocated slot.
pub open spec fn zero_seq(n: int) -> Seq<u8> {
    Seq::new(n as nat, |i: int| 0u8)
}

/// A vector of `n` zero bytes.
pub fn zero_vec(n: usize) -> (r: Vec<u8>)
    ensures
        r@ == zero_seq(n as int),
{
    let mut out: Vec<u8> = Vec::new();
    let mut i: usize = 0;
    while i < n
        invariant
            i <= n,
            out@ == zero_seq(i as int),
        decreases n - i,
    {
        out.push(0u8);
        proof {
            assert(out@ =~= zero_seq((i + 1) as int));
        }
        i = i + 1;
    }
    out
}

/// The contents of a buffer after its front is overwritten with `bytes`:
/// `bytes`, then the buffer's tail, at the buffer's unchanged length.
pub open spec fn spec_write_prefix(buf: Seq<u8>, bytes: Seq<u8>) -> Seq<u8>
    recommends
        bytes.len() <= buf.len(),
{
    bytes + buf.subrange(bytes.len() as int, buf.len() as int)
}

/// A fixed-width field of `n` bytes at `pos`: the bytes and the position after.
pub open spec fn parse_fixed(data: Seq<u8>, pos: int, n: int) -> Option<(Seq<u8>, int)> {
    if 0 <= pos && 0 <= n && pos + n <= data.len() {
        Some((data.subrange(pos, pos + n), pos + n))
    } else {
        None
    }
}

/// A length-prefixed byte field at `pos`: four little-endian length bytes,
/// then that many content bytes.
pub open spec fn parse_len_bytes(data: Seq<u8>, pos: int) -> Option<(Seq<u8>, int)> {
    if 0 <= pos && pos + 4 <= data.len() {
        let n = u32_of_le(data.subrange(pos, pos + 4)) as int;
        if pos + 4 + n <= data.len() {
            Some((data.subrange(pos + 4, pos + 4 + n), pos + 4 + n))
        } else {
            None
        }
    } else {
        None
    }
}

/// A one-byte boolean at `pos`; any byte other than 0 or 1 is malformed.
pub open spec fn parse_bool_at(data: Seq<u8>, pos: int) -> Option<(bool, int)> {
    if 0 <= pos && pos + 1 <= data.len() && (data[pos] == 0 || data[pos] == 1) {
        Some((data[pos] == 1, pos + 1))
    } else {
        None
    }
}

/// An eight-byte little-endian integer at `pos`.
pub open spec fn parse_u64_at(data: Seq<u8>, pos: int) -> Option<(u64, int)> {
    if 0 <= pos && pos + 8 <= data.len() {
        Some((u64_of_le(data.subrange(pos, pos + 8)), pos + 8))
    } else {
        None
    }
}

/// Where a serialized length-prefixed field sits in `data`, parsing at its
/// start recovers its content.
pub proof fn lemma_parse_len_bytes_at(data: Seq<u8>, pos: int, b: Seq<u8>)
    requires
        0 <= pos,
        b.len() <= u32::MAX,
        pos + 4 + b.len() <= data.len(),
        data.subrange(pos, pos + 4) == le32(b.len() as u32),
        data.subrange(pos + 4, pos + 4 + b.len() as int) == b,
    ensures
        parse_len_bytes(data, pos) == Some((b, pos + 4 + b.len() as int)),
{
    lemma_u32_le_roundtrip(b.len() as u32);
}

/// Where a serialized boolean sits in `data`, parsing at its start recovers it.
pub proof fn lemma_parse_bool_at(data: Seq<u8>, pos: int, b: bool)
    requires
        0 <= pos,
        pos + 1 <= data.len(),
        data.subrange(pos, pos + 1) == bool_byte(b),
    ensures
        parse_bool_at(data, pos) == Some((b, pos + 1)),
{
    assert(data[pos] == bool_byte(b)[0]);
}

/// Where a serialized little-endian 64-bit integer sits in `data`, parsing at
/// its start recovers it.
pub proof fn lemma_parse_u64_at(data: Seq<u8>, pos: int, x: u64)
    requires
        0 <= pos,
        pos + 8 <= data.len(),
        data.subrange(pos, pos + 8) == le64(x),
    ensures
        parse_u64_at(data, pos) == Some((x, pos + 8)),
{
    lemma_u64_le_roundtrip(x);
}

/// Reads a length-prefixed byte field, mirroring `parse_len_bytes`.
pub fn read_len_bytes(data: &Vec<u8>, pos: usize) -> (r: Option<(Vec<u8>, usize)>)
    requires
        pos <= data@.len(),
    ensures
        match r {
            Some(v) => parse_len_bytes(data@, pos as int) == Some((v.0@, v.1 as int)) && v.1
                <= data@.len(),
            None => parse_len_bytes(data@, pos as int) is None,
        },
{
    let dlen: usize = data.len();
    if dlen - pos < 4 {
        return None;
    }
    let n32: u32 = (data[pos] as u32) | ((data[pos + 1] as u32) << 8) | ((data[pos + 2] as u32)
        << 16) | ((data[pos + 3] as u32) << 24);
    proof {
        assert(data@.subrange(pos as int, pos as int + 4)[0] == data@[pos as int]);
        assert(data@.subrange(pos as int, pos as int + 4)[1] == data@[pos as int + 1]);
        assert(data@.subrange(pos as int, pos as int + 4)[2] == data@[pos as int + 2]);
        assert(data@.subrange(pos as int, pos as int + 4)[3] == data@[pos as int + 3]);
    }
    let n: usize = n32 as usize;
    if n > dlen - (pos + 4) {
        return None;
    }
    let b: Vec<u8> = copy_range(data, pos + 4, n);
    Some((b, pos + 4 + n))
}

/// Reads a one-byte boolean, mirroring `parse_bool_at`.
pub fn read_bool_at(data: &Vec<u8>, pos: usize) -> (r: Option<(bool, usize)>)
    requires
        pos <= data@.len(),
    ensures
        match r {
            Some(v) => parse_bool_at(data@, pos as int) == Some((v.0, v.1 as int)) && v.1
                <= data@.len(),
            None => parse_bool_at(data@, pos as int) is None,
        },
{
    let dlen: usize = data.len();
    if dlen - pos < 1 {
        return None;
    }
    let byte: u8 = data[pos];
    if byte == 0 {
        Some((false, pos + 1))
    } else if byte == 1 {
        Some((true, pos + 1))
    } else {
        None
    }
}

/// Reads an eight-byte little-endian integer, mirroring `parse_u64_at`.
pub fn read_u64_at(data: &Vec<u8>, pos: usize) -> (r: Option<(u64, usize)>)
    requires
        pos <= data@.len(),
    ensures
        match r {
            Some(v) => parse_u64_at(data@, pos as int) == Some((v.0, v.1 as int)) && v.1
                <= data@.len(),
            None => parse_u64_at(data@, pos as int) is None,
        },
{
    let dlen: usize = data.len();
    if dlen - pos < 8 {
        return None;
    }
    let x: u64 = (data[pos] as u64) | ((data[pos + 1] as u64) << 8) | ((data[pos + 2] as u64)
        << 16) | ((data[pos + 3] as u64) << 24) | ((data[pos + 4] as u64) << 32) | ((data[pos
        + 5] as u64) << 40) | ((data[pos + 6] as u64) << 48) | ((data[pos + 7] as u64) << 56);
    proof {
        let s = data@.subrange(pos as int, pos as int + 8);
        assert(s[0] == data@[pos as int]);
        assert(s[1] == data@[pos as int + 1]);
        assert(s[2] == data@[pos as int + 2]);
        assert(s[3] == data@[pos as int + 3]);
        assert(s[4] == data@[pos as int + 4]);
        assert(s[5] == data@[pos as int + 5]);
        assert(s[6] == data@[pos as int + 6]);
        assert(s[7] == data@[pos as int + 7]);
    }
    Some((x, pos + 8))
}

/// Reads a fixed-width field of `n` bytes, mirroring `parse_fixed`.
pub fn read_fixed(data: &Vec<u8>, pos: usize, n: usize) -> (r: Option<(Vec<u8>, usize)>)
    requires
        pos <= data@.len(),
    ensures
        match r {
            Some(v) => parse_fixed(data@, pos as int, n as int) == Some((v.0@, v.1 as int)) && v.1
                <= data@.len(),
            None => parse_fixed(data@, pos as int, n as int) is None,
        },
{
    let dlen: usize = data.len();
    if dlen - pos < n {
        return None;
    }
    let b: Vec<u8> = copy_range(data, pos, n);
    Some((b, pos + n))
}

} // verus!
