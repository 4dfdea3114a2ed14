//! Big-endian byte layout of the integers that appear on the wire.
//!
//! Every multi-byte integer in the protocol is big-endian. The spec
//! functions here give the exact byte sequences; the executable helpers
//! append to or read from byte vectors and are proved against them.

use vstd::prelude::*;

verus! {

/// The two big-endian bytes of a `u16`.
pub open spec fn be16(x: u16) -> Seq<u8> {
    seq![(x / 256) as u8, (x % 256) as u8]
}

/// The four big-endian bytes of a `u32`, as its two 16-bit halves.
pub open spec fn be32(x: u32) -> Seq<u8> {
    be16((x / 0x10000) as u16) + be16((x % 0x10000) as u16)
}

/// The `u16` read big-endian from `b` at offset `i`.
pub open spec fn dec16(b: Seq<u8>, i: int) -> u16 {
    (b[i] * 256 + b[i + 1]) as u16
}

/// The `u32` read big-endian from `b` at offset `i`.
pub open spec fn dec32(b: Seq<u8>, i: int) -> u32 {
    (dec16(b, i) * 0x10000 + dec16(b, i + 2)) as u32
}

/// The unsigned 32-bit wire value that carries a signed `i32`.
pub open spec fn bits_of_i32(x: i32) -> u32 {
    if x >= 0 {
        x as u32
    } else {
        (x + 0x1_0000_0000) as u32
    }
}

/// The signed reading of an unsigned 32-bit wire value.
pub open spec fn i32_of_bits(u: u32) -> i32 {
    if u < 0x8000_0000 {
        u as i32
    } else {
        (u - 0x1_0000_0000) as i32
    }
}

/// The unsigned 16-bit wire value that carries a signed `i16`.
pub open spec fn bits_of_i16(x: i16) -> u16 {
    if x >= 0 {
        x as u16
    } else {
        (x + 0x1_0000) as u16
    }
}

/// The signed reading of an unsigned 16-bit wire value.
pub open spec fn i16_of_bits(u: u16) -> i16 {
    if u < 0x8000 {
        u as i16
    } else {
        (u - 0x1_0000) as i16
    }
}

/// Reading a signed value's wire form back as signed gives the value.
pub proof fn lemma_i32_bits_round_trip(x: i32)
    ensures
        i32_of_bits(bits_of_i32(x)) == x,
{
}

/// Reading a signed value's wire form back as signed gives the value.
pub proof fn lemma_i16_bits_round_trip(x: i16)
    ensures
        i16_of_bits(bits_of_i16(x)) == x,
{
}

/// Decoding the two big-endian bytes of `x` gives `x` again.
pub proof fn lemma_be16_round_trip(x: u16, b: Seq<u8>, i: int)
    requires
        0 <= i,
        i + 2 <= b.len(),
        b[i] == be16(x)[0],
        b[i + 1] == be16(x)[1],
    ensures
        dec16(b, i) == x,
{
    assert(x / 256 * 256 + x % 256 == x);
}

/// Decoding the four big-endian bytes of `x` gives `x` again.
pub proof fn lemma_be32_round_trip(x: u32, b: Seq<u8>, i: int)
    requires
        0 <= i,
        i + 4 <= b.len(),
        b[i] == be32(x)[0],
        b[i + 1] == be32(x)[1],
        b[i + 2] == be32(x)[2],
        b[i + 3] == be32(x)[3],
    ensures
        dec32(b, i) == x,
{
    let hi = (x / 0x10000) as u16;
    let lo = (x % 0x10000) as u16;
    lemma_be16_round_trip(hi, b, i);
    lemma_be16_round_trip(lo, b, i + 2);
    assert(x / 0x10000 * 0x10000 + x % 0x10000 == x);
}

/// Appends the two big-endian bytes of `x`.
pub fn push_u16_be(out: &mut Vec<u8>, x: u16)
    ensures
        final(out)@ == old(out)@ + be16(x),
{
    out.push((x / 256) as u8);
    out.push((x % 256) as u8);
    assert(out@ =~= old(out)@ + be16(x));
}

/// Appends the four big-endian bytes of `x`.
pub fn push_u32_be(out: &mut Vec<u8>, x: u32)
    ensures
        final(out)@ == old(out)@ + be32(x),
{
    push_u16_be(out, (x / 0x10000) as u16);
    push_u16_be(out, (x % 0x10000) as u16);
    assert(out@ =~= old(out)@ + be32(x));
}

/// Reads a big-endian `u16` at offset `pos`.
pub fn read_u16_be(data: &Vec<u8>, pos: usize) -> (r: u16)
    requires
        pos + 2 <= data.len(),
    ensures
        r == dec16(data@, pos as int),
{
    let b0 = data[pos];
    let b1 = data[pos + 1];
    b0 as u16 * 256 + b1 as u16
}

/// Reads a big-endian `u32` at offset `pos`.
pub fn read_u32_be(data: &Vec<u8>, pos: usize) -> (r: u32)
    requires
        pos + 4 <= data.len(),
    ensures
        r == dec32(data@, pos as int),
{
    let hi = read_u16_be(data, pos);
    let lo = read_u16_be(data, pos + 2);
    hi as u32 * 0x10000 + lo as u32
}

/// The unsigned wire form of a signed 32-bit value.
pub fn i32_to_bits(x: i32) -> (r: u32)
    ensures
        r == bits_of_i32(x),
{
    if x >= 0 {
        x as u32
    } else {
        ((x as i64) + 0x1_0000_0000i64) as u32
    }
}

/// The signed reading of an unsigned 32-bit wire value.
pub fn bits_to_i32(u: u32) -> (r: i32)
    ensures
        r == i32_of_bits(u),
{
    if u < 0x8000_0000 {
        u as i32
    } else {
        ((u as i64) - 0x1_0000_0000i64) as i32
    }
}

/// The unsigned wire form of a signed 16-bit value.
pub fn i16_to_bits(x: i16) -> (r: u16)
    ensures
        r == bits_of_i16(x),
{
    if x >= 0 {
        x as u16
    } else {
        ((x as i32) + 0x1_0000i32) as u16
    }
}

/// The signed reading of an unsigned 16-bit wire value.
pub fn bits_to_i16(u: u16) -> (r: i16)
    ensures
        r == i16_of_bits(u),
{
    if u < 0x8000 {
        u as i16
    } else {
        ((u as i32) - 0x1_0000i32) as i16
    }
}

/// Copies a byte vector; used where a payload is handed out by value.
pub fn clone_bytes(v: &Vec<u8>) -> (r: Vec<u8>)
    ensures
        r@ == v@,
{
    let mut r: Vec<u8> = Vec::new();
    let mut i: usize = 0;
    while i < v.len()
        invariant
            i <= v.len(),
            r@ == v@.subrange(0, i as int),
        decreases v.len() - i,
    {
        r.push(v[i]);
        i = i + 1;
        assert(r@ =~= v@.subrange(0, i as int));
    }
    assert(r@ =~= v@);
    r
}

/// Copies the bytes of `v` from `from` up to `to`.
pub fn sub_bytes(v: &Vec<u8>, from: usize, to: usize) -> (r: Vec<u8>)
    requires
        from <= to <= v.len(),
    ensures
        r@ == v@.subrange(from as int, to as int),
{
    let mut r: Vec<u8> = Vec::new();
    let mut i: usize = from;
    while i < to
        invariant
            from <= i <= to <= v.len(),
            r@ == v@.subrange(from as int, i as int),
        decreases to - i,
    {
        r.push(v[i]);
        i = i + 1;
        assert(r@ =~= v@.subrange(from as int, i as int));
    }
    r
}

/// Compares two byte vectors for equality of contents.
pub fn bytes_eq(a: &Vec<u8>, b: &Vec<u8>) -> (r: bool)
    ensures
        r == (a@ == b@),
{
    if a.len() != b.len() {
        assert(a@ != b@) by {
            assert(a@.len() != b@.len());
        }
        return false;
    }
    let mut i: usize = 0;
    while i < a.len()
        invariant
            i <= a.len(),
            a.len() == b.len(),
            forall|j: int| 0 <= j < i ==> a@[j] == b@[j],
        decreases a.len() - i,
    {
        if a[i] != b[i] {
            return false;
        }
        i = i + 1;
    }
    assert(a@ =~= b@);
    true
}

} // verus!
