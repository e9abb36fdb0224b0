//! Fixed-width integers on the wire.
//!
//! The vsock header is little-endian and the NBD frames are big-endian. Both
//! layouts are stated here as plain arithmetic over byte sequences, so that
//! the codecs can speak of field values without mentioning shifts or masks.

use vstd::prelude::*;
use vstd::slice::slice_subrange;
use byteorder::{BigEndian, ByteOrder};

verus! {

/// Value of a 2-byte little-endian field.
pub open spec fn le16(s: Seq<u8>) -> int
    recommends
        s.len() == 2,
{
    s[0] as int + 0x100 * (s[1] as int)
}

/// Value of a 4-byte little-endian field.
pub open spec fn le32(s: Seq<u8>) -> int
    recommends
        s.len() == 4,
{
    s[0] as int + 0x100 * (s[1] as int) + 0x1_0000 * (s[2] as int) + 0x100_0000 * (s[3] as int)
}

/// The 2 bytes that hold `x` in little-endian order.
pub open spec fn le16_bytes(x: u16) -> Seq<u8> {
    seq![(x % 0x100) as u8, (x / 0x100) as u8]
}

/// The 4 bytes that hold `x` in little-endian order.
pub open spec fn le32_bytes(x: u32) -> Seq<u8> {
    seq![
        (x % 0x100) as u8,
        ((x / 0x100) % 0x100) as u8,
        ((x / 0x1_0000) % 0x100) as u8,
        (x / 0x100_0000) as u8,
    ]
}

/// Value of a big-endian field of any width: the first byte is the most
/// significant one.
pub open spec fn be_value(s: Seq<u8>) -> nat
    decreases s.len(),
{
    if s.len() == 0 {
        0
    } else {
        0x100 * be_value(s.drop_last()) + s.last() as nat
    }
}

/// The `width` bytes that hold `n` in big-endian order (`n` reduced modulo
/// `256^width`).
pub open spec fn be_bytes(n: nat, width: nat) -> Seq<u8>
    decreases width,
{
    if width == 0 {
        Seq::<u8>::empty()
    } else {
        be_bytes(n / 0x100, (width - 1) as nat).push((n % 0x100) as u8)
    }
}

/// `256^width`, the number of values a field of `width` bytes can hold.
pub open spec fn field_limit(width: nat) -> nat
    decreases width,
{
    if width == 0 {
        1
    } else {
        0x100 * field_limit((width - 1) as nat)
    }
}

pub proof fn lemma_le16_round_trip(x: u16)
    ensures
        le16_bytes(x).len() == 2,
        le16(le16_bytes(x)) == x,
{
}

pub proof fn lemma_le32_round_trip(x: u32)
    ensures
        le32_bytes(x).len() == 4,
        le32(le32_bytes(x)) == x,
{
}

pub proof fn lemma_le16_range(s: Seq<u8>)
    requires
        s.len() == 2,
    ensures
        0 <= le16(s) <= u16::MAX,
        le16_bytes(le16(s) as u16) == s,
{
    assert(le16_bytes(le16(s) as u16) =~= s);
}

pub proof fn lemma_le32_range(s: Seq<u8>)
    requires
        s.len() == 4,
    ensures
        0 <= le32(s) <= u32::MAX,
        le32_bytes(le32(s) as u32) == s,
{
    let v = le32(s);
    let hi = s[2] as int + 0x100 * (s[3] as int);
    let mid = s[1] as int + 0x100 * hi;
    assert(v == s[0] as int + 0x100 * mid);
    assert(v % 0x100 == s[0] as int);
    assert(v / 0x100 == mid);
    assert(mid % 0x100 == s[1] as int);
    assert(v == s[0] as int + 0x100 * (s[1] as int) + 0x1_0000 * hi);
    assert(v / 0x1_0000 == hi);
    assert(hi % 0x100 == s[2] as int);
    assert(v / 0x100_0000 == s[3] as int);
    assert(le32_bytes(v as u32) =~= s);
}

/// A big-endian field has as many bytes as its width.
pub proof fn lemma_be_bytes_len(n: nat, width: nat)
    ensures
        be_bytes(n, width).len() == width,
    decreases width,
{
    if width > 0 {
        lemma_be_bytes_len(n / 0x100, (width - 1) as nat);
    }
}

/// Reading back what was written gives the number, as long as it fits.
pub proof fn lemma_be_round_trip(n: nat, width: nat)
    requires
        n < field_limit(width),
    ensures
        be_value(be_bytes(n, width)) == n,
    decreases width,
{
    if width > 0 {
        let rest = be_bytes(n / 0x100, (width - 1) as nat);
        lemma_be_round_trip(n / 0x100, (width - 1) as nat);
        assert(be_bytes(n, width).drop_last() =~= rest);
    }
}

/// Every byte string is the encoding of its own value.
pub proof fn lemma_be_value_bound(s: Seq<u8>)
    ensures
        be_value(s) < field_limit(s.len()),
        be_bytes(be_value(s), s.len()) == s,
    decreases s.len(),
{
    if s.len() > 0 {
        lemma_be_value_bound(s.drop_last());
        let v = be_value(s);
        assert(v / 0x100 == be_value(s.drop_last()));
        assert(v % 0x100 == s.last() as nat);
        assert(be_bytes(v, s.len()) =~= s);
    } else {
        assert(be_bytes(be_value(s), s.len()) =~= s);
    }
}

pub proof fn lemma_field_limits()
    ensures
        field_limit(2) == 0x1_0000,
        field_limit(4) == 0x1_0000_0000,
        field_limit(8) == 0x1_0000_0000_0000_0000,
{
    reveal_with_fuel(field_limit, 9);
}

/// Appends `x` to `out` as 2 little-endian bytes.
pub fn put_le16(out: &mut Vec<u8>, x: u16)
    ensures
        final(out)@ == old(out)@ + le16_bytes(x),
{
    out.push((x % 0x100) as u8);
    out.push((x / 0x100) as u8);
    assert(out@ =~= old(out)@ + le16_bytes(x));
}

/// Appends `x` to `out` as 4 little-endian bytes.
pub fn put_le32(out: &mut Vec<u8>, x: u32)
    ensures
        final(out)@ == old(out)@ + le32_bytes(x),
{
    out.push((x % 0x100) as u8);
    out.push(((x / 0x100) % 0x100) as u8);
    out.push(((x / 0x1_0000) % 0x100) as u8);
    out.push((x / 0x100_0000) as u8);
    assert(out@ =~= old(out)@ + le32_bytes(x));
}

/// Reads the 2-byte little-endian field that starts at `at`.
pub fn get_le16(bytes: &[u8], at: usize) -> (x: u16)
    requires
        at + 2 <= bytes@.len(),
    ensures
        x == le16(bytes@.subrange(at as int, at + 2)),
{
    let b0: u16 = bytes[at] as u16;
    let b1: u16 = bytes[at + 1] as u16;
    b0 + 0x100 * b1
}

/// Reads the 4-byte little-endian field that starts at `at`.
pub fn get_le32(bytes: &[u8], at: usize) -> (x: u32)
    requires
        at + 4 <= bytes@.len(),
    ensures
        x == le32(bytes@.subrange(at as int, at + 4)),
{
    let b0: u32 = bytes[at] as u32;
    let b1: u32 = bytes[at + 1] as u32;
    let b2: u32 = bytes[at + 2] as u32;
    let b3: u32 = bytes[at + 3] as u32;
    b0 + 0x100 * b1 + 0x1_0000 * b2 + 0x100_0000 * b3
}

/// `byteorder::BigEndian::read_u16`: the big-endian value of the first two
/// bytes of `buf`. The call panics on a shorter buffer, which `requires`
/// leaves out.
#[verifier::external_body]
fn be_read_u16(buf: &[u8]) -> (x: u16)
    requires
        buf@.len() >= 2,
    ensures
        x == be_value(buf@.subrange(0, 2)),
{
    BigEndian::read_u16(buf)
}

/// `byteorder::BigEndian::read_u32`: the big-endian value of the first four
/// bytes of `buf`. The call panics on a shorter buffer, which `requires`
/// leaves out.
#[verifier::external_body]
fn be_read_u32(buf: &[u8]) -> (x: u32)
    requires
        buf@.len() >= 4,
    ensures
        x == be_value(buf@.subrange(0, 4)),
{
    BigEndian::read_u32(buf)
}

/// `byteorder::BigEndian::read_u64`: the big-endian value of the first eight
/// bytes of `buf`. The call panics on a shorter buffer, which `requires`
/// leaves out.
#[verifier::external_body]
fn be_read_u64(buf: &[u8]) -> (x: u64)
    requires
        buf@.len() >= 8,
    ensures
        x == be_value(buf@.subrange(0, 8)),
{
    BigEndian::read_u64(buf)
}

/// `byteorder::BigEndian::write_u16` into a fresh 2-byte buffer: the two
/// bytes of `x`, most significant first.
#[verifier::external_body]
fn be_write_u16(x: u16) -> (out: Vec<u8>)
    ensures
        out@ == be_bytes(x as nat, 2),
{
    let mut buf = [0u8; 2];
    BigEndian::write_u16(&mut buf, x);
    buf.to_vec()
}

/// `byteorder::BigEndian::write_u32` into a fresh 4-byte buffer: the four
/// bytes of `x`, most significant first.
#[verifier::external_body]
fn be_write_u32(x: u32) -> (out: Vec<u8>)
    ensures
        out@ == be_bytes(x as nat, 4),
{
    let mut buf = [0u8; 4];
    BigEndian::write_u32(&mut buf, x);
    buf.to_vec()
}

/// `byteorder::BigEndian::write_u64` into a fresh 8-byte buffer: the eight
/// bytes of `x`, most significant first.
#[verifier::external_body]
fn be_write_u64(x: u64) -> (out: Vec<u8>)
    ensures
        out@ == be_bytes(x as nat, 8),
{
    let mut buf = [0u8; 8];
    BigEndian::write_u64(&mut buf, x);
    buf.to_vec()
}

/// Reads the 2-byte big-endian field that starts at `at`.
pub fn get_be16(bytes: &[u8], at: usize) -> (x: u16)
    requires
        at + 2 <= bytes@.len(),
    ensures
        x == be_value(bytes@.subrange(at as int, at + 2)),
{
    let len = bytes.len();
    let field = slice_subrange(bytes, at, at + 2);
    assert(field@.subrange(0, 2) =~= field@);
    be_read_u16(field)
}

/// Reads the 4-byte big-endian field that starts at `at`.
pub fn get_be32(bytes: &[u8], at: usize) -> (x: u32)
    requires
        at + 4 <= bytes@.len(),
    ensures
        x == be_value(bytes@.subrange(at as int, at + 4)),
{
    let len = bytes.len();
    let field = slice_subrange(bytes, at, at + 4);
    assert(field@.subrange(0, 4) =~= field@);
    be_read_u32(field)
}

/// Reads the 8-byte big-endian field that starts at `at`.
pub fn get_be64(bytes: &[u8], at: usize) -> (x: u64)
    requires
        at + 8 <= bytes@.len(),
    ensures
        x == be_value(bytes@.subrange(at as int, at + 8)),
{
    let len = bytes.len();
    let field = slice_subrange(bytes, at, at + 8);
    assert(field@.subrange(0, 8) =~= field@);
    be_read_u64(field)
}

/// Appends `x` to `out` as 2 big-endian bytes.
pub fn put_be16(out: &mut Vec<u8>, x: u16)
    ensures
        final(out)@ == old(out)@ + be_bytes(x as nat, 2),
{
    let field = be_write_u16(x);
    out.extend_from_slice(field.as_slice());
}

/// Appends `x` to `out` as 4 big-endian bytes.
pub fn put_be32(out: &mut Vec<u8>, x: u32)
    ensures
        final(out)@ == old(out)@ + be_bytes(x as nat, 4),
{
    let field = be_write_u32(x);
    out.extend_from_slice(field.as_slice());
}

/// Appends `x` to `out` as 8 big-endian bytes.
pub fn put_be64(out: &mut Vec<u8>, x: u64)
    ensures
        final(out)@ == old(out)@ + be_bytes(x as nat, 8),
{
    let field = be_write_u64(x);
    out.extend_from_slice(field.as_slice());
}

} // verus!
