//! Big-endian integers as byte sequences.

use vstd::prelude::*;

verus! {

/// The two bytes of `v`, most significant first.
#[verifier::opaque]
pub open spec fn be16(v: u16) -> Seq<u8> {
    seq![(v / 256) as u8, (v % 256) as u8]
}

/// The four bytes of `v`, most significant first.
#[verifier::opaque]
pub open spec fn be32(v: u32) -> Seq<u8> {
    be16((v / 0x1_0000) as u16) + be16((v % 0x1_0000) as u16)
}

/// The eight bytes of `v`, most significant first.
#[verifier::opaque]
pub open spec fn be64(v: u64) -> Seq<u8> {
    be32((v / 0x1_0000_0000) as u32) + be32((v % 0x1_0000_0000) as u32)
}

/// The two's complement bytes of `v`, most significant first.
pub open spec fn be_i16(v: i16) -> Seq<u8> {
    be16(v as u16)
}

/// The two's complement bytes of `v`, most significant first.
pub open spec fn be_i32(v: i32) -> Seq<u8> {
    be32(v as u32)
}

/// The number that the first two bytes of `s` spell.
#[verifier::opaque]
pub open spec fn from_be16(s: Seq<u8>) -> u16 {
    (s[0] * 256 + s[1]) as u16
}

/// The number that the first four bytes of `s` spell.
#[verifier::opaque]
pub open spec fn from_be32(s: Seq<u8>) -> u32 {
    (from_be16(s) * 0x1_0000 + from_be16(s.skip(2))) as u32
}

/// The number that the first eight bytes of `s` spell.
#[verifier::opaque]
pub open spec fn from_be64(s: Seq<u8>) -> u64 {
    (from_be32(s) * 0x1_0000_0000 + from_be32(s.skip(4))) as u64
}

pub broadcast proof fn lemma_be16_len(v: u16)
    ensures
        #[trigger] be16(v).len() == 2,
{
    reveal(be16);
}

pub broadcast proof fn lemma_be32_len(v: u32)
    ensures
        #[trigger] be32(v).len() == 4,
{
    lemma_be32(v, seq![]);
}

pub broadcast proof fn lemma_be64_len(v: u64)
    ensures
        #[trigger] be64(v).len() == 8,
{
    lemma_be64(v, seq![]);
}

/// How many bytes each number takes.
pub broadcast group group_be_lengths {
    lemma_be16_len,
    lemma_be32_len,
    lemma_be64_len,
}

pub proof fn lemma_be16(v: u16, tail: Seq<u8>)
    ensures
        be16(v).len() == 2,
        from_be16(be16(v) + tail) == v,
        (be16(v) + tail).skip(2) == tail,
{
    reveal(be16);
    reveal(from_be16);
    assert((be16(v) + tail).skip(2) =~= tail);
}

pub proof fn lemma_be32(v: u32, tail: Seq<u8>)
    ensures
        be32(v).len() == 4,
        from_be32(be32(v) + tail) == v,
        (be32(v) + tail).skip(4) == tail,
{
    reveal(be32);
    reveal(from_be32);
    let high = (v / 0x1_0000) as u16;
    let low = (v % 0x1_0000) as u16;
    assert(be32(v) + tail =~= be16(high) + (be16(low) + tail));
    lemma_be16(high, be16(low) + tail);
    lemma_be16(low, tail);
    assert((be32(v) + tail).skip(4) =~= tail);
}

pub proof fn lemma_be64(v: u64, tail: Seq<u8>)
    ensures
        be64(v).len() == 8,
        from_be64(be64(v) + tail) == v,
        (be64(v) + tail).skip(8) == tail,
{
    reveal(be64);
    reveal(from_be64);
    let high = (v / 0x1_0000_0000) as u32;
    let low = (v % 0x1_0000_0000) as u32;
    assert(be64(v) + tail =~= be32(high) + (be32(low) + tail));
    lemma_be32(high, be32(low) + tail);
    lemma_be32(low, tail);
    assert((be64(v) + tail).skip(8) =~= tail);
}

pub proof fn lemma_from_be16(s: Seq<u8>)
    requires
        s.len() >= 2,
    ensures
        be16(from_be16(s)) == s.take(2),
        s == be16(from_be16(s)) + s.skip(2),
{
    reveal(be16);
    reveal(from_be16);
    assert(be16(from_be16(s)) =~= s.take(2));
    assert(s =~= s.take(2) + s.skip(2));
}

pub proof fn lemma_from_be32(s: Seq<u8>)
    requires
        s.len() >= 4,
    ensures
        be32(from_be32(s)) == s.take(4),
        s == be32(from_be32(s)) + s.skip(4),
{
    reveal(be32);
    reveal(from_be32);
    lemma_from_be16(s);
    lemma_from_be16(s.skip(2));
    assert(be32(from_be32(s)) =~= be16(from_be16(s)) + be16(from_be16(s.skip(2))));
    assert(be32(from_be32(s)) =~= s.take(4));
    assert(s =~= s.take(4) + s.skip(4));
}

pub proof fn lemma_from_be64(s: Seq<u8>)
    requires
        s.len() >= 8,
    ensures
        be64(from_be64(s)) == s.take(8),
        s == be64(from_be64(s)) + s.skip(8),
{
    reveal(be64);
    reveal(from_be64);
    let high = from_be32(s);
    let low = from_be32(s.skip(4));
    let whole = from_be64(s);
    assert((whole / 0x1_0000_0000) as u32 == high && (whole % 0x1_0000_0000) as u32 == low);
    assert(be64(whole) == be32(high) + be32(low));
    lemma_from_be32(s);
    lemma_from_be32(s.skip(4));
    assert(s.take(4) + s.skip(4).take(4) =~= s.take(8));
    assert(s =~= s.take(8) + s.skip(8));
}

/// Casting to unsigned and back loses nothing, in either direction.
pub proof fn lemma_signed_casts(a: i16, b: i32, c: u16, d: u32)
    ensures
        (a as u16) as i16 == a,
        (b as u32) as i32 == b,
        (c as i16) as u16 == c,
        (d as i32) as u32 == d,
{
    assert((a as u16) as i16 == a) by (bit_vector);
    assert((b as u32) as i32 == b) by (bit_vector);
    assert((c as i16) as u16 == c) by (bit_vector);
    assert((d as i32) as u32 == d) by (bit_vector);
}

/// Reads two bytes of `data`, starting at `at`.
pub fn read_u16(data: &[u8], at: usize) -> (v: u16)
    requires
        at + 2 <= data@.len(),
    ensures
        v == from_be16(data@.skip(at as int)),
{
    proof {
        reveal(from_be16);
    }
    data[at] as u16 * 256 + data[at + 1] as u16
}

/// Reads four bytes of `data`, starting at `at`.
pub fn read_u32(data: &[u8], at: usize) -> (v: u32)
    requires
        at + 4 <= data@.len(),
    ensures
        v == from_be32(data@.skip(at as int)),
{
    let _len: usize = data.len();
    let high = read_u16(data, at);
    let low = read_u16(data, at + 2);
    proof {
        reveal(from_be32);
    }
    assert(data@.skip(at as int).skip(2) =~= data@.skip(at + 2));
    high as u32 * 0x1_0000 + low as u32
}

/// Reads eight bytes of `data`, starting at `at`.
pub fn read_u64(data: &[u8], at: usize) -> (v: u64)
    requires
        at + 8 <= data@.len(),
    ensures
        v == from_be64(data@.skip(at as int)),
{
    let _len: usize = data.len();
    let high = read_u32(data, at);
    let low = read_u32(data, at + 4);
    proof {
        reveal(from_be64);
    }
    assert(data@.skip(at as int).skip(4) =~= data@.skip(at + 4));
    high as u64 * 0x1_0000_0000 + low as u64
}

/// Reads a two's complement number of two bytes, starting at `at`.
pub fn read_i16(data: &[u8], at: usize) -> (v: i16)
    requires
        at + 2 <= data@.len(),
    ensures
        v == from_be16(data@.skip(at as int)) as i16,
{
    read_u16(data, at) as i16
}

/// Reads a two's complement number of four bytes, starting at `at`.
pub fn read_i32(data: &[u8], at: usize) -> (v: i32)
    requires
        at + 4 <= data@.len(),
    ensures
        v == from_be32(data@.skip(at as int)) as i32,
{
    read_u32(data, at) as i32
}

/// The number that bytes spell to the base 256, the most significant first.
pub open spec fn number(bytes: Seq<u8>) -> nat
    decreases bytes.len(),
{
    if bytes.len() == 0 {
        0
    } else {
        number(bytes.drop_last()) * 256 + bytes.last() as nat
    }
}

proof fn lemma_number_pair(bytes: Seq<u8>)
    requires
        bytes.len() == 2,
    ensures
        number(bytes) == bytes[0] * 256 + bytes[1],
{
    assert(bytes.drop_last().drop_last().len() == 0);
    assert(number(bytes.drop_last().drop_last()) == 0);
    assert(number(bytes.drop_last()) == bytes[0]);
}

proof fn lemma_number_behind(high: Seq<u8>, a: u8, b: u8)
    ensures
        number(high + seq![a, b]) == number(high) * 0x1_0000 + a * 256 + b,
{
    let all = high + seq![a, b];
    assert(all.drop_last().drop_last() =~= high);
    assert(number(all.drop_last()) == number(high) * 256 + a);
}

proof fn lemma_number_four(high: Seq<u8>, low: Seq<u8>)
    requires
        high.len() == 2,
        low.len() == 2,
    ensures
        number(high + low) == number(high) * 0x1_0000 + number(low),
{
    lemma_number_pair(low);
    lemma_number_behind(high, low[0], low[1]);
    assert(low =~= seq![low[0], low[1]]);
}

proof fn lemma_number_eight(high: Seq<u8>, low: Seq<u8>)
    requires
        high.len() == 4,
        low.len() == 4,
    ensures
        number(high + low) == number(high) * 0x1_0000_0000 + number(low),
{
    let first = low.take(2);
    let second = low.skip(2);
    lemma_number_pair(first);
    lemma_number_pair(second);
    lemma_number_four(first, second);
    lemma_number_behind(high, first[0], first[1]);
    lemma_number_behind(high + first, second[0], second[1]);
    assert(low =~= first + second);
    assert(first =~= seq![first[0], first[1]]);
    assert(second =~= seq![second[0], second[1]]);
    assert(high + low =~= (high + first) + second);
}

/// The bytes of a number spell that number: none is lost, and they do not change places.
pub proof fn numbers_are_spelled_by_their_bytes(a: u16, b: u32, c: u64)
    ensures
        be16(a).len() == 2 && number(be16(a)) == a,
        be32(b).len() == 4 && number(be32(b)) == b,
        be64(c).len() == 8 && number(be64(c)) == c,
{
    lemma_spelled_by_two(a);
    lemma_spelled_by_four(b);
    let high = (c / 0x1_0000_0000) as u32;
    let low = (c % 0x1_0000_0000) as u32;
    lemma_spelled_by_four(high);
    lemma_spelled_by_four(low);
    reveal(be64);
    lemma_number_eight(be32(high), be32(low));
}

proof fn lemma_spelled_by_two(a: u16)
    ensures
        be16(a).len() == 2,
        number(be16(a)) == a,
{
    reveal(be16);
    lemma_number_pair(be16(a));
}

proof fn lemma_spelled_by_four(b: u32)
    ensures
        be32(b).len() == 4,
        number(be32(b)) == b,
{
    let high = (b / 0x1_0000) as u16;
    let low = (b % 0x1_0000) as u16;
    lemma_spelled_by_two(high);
    lemma_spelled_by_two(low);
    reveal(be32);
    lemma_number_four(be16(high), be16(low));
}

/// A number that is read is the one that the bytes in front spell; what stands behind them is
/// not looked at.
pub proof fn numbers_are_read_as_they_are_spelled(bytes: Seq<u8>)
    ensures
        bytes.len() >= 2 ==> from_be16(bytes) == number(bytes.take(2)),
        bytes.len() >= 4 ==> from_be32(bytes) == number(bytes.take(4)),
        bytes.len() >= 8 ==> from_be64(bytes) == number(bytes.take(8)),
{
    if bytes.len() >= 2 {
        lemma_from_be16(bytes);
        numbers_are_spelled_by_their_bytes(from_be16(bytes), 0, 0);
    }
    if bytes.len() >= 4 {
        lemma_from_be32(bytes);
        numbers_are_spelled_by_their_bytes(0, from_be32(bytes), 0);
    }
    if bytes.len() >= 8 {
        lemma_from_be64(bytes);
        numbers_are_spelled_by_their_bytes(0, 0, from_be64(bytes));
    }
}

} // verus!
