//! Little-endian fields: what they are as bytes, and the code that appends
//! them to a buffer or reads them at an offset.

use vstd::bytes::*;
use vstd::prelude::*;
use vstd::slice::slice_subrange;

verus! {

/// The four bytes of `x`, least significant first.
pub open spec fn le32(x: u32) -> Seq<u8> {
    spec_u32_to_le_bytes(x)
}

/// The eight bytes of `x`, least significant first.
pub open spec fn le64(x: u64) -> Seq<u8> {
    spec_u64_to_le_bytes(x)
}

/// The eight bytes of the two's complement of `x`, least significant first.
pub open spec fn le64s(x: i64) -> Seq<u8> {
    spec_u64_to_le_bytes(x as u64)
}

/// The four bytes of the two's complement of `x`, least significant first.
pub open spec fn le32s(x: i32) -> Seq<u8> {
    spec_u32_to_le_bytes(x as u32)
}

/// The `u32` that stands at offset `at` of `s`.
pub open spec fn rd32(s: Seq<u8>, at: int) -> u32 {
    spec_u32_from_le_bytes(s.subrange(at, at + 4))
}

/// The `u64` that stands at offset `at` of `s`.
pub open spec fn rd64(s: Seq<u8>, at: int) -> u64 {
    spec_u64_from_le_bytes(s.subrange(at, at + 8))
}

/// The `i64` that stands at offset `at` of `s`.
pub open spec fn rd64s(s: Seq<u8>, at: int) -> i64 {
    rd64(s, at) as i64
}

/// The `i32` that stands at offset `at` of `s`.
pub open spec fn rd32s(s: Seq<u8>, at: int) -> i32 {
    rd32(s, at) as i32
}

/// Every field has its width, and reading what was written gives the value back.
pub proof fn lemma_fields()
    ensures
        forall|x: u32| #[trigger] le32(x).len() == 4,
        forall|x: u64| #[trigger] le64(x).len() == 8,
        forall|x: i32| #[trigger] le32s(x).len() == 4,
        forall|x: i64| #[trigger] le64s(x).len() == 8,
        forall|x: u32| spec_u32_from_le_bytes(#[trigger] le32(x)) == x,
        forall|x: u64| spec_u64_from_le_bytes(#[trigger] le64(x)) == x,
        forall|x: i32| spec_u32_from_le_bytes(#[trigger] le32s(x)) as i32 == x,
        forall|x: i64| spec_u64_from_le_bytes(#[trigger] le64s(x)) as i64 == x,
{
    lemma_auto_spec_u32_to_from_le_bytes();
    lemma_auto_spec_u64_to_from_le_bytes();
    assert forall|x: u32| spec_u32_from_le_bytes(#[trigger] le32(x)) == x by {
        assert(spec_u32_to_le_bytes(x).len() == 4);
    }
    assert forall|x: i32| #[trigger] le32s(x).len() == 4 by {
        assert(spec_u32_to_le_bytes(x as u32).len() == 4);
    }
    assert forall|x: i32| spec_u32_from_le_bytes(#[trigger] le32s(x)) as i32 == x by {
        let y = x as u32;
        assert(spec_u32_to_le_bytes(y).len() == 4);
        assert(spec_u32_from_le_bytes(spec_u32_to_le_bytes(y)) == y);
        assert(y as i32 == x) by (bit_vector)
            requires
                y == x as u32,
        ;
    }
    assert forall|x: i64| spec_u64_from_le_bytes(#[trigger] le64s(x)) as i64 == x by {
        let y = x as u64;
        assert(spec_u64_from_le_bytes(spec_u64_to_le_bytes(y)) == y);
        assert(y as i64 == x) by (bit_vector)
            requires
                y == x as u64,
        ;
    }
}

/// Appends the four bytes of `x`.
pub fn put_u32(buf: &mut Vec<u8>, x: u32)
    ensures
        final(buf)@ == old(buf)@ + le32(x),
{
    let mut b = u32_to_le_bytes(x);
    buf.append(&mut b);
}

/// Appends the eight bytes of `x`.
pub fn put_u64(buf: &mut Vec<u8>, x: u64)
    ensures
        final(buf)@ == old(buf)@ + le64(x),
{
    let mut b = u64_to_le_bytes(x);
    buf.append(&mut b);
}

/// Appends the four bytes of `x`.
pub fn put_i32(buf: &mut Vec<u8>, x: i32)
    ensures
        final(buf)@ == old(buf)@ + le32s(x),
{
    put_u32(buf, #[verifier::truncate] (x as u32));
}

/// Appends the eight bytes of `x`.
pub fn put_i64(buf: &mut Vec<u8>, x: i64)
    ensures
        final(buf)@ == old(buf)@ + le64s(x),
{
    put_u64(buf, #[verifier::truncate] (x as u64));
}

/// Appends `n` zero bytes.
pub fn put_zeros(buf: &mut Vec<u8>, n: usize)
    ensures
        final(buf)@ == old(buf)@ + zeros(n as nat),
{
    let mut i: usize = 0;
    while i < n
        invariant
            i <= n,
            buf@ == old(buf)@ + zeros(i as nat),
        decreases n - i,
    {
        buf.push(0u8);
        i = i + 1;
        assert(buf@ =~= old(buf)@ + zeros(i as nat));
    }
}

/// `n` zero bytes.
pub open spec fn zeros(n: nat) -> Seq<u8> {
    Seq::new(n, |i: int| 0u8)
}

/// Appends a copy of `src`.
pub fn put_bytes(buf: &mut Vec<u8>, src: &[u8])
    ensures
        final(buf)@ == old(buf)@ + src@,
{
    let mut i: usize = 0;
    while i < src.len()
        invariant
            i <= src@.len(),
            buf@ == old(buf)@ + src@.subrange(0, i as int),
        decreases src@.len() - i,
    {
        buf.push(src[i]);
        i = i + 1;
        assert(buf@ =~= old(buf)@ + src@.subrange(0, i as int));
    }
    assert(src@.subrange(0, src@.len() as int) =~= src@);
}

/// Reads the `u32` at offset `at`.
pub fn get_u32(bytes: &[u8], at: usize) -> (x: u32)
    requires
        at + 4 <= bytes@.len(),
    ensures
        x == rd32(bytes@, at as int),
{
    let n = bytes.len();
    u32_from_le_bytes(slice_subrange(bytes, at, at + 4))
}

/// Reads the `u64` at offset `at`.
pub fn get_u64(bytes: &[u8], at: usize) -> (x: u64)
    requires
        at + 8 <= bytes@.len(),
    ensures
        x == rd64(bytes@, at as int),
{
    let n = bytes.len();
    u64_from_le_bytes(slice_subrange(bytes, at, at + 8))
}

/// Reads the `i32` at offset `at`.
pub fn get_i32(bytes: &[u8], at: usize) -> (x: i32)
    requires
        at + 4 <= bytes@.len(),
    ensures
        x == rd32s(bytes@, at as int),
{
    #[verifier::truncate]
    (get_u32(bytes, at) as i32)
}

/// Reads the `i64` at offset `at`.
pub fn get_i64(bytes: &[u8], at: usize) -> (x: i64)
    requires
        at + 8 <= bytes@.len(),
    ensures
        x == rd64s(bytes@, at as int),
{
    #[verifier::truncate]
    (get_u64(bytes, at) as i64)
}

} // verus!
