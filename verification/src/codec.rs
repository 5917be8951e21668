//! Little-endian byte building blocks shared by the wire formats.

use vstd::bytes::{spec_u32_from_le_bytes, spec_u32_to_le_bytes, spec_u64_from_le_bytes, spec_u64_to_le_bytes};
use vstd::prelude::*;

verus! {

/// Appends `src` to the end of `out`.
pub fn append_bytes(out: &mut Vec<u8>, src: &[u8])
    ensures
        final(out)@ == old(out)@ + src@,
{
    let mut tail = vstd::slice::slice_to_vec(src);
    out.append(&mut tail);
}

/// Appends the 8-byte little-endian encoding of `x` to `out`.
pub fn append_u64_le(out: &mut Vec<u8>, x: u64)
    ensures
        final(out)@ == old(out)@ + spec_u64_to_le_bytes(x),
{
    let mut bytes = vstd::bytes::u64_to_le_bytes(x);
    out.append(&mut bytes);
}

/// The little-endian `u64` stored at `frame[at..at + 8]`.
pub open spec fn u64_at(frame: Seq<u8>, at: int) -> u64 {
    spec_u64_from_le_bytes(frame.subrange(at, at + 8))
}

/// Decodes the 8 little-endian bytes at `frame[at..at + 8]`.
pub fn u64_le_at(frame: &[u8], at: usize) -> (x: u64)
    requires
        at + 8 <= frame@.len(),
    ensures
        x == u64_at(frame@, at as int),
{
    let _n = frame.len();
    let bytes = vstd::slice::slice_subrange(frame, at, at + 8);
    vstd::bytes::u64_from_le_bytes(bytes)
}

/// Reading back the encoding of `x` from inside a longer sequence gives `x`.
pub proof fn lemma_u64_at_encoding(prefix: Seq<u8>, x: u64, suffix: Seq<u8>)
    ensures
        u64_at(prefix + spec_u64_to_le_bytes(x) + suffix, prefix.len() as int) == x,
        spec_u64_to_le_bytes(x).len() == 8,
{
    vstd::bytes::lemma_auto_spec_u64_to_from_le_bytes();
    let s = prefix + spec_u64_to_le_bytes(x) + suffix;
    assert(s.subrange(prefix.len() as int, prefix.len() as int + 8) =~= spec_u64_to_le_bytes(x));
}

/// Appends the 4-byte little-endian encoding of `x` to `out`.
pub fn append_u32_le(out: &mut Vec<u8>, x: u32)
    ensures
        final(out)@ == old(out)@ + spec_u32_to_le_bytes(x),
{
    let mut bytes = vstd::bytes::u32_to_le_bytes(x);
    out.append(&mut bytes);
}

/// The little-endian `u32` stored at `frame[at..at + 4]`.
pub open spec fn u32_at(frame: Seq<u8>, at: int) -> u32 {
    spec_u32_from_le_bytes(frame.subrange(at, at + 4))
}

/// Decodes the 4 little-endian bytes at `frame[at..at + 4]`.
pub fn u32_le_at(frame: &[u8], at: usize) -> (x: u32)
    requires
        at + 4 <= frame@.len(),
    ensures
        x == u32_at(frame@, at as int),
{
    let _n = frame.len();
    let bytes = vstd::slice::slice_subrange(frame, at, at + 4);
    vstd::bytes::u32_from_le_bytes(bytes)
}

/// Reading back the encoding of a `u32` from inside a longer sequence gives
/// it back.
pub proof fn lemma_u32_at_encoding(prefix: Seq<u8>, x: u32, suffix: Seq<u8>)
    ensures
        u32_at(prefix + spec_u32_to_le_bytes(x) + suffix, prefix.len() as int) == x,
        spec_u32_to_le_bytes(x).len() == 4,
{
    vstd::bytes::lemma_auto_spec_u32_to_from_le_bytes();
    let s = prefix + spec_u32_to_le_bytes(x) + suffix;
    assert(s.subrange(prefix.len() as int, prefix.len() as int + 4) =~= spec_u32_to_le_bytes(x));
}

} // verus!
