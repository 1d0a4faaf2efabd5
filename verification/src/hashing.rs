//! Feeding plain values to a `DefaultHasher`, one write per value, in little-endian bytes.
//!
//! `derive(Hash)` writes native-endian bytes, and a length or index as a `usize`; the writes
//! here are little-endian, with lengths and indices as 8-byte `u64`. The digests therefore
//! agree with those of `derive(Hash)` only on 64-bit little-endian targets; std leaves the
//! digest itself unspecified in any case.

use std::collections::hash_map::DefaultHasher;
use std::hash::Hasher;
use vstd::bytes::{
    lemma_auto_spec_u32_to_from_le_bytes, lemma_auto_spec_u64_to_from_le_bytes,
    spec_u32_to_le_bytes, spec_u64_to_le_bytes, u32_to_le_bytes, u64_to_le_bytes,
};
use vstd::prelude::*;

verus! {

/// The write that feeds a `u32`.
pub open spec fn u32_write(x: u32) -> Seq<u8> {
    spec_u32_to_le_bytes(x)
}

/// The write that feeds a `u64`.
pub open spec fn u64_write(x: u64) -> Seq<u8> {
    spec_u64_to_le_bytes(x)
}

/// The write that feeds a `u8`.
pub open spec fn u8_write(x: u8) -> Seq<u8> {
    seq![x]
}

/// The write that feeds a `bool`: one byte, 1 or 0.
pub open spec fn bool_write(b: bool) -> Seq<u8> {
    seq![if b { 1u8 } else { 0u8 }]
}

/// Different values make different writes, so a write gives its value back.
pub proof fn lemma_writes_injective()
    ensures
        forall|x: u32, y: u32| #[trigger] u32_write(x) == #[trigger] u32_write(y) ==> x == y,
        forall|x: u64, y: u64| #[trigger] u64_write(x) == #[trigger] u64_write(y) ==> x == y,
        forall|x: u8, y: u8| #[trigger] u8_write(x) == #[trigger] u8_write(y) ==> x == y,
        forall|x: bool, y: bool| #[trigger] bool_write(x) == #[trigger] bool_write(y) ==> x == y,
{
    lemma_auto_spec_u32_to_from_le_bytes();
    lemma_auto_spec_u64_to_from_le_bytes();
    assert forall|x: u32, y: u32| #[trigger] u32_write(x) == #[trigger] u32_write(y) implies x
        == y by {
        assert(spec_u32_to_le_bytes(x).len() > 0 && spec_u32_to_le_bytes(y).len() > 0);
        assert(vstd::bytes::spec_u32_from_le_bytes(spec_u32_to_le_bytes(x)) == x);
        assert(vstd::bytes::spec_u32_from_le_bytes(spec_u32_to_le_bytes(y)) == y);
    }
    assert forall|x: u64, y: u64| #[trigger] u64_write(x) == #[trigger] u64_write(y) implies x
        == y by {
        assert(spec_u64_to_le_bytes(x).len() > 0 && spec_u64_to_le_bytes(y).len() > 0);
        assert(vstd::bytes::spec_u64_from_le_bytes(spec_u64_to_le_bytes(x)) == x);
        assert(vstd::bytes::spec_u64_from_le_bytes(spec_u64_to_le_bytes(y)) == y);
    }
    assert forall|x: u8, y: u8| #[trigger] u8_write(x) == #[trigger] u8_write(y) implies x == y by {
        assert(u8_write(x)[0] == x);
        assert(u8_write(y)[0] == y);
    }
    assert forall|x: bool, y: bool| #[trigger] bool_write(x) == #[trigger] bool_write(y) implies x
        == y by {
        assert(bool_write(x)[0] == if x { 1u8 } else { 0u8 });
        assert(bool_write(y)[0] == if y { 1u8 } else { 0u8 });
    }
}

pub fn write_u32(hasher: &mut DefaultHasher, x: u32)
    ensures
        final(hasher)@ == old(hasher)@.push(u32_write(x)),
{
    let bytes = u32_to_le_bytes(x);
    hasher.write(bytes.as_slice());
}

pub fn write_u64(hasher: &mut DefaultHasher, x: u64)
    ensures
        final(hasher)@ == old(hasher)@.push(u64_write(x)),
{
    let bytes = u64_to_le_bytes(x);
    hasher.write(bytes.as_slice());
}

pub fn write_u8(hasher: &mut DefaultHasher, x: u8)
    ensures
        final(hasher)@ == old(hasher)@.push(u8_write(x)),
{
    let bytes: Vec<u8> = vec![x];
    assert(bytes@ =~= seq![x]);
    hasher.write(bytes.as_slice());
}

pub fn write_bool(hasher: &mut DefaultHasher, b: bool)
    ensures
        final(hasher)@ == old(hasher)@.push(bool_write(b)),
{
    let byte: u8 = if b {
        1
    } else {
        0
    };
    write_u8(hasher, byte);
}

} // verus!
