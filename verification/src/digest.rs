//! The FNV-1a digest that places content in the pool's index.

use std::hash::Hasher;
use vstd::prelude::*;

verus! {

/// The 64-bit FNV offset basis: the digest of the empty byte sequence.
pub const FNV_OFFSET_BASIS: u64 = 0xcbf29ce484222325;

/// The 64-bit FNV prime.
pub const FNV_PRIME: u64 = 0x100000001b3;

/// One FNV-1a step: `byte` is xored into the running digest `state`, and the
/// result is multiplied by the FNV prime, wrapping at 64 bits.
pub open spec fn fnv1a_step(state: u64, byte: u8) -> u64 {
    (((state ^ (byte as u64)) * FNV_PRIME) % 0x1_0000_0000_0000_0000) as u64
}

/// The FNV-1a digest of `bytes`, started from `state`: the steps for the
/// bytes, first byte first.
pub open spec fn fnv1a_from(state: u64, bytes: Seq<u8>) -> u64
    decreases bytes.len(),
{
    if bytes.len() == 0 {
        state
    } else {
        fnv1a_from(fnv1a_step(state, bytes[0]), bytes.drop_first())
    }
}

/// The 64-bit FNV-1a digest of `bytes`.
pub open spec fn fnv1a(bytes: Seq<u8>) -> u64 {
    fnv1a_from(FNV_OFFSET_BASIS, bytes)
}

/// Feeds `bytes` to a fresh `fnv::FnvHasher` (`default`, `write`, `finish`).
/// The hasher starts at the offset basis and, byte by byte, xors the byte
/// into its state and multiplies by the FNV prime, wrapping at 64 bits.
#[verifier::external_body]
pub(crate) fn fnv_digest(bytes: &[u8]) -> (digest: u64)
    ensures
        digest == fnv1a(bytes@),
{
    let mut hasher = fnv::FnvHasher::default();
    hasher.write(bytes);
    hasher.finish()
}

} // verus!
