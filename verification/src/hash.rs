//! Content hashes: a fingerprint of a file's version and of the fingerprints
//! of what it was elaborated with.

use core::hash::Hasher;
use std::collections::hash_map::DefaultHasher;
use vstd::bytes::spec_u64_to_le_bytes;
use vstd::bytes::u64_to_le_bytes;
use vstd::prelude::*;
use vstd::std_specs::hash::DefaultHasherAdditionalSpecFns;

verus! {

/// The bytes that stand for a version in a content hash: a tag that tells an
/// absent version, a non-negative and a negative one apart, then the number.
pub open spec fn version_bytes(v: Option<i64>) -> Seq<u8> {
    match v {
        None => seq![0u8],
        Some(n) => if n >= 0 {
            seq![1u8] + spec_u64_to_le_bytes(n as u64)
        } else {
            seq![2u8] + spec_u64_to_le_bytes((-(n + 1)) as u64)
        },
    }
}

/// What is fed to the hasher: the version first, then each fingerprint in
/// order, one write each.
pub open spec fn hash_input(v: Option<i64>, toks: Seq<u64>) -> Seq<Seq<u8>> {
    seq![version_bytes(v)] + toks.map_values(|t: u64| spec_u64_to_le_bytes(t))
}

/// The content hash of version `v` with fingerprints `toks`.
pub open spec fn spec_content_hash(v: Option<i64>, toks: Seq<u64>) -> u64 {
    DefaultHasher::spec_finish(hash_input(v, toks))
}

/// Starts a hasher and feeds it the version.
pub fn start_hash(v: Option<i64>) -> (h: DefaultHasher)
    ensures
        h@ == seq![version_bytes(v)],
{
    let mut bytes: Vec<u8> = Vec::new();
    match v {
        None => {
            bytes.push(0u8);
        },
        Some(n) => {
            if n >= 0 {
                bytes.push(1u8);
                let mut rest = u64_to_le_bytes(n as u64);
                bytes.append(&mut rest);
            } else {
                bytes.push(2u8);
                let mut rest = u64_to_le_bytes((-(n + 1)) as u64);
                bytes.append(&mut rest);
            }
        },
    }
    let mut h = DefaultHasher::new();
    h.write(bytes.as_slice());
    assert(h@ =~= seq![version_bytes(v)]);
    h
}

/// Feeds one fingerprint to the hasher.
pub fn hash_token(h: &mut DefaultHasher, tok: u64)
    ensures
        final(h)@ == old(h)@.push(spec_u64_to_le_bytes(tok)),
{
    let bytes = u64_to_le_bytes(tok);
    h.write(bytes.as_slice());
}

/// Computes the content hash of version `v` with the fingerprints `toks`.
pub fn content_hash(v: Option<i64>, toks: &Vec<u64>) -> (hash: u64)
    ensures
        hash == spec_content_hash(v, toks@),
{
    let mut h = start_hash(v);
    let mut i: usize = 0;
    while i < toks.len()
        invariant
            i <= toks.len(),
            h@ == hash_input(v, toks@.take(i as int)),
        decreases toks.len() - i,
    {
        hash_token(&mut h, toks[i]);
        proof {
            assert(toks@.take(i + 1) =~= toks@.take(i as int).push(toks@[i as int]));
            assert(hash_input(v, toks@.take(i + 1)) =~= hash_input(v, toks@.take(i as int)).push(
                spec_u64_to_le_bytes(toks@[i as int]),
            ));
        }
        i = i + 1;
    }
    assert(toks@.take(i as int) =~= toks@);
    h.finish()
}

} // verus!
