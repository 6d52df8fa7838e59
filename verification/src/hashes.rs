//! The three fixed 64-bit digests the filter derives indices from: fnv's
//! FNV-1a hasher, fxhash's default hasher, and std's default hasher. Each
//! digest is a function of the written bytes alone, so each gets a name that
//! the filter's contracts are stated over.

use std::collections::hash_map::DefaultHasher;
use std::hash::Hasher;
use vstd::prelude::*;
use vstd::std_specs::hash::DefaultHasherAdditionalSpecFns;

verus! {

/// The digest that fnv's 64-bit FNV-1a hasher produces for a byte sequence.
pub uninterp spec fn fnv_digest(bytes: Seq<u8>) -> u64;

/// The digest that fxhash's default hasher produces for a byte sequence.
pub uninterp spec fn fx_digest(bytes: Seq<u8>) -> u64;

/// The digest that std's default hasher produces for a single write of a
/// byte sequence, in vstd's model of that hasher.
pub open spec fn std_digest(bytes: Seq<u8>) -> u64 {
    DefaultHasher::spec_finish(seq![bytes])
}

/// Relies on `fnv::FnvHasher`: a fixed-offset FNV-1a fold over the written
/// bytes, so the digest depends on the bytes alone.
#[verifier::external_body]
pub(crate) fn fnv_hash(bytes: &[u8]) -> (r: u64)
    ensures
        r == fnv_digest(bytes@),
{
    let mut h = fnv::FnvHasher::default();
    h.write(bytes);
    h.finish()
}

/// Relies on `fxhash::FxHasher`: a fixed-seed multiply-rotate fold over the
/// written bytes, so the digest depends on the bytes alone.
#[verifier::external_body]
pub(crate) fn fx_hash(bytes: &[u8]) -> (r: u64)
    ensures
        r == fx_digest(bytes@),
{
    let mut h = fxhash::FxHasher::default();
    h.write(bytes);
    h.finish()
}

/// std's default hasher over one write of the whole byte slice, verified
/// against vstd's specification of `DefaultHasher`.
pub(crate) fn std_hash(bytes: &[u8]) -> (r: u64)
    ensures
        r == std_digest(bytes@),
{
    let mut h = DefaultHasher::new();
    h.write(bytes);
    proof {
        assert(h@ =~= seq![bytes@]);
    }
    h.finish()
}

} // verus!
