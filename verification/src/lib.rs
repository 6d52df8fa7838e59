//! A bloom filter: a fixed-size bit array together with a three-way hash
//! index derivation. `insert` sets the three bits a value hashes to;
//! `contains` answers `No` (definitely never inserted) or `Maybe` (possibly
//! inserted, false positives allowed). There are no false negatives.

mod bits;
mod hashes;

use vstd::prelude::*;

use crate::bits::{bit_vec_model, bv_from_elem, bv_get, bv_len, bv_set};
use crate::hashes::{fnv_digest, fnv_hash, fx_digest, fx_hash, std_digest, std_hash};

verus! {

/// A probabilistic membership set over byte-sequence values.
pub struct BloomFilter {
    bits: bit_vec::BitVec,
}

/// Construction options: `bits` is the total bit-array length.
pub struct BloomFilterArgs {
    pub bits: usize,
}

impl Default for BloomFilterArgs {
    fn default() -> (r: Self)
        ensures
            r.bits == 1024,
    {
        Self { bits: 1024 }
    }
}

/// What a membership query can answer. A bloom filter can prove absence but
/// never presence, so the positive answer is `Maybe`, not a boolean `true`.
#[derive(Debug, PartialEq, Eq, Structural)]
pub enum BloomFilterContainsResponse {
    No,
    Maybe,
}

/// The three positions in a bit array of length `m` that a value with byte
/// view `bytes` hashes to: each digest reduced modulo `m`, in a fixed order.
pub open spec fn index_triple(bytes: Seq<u8>, m: nat) -> Seq<int>
    recommends
        m > 0,
{
    seq![
        fnv_digest(bytes) as int % m as int,
        fx_digest(bytes) as int % m as int,
        std_digest(bytes) as int % m as int,
    ]
}

/// The bit array after inserting a value: every position the value hashes to
/// is set, every other bit is unchanged, and the length is unchanged.
pub open spec fn spec_insert(bits: Seq<bool>, bytes: Seq<u8>) -> Seq<bool>
    recommends
        bits.len() > 0,
{
    Seq::new(bits.len(), |i: int| bits[i] || index_triple(bytes, bits.len()).contains(i))
}

/// Whether every position a value hashes to is set in the bit array.
pub open spec fn all_marked(bits: Seq<bool>, bytes: Seq<u8>) -> bool
    recommends
        bits.len() > 0,
{
    forall|k: int| 0 <= k < 3 ==> bits[#[trigger] index_triple(bytes, bits.len())[k]]
}

/// What a membership query answers on a given bit array: `Maybe` exactly when
/// all three hashed positions are set, `No` otherwise.
pub open spec fn spec_contains(bits: Seq<bool>, bytes: Seq<u8>) -> BloomFilterContainsResponse {
    if all_marked(bits, bytes) {
        BloomFilterContainsResponse::Maybe
    } else {
        BloomFilterContainsResponse::No
    }
}

/// Every position in an index triple for a non-empty bit array lies within
/// the array.
pub proof fn lemma_index_triple_in_range(bytes: Seq<u8>, m: nat)
    requires
        m > 0,
    ensures
        forall|k: int| 0 <= k < 3 ==> 0 <= #[trigger] index_triple(bytes, m)[k] < m,
{
}

impl View for BloomFilter {
    type V = Seq<bool>;

    closed spec fn view(&self) -> Seq<bool> {
        bit_vec_model(self.bits)
    }
}

impl BloomFilter {
    /// A filter is usable once its bit array is non-empty; every index
    /// derivation reduces modulo the array length.
    pub open spec fn wf(&self) -> bool {
        self@.len() > 0
    }

    /// Creates a new BloomFilter with the default arguments.
    pub fn new() -> (r: Self)
        ensures
            r.wf(),
            r@ == Seq::new(1024, |i: int| false),
    {
        BloomFilter::with(BloomFilterArgs::default())
    }

    /// Creates a new BloomFilter with the given arguments. A zero-length bit
    /// array would make every modulo reduction undefined, so a positive
    /// capacity is a precondition.
    pub fn with(args: BloomFilterArgs) -> (r: Self)
        requires
            args.bits > 0,
        ensures
            r.wf(),
            r@ == Seq::new(args.bits as nat, |i: int| false),
    {
        Self { bits: bv_from_elem(args.bits, false) }
    }

    /// Calculates the three hash values for the given value, each reduced
    /// modulo the size of the bit array. Pure and deterministic: the result
    /// is a function of the value's bytes and the filter's capacity alone.
    pub fn calculate_hash_indices(&self, value: &[u8]) -> (r: Vec<usize>)
        requires
            self.wf(),
        ensures
            r@.len() == 3,
            forall|k: int| 0 <= k < 3 ==> r@[k] == index_triple(value@, self@.len())[k],
    {
        let m = bv_len(&self.bits);
        let m64 = m as u64;
        let i0 = (fnv_hash(value) % m64) as usize;
        let i1 = (fx_hash(value) % m64) as usize;
        let i2 = (std_hash(value) % m64) as usize;
        let mut r: Vec<usize> = Vec::new();
        r.push(i0);
        r.push(i1);
        r.push(i2);
        r
    }

    /// Inserts a new value into the BloomFilter: sets the three bits the
    /// value hashes to and leaves every other bit as it was.
    pub fn insert(&mut self, value: &[u8])
        requires
            old(self).wf(),
        ensures
            final(self).wf(),
            final(self)@ == spec_insert(old(self)@, value@),
    {
        let ghost m = self@.len();
        let ghost t = index_triple(value@, m);
        let idx = self.calculate_hash_indices(value);
        proof {
            lemma_index_triple_in_range(value@, m);
        }
        bv_set(&mut self.bits, idx[0], true);
        bv_set(&mut self.bits, idx[1], true);
        bv_set(&mut self.bits, idx[2], true);
        proof {
            let after = old(self)@.update(t[0], true).update(t[1], true).update(t[2], true);
            assert forall|i: int| 0 <= i < m implies after[i] == (old(self)@[i] || t.contains(i))
                by {
                if i == t[0] || i == t[1] || i == t[2] {
                    assert(t.contains(i)) by {
                        if i == t[0] {
                            assert(t[0] == i);
                        } else if i == t[1] {
                            assert(t[1] == i);
                        } else {
                            assert(t[2] == i);
                        }
                    }
                } else {
                    assert(!t.contains(i)) by {
                        assert(forall|j: int| 0 <= j < 3 ==> t[j] != i);
                    }
                }
            }
            assert(self@ =~= spec_insert(old(self)@, value@));
        }
    }

    /// Reads the bit at `i`, treating an out-of-bounds read as unset.
    fn bit_is_set(&self, i: usize) -> (r: bool)
        requires
            i < self@.len(),
        ensures
            r == self@[i as int],
    {
        match bv_get(&self.bits, i) {
            Some(b) => b,
            None => false,
        }
    }

    /// Checks if the BloomFilter contains the given value.
    /// Note that this function returns `No` or `Maybe` instead of a boolean,
    /// because false positives are possible in a bloom filter: `No` is
    /// certain, `Maybe` is not.
    pub fn contains(&self, value: &[u8]) -> (r: BloomFilterContainsResponse)
        requires
            self.wf(),
        ensures
            r == spec_contains(self@, value@),
    {
        let ghost t = index_triple(value@, self@.len());
        let idx = self.calculate_hash_indices(value);
        proof {
            lemma_index_triple_in_range(value@, self@.len());
        }
        if !self.bit_is_set(idx[0]) {
            return BloomFilterContainsResponse::No;
        }
        if !self.bit_is_set(idx[1]) {
            return BloomFilterContainsResponse::No;
        }
        if !self.bit_is_set(idx[2]) {
            return BloomFilterContainsResponse::No;
        }
        proof {
            assert forall|k: int| 0 <= k < 3 implies self@[#[trigger] t[k]] by {
                assert(k == 0 || k == 1 || k == 2);
            }
        }
        BloomFilterContainsResponse::Maybe
    }
}

/// Bits are monotone: an insert keeps the array length and never clears a
/// bit that was set.
pub proof fn lemma_insert_preserves_bits(bits: Seq<bool>, w: Seq<u8>)
    requires
        bits.len() > 0,
    ensures
        spec_insert(bits, w).len() == bits.len(),
        forall|i: int| 0 <= i < bits.len() && bits[i] ==> #[trigger] spec_insert(bits, w)[i],
{
}

/// Inserting a value marks exactly the positions a query for the same value
/// checks, so a query right after the insert answers `Maybe`.
pub proof fn lemma_insert_then_contains(bits: Seq<bool>, v: Seq<u8>)
    requires
        bits.len() > 0,
    ensures
        spec_contains(spec_insert(bits, v), v) == BloomFilterContainsResponse::Maybe,
{
    let after = spec_insert(bits, v);
    let t = index_triple(v, bits.len());
    lemma_index_triple_in_range(v, bits.len());
    assert forall|k: int| 0 <= k < 3 implies after[#[trigger] index_triple(v, after.len())[k]]
        by {
        assert(t.contains(t[k]));
        assert(after[t[k]]);
    }
}

/// Monotonicity: once a query answers `Maybe`, it still answers `Maybe`
/// after any further insert, since bits are never cleared.
pub proof fn lemma_contains_monotone(bits: Seq<bool>, v: Seq<u8>, w: Seq<u8>)
    requires
        bits.len() > 0,
        spec_contains(bits, v) == BloomFilterContainsResponse::Maybe,
    ensures
        spec_contains(spec_insert(bits, w), v) == BloomFilterContainsResponse::Maybe,
{
    let after = spec_insert(bits, w);
    lemma_index_triple_in_range(v, bits.len());
    assert forall|k: int| 0 <= k < 3 implies after[#[trigger] index_triple(v, after.len())[k]]
        by {
        assert(bits[index_triple(v, bits.len())[k]]);
    }
}

/// The bit array after inserting a whole sequence of values, first to last.
pub open spec fn spec_insert_all(bits: Seq<bool>, values: Seq<Seq<u8>>) -> Seq<bool>
    recommends
        bits.len() > 0,
    decreases values.len(),
{
    if values.len() == 0 {
        bits
    } else {
        spec_insert_all(spec_insert(bits, values[0]), values.skip(1))
    }
}

/// Monotonicity extended over any sequence of further inserts.
pub proof fn lemma_contains_monotone_all(bits: Seq<bool>, v: Seq<u8>, values: Seq<Seq<u8>>)
    requires
        bits.len() > 0,
        spec_contains(bits, v) == BloomFilterContainsResponse::Maybe,
    ensures
        spec_insert_all(bits, values).len() == bits.len(),
        spec_contains(spec_insert_all(bits, values), v) == BloomFilterContainsResponse::Maybe,
    decreases values.len(),
{
    if values.len() > 0 {
        lemma_contains_monotone(bits, v, values[0]);
        lemma_contains_monotone_all(spec_insert(bits, values[0]), v, values.skip(1));
    }
}

/// No false negatives: after inserting a sequence of values into a usable
/// filter, a query for any one of them answers `Maybe`, however many other
/// values were inserted before or after it and in whatever order.
pub proof fn lemma_no_false_negatives(bits: Seq<bool>, values: Seq<Seq<u8>>, j: int)
    requires
        bits.len() > 0,
        0 <= j < values.len(),
    ensures
        spec_contains(spec_insert_all(bits, values), values[j]) == BloomFilterContainsResponse::Maybe,
    decreases values.len(),
{
    let after = spec_insert(bits, values[0]);
    if j == 0 {
        lemma_insert_then_contains(bits, values[0]);
        lemma_contains_monotone_all(after, values[0], values.skip(1));
    } else {
        lemma_no_false_negatives(after, values.skip(1), j - 1);
        assert(values.skip(1)[j - 1] == values[j]);
    }
}

/// A fresh filter answers `No` for every value: with every bit unset, some
/// checked position is always unset.
pub proof fn lemma_empty_absent(m: nat, v: Seq<u8>)
    requires
        m > 0,
    ensures
        spec_contains(Seq::new(m, |i: int| false), v) == BloomFilterContainsResponse::No,
{
    let bits = Seq::new(m, |i: int| false);
    lemma_index_triple_in_range(v, m);
    assert(!bits[index_triple(v, bits.len())[0]]);
}

/// Idempotence: inserting the same value twice leaves the bit array exactly
/// as one insertion leaves it.
pub proof fn lemma_insert_idempotent(bits: Seq<bool>, v: Seq<u8>)
    requires
        bits.len() > 0,
    ensures
        spec_insert(spec_insert(bits, v), v) == spec_insert(bits, v),
{
    let once = spec_insert(bits, v);
    assert(spec_insert(once, v) =~= once);
}

/// The degenerate one-bit filter: after inserting any single value, every
/// index triple collapses to position zero, so a query for any value at all
/// answers `Maybe`.
pub proof fn lemma_single_bit_filter(bits: Seq<bool>, v: Seq<u8>, w: Seq<u8>)
    requires
        bits.len() == 1,
    ensures
        spec_contains(spec_insert(bits, v), w) == BloomFilterContainsResponse::Maybe,
{
    let after = spec_insert(bits, v);
    let t = index_triple(v, bits.len());
    lemma_index_triple_in_range(v, 1);
    lemma_index_triple_in_range(w, 1);
    assert(t.contains(0)) by {
        assert(t[0] == 0);
    }
    assert(after[0]);
    assert forall|k: int| 0 <= k < 3 implies after[#[trigger] index_triple(w, after.len())[k]]
        by {
        assert(index_triple(w, after.len())[k] == 0);
    }
}

} // verus!
