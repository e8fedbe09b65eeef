//! Content digests.
//!
//! Every file and chunk in a manifest carries a digest of its bytes; the
//! verifier recomputes digests from what is actually on disk and compares.
//! The algorithm is a fixed configuration constant shared by the manifest
//! producer and this consumer: a 64-bit multiply-and-xor fold over the bytes.
//! Digests are computed incrementally, block by block, so that a file of any
//! size can be checked with bounded memory.

use vstd::prelude::*;

verus! {

/// Initial accumulator of the digest fold.
pub const DIGEST_SEED: u64 = 0xcbf29ce484222325;

/// Multiplier of the digest fold.
pub const DIGEST_PRIME: u64 = 0x100000001b3;

/// One step of the digest fold: absorb one byte into the accumulator.
pub open spec fn digest_step(acc: u64, byte: u8) -> u64 {
    vstd::wrapping::u64_specs::wrapping_mul(acc ^ (byte as u64), DIGEST_PRIME)
}

/// Digest fold over `data`, starting from accumulator `acc`,
/// absorbing bytes left to right.
pub open spec fn digest_from(acc: u64, data: Seq<u8>) -> u64
    decreases data.len(),
{
    if data.len() == 0 {
        acc
    } else {
        digest_from(digest_step(acc, data[0]), data.drop_first())
    }
}

/// The digest of a byte sequence.
pub open spec fn digest_of(data: Seq<u8>) -> u64 {
    digest_from(DIGEST_SEED, data)
}

/// Absorbing a concatenation is absorbing both parts in order: the fact that
/// lets a digest be computed block by block.
pub proof fn lemma_digest_from_concat(acc: u64, a: Seq<u8>, b: Seq<u8>)
    ensures
        digest_from(acc, a + b) == digest_from(digest_from(acc, a), b),
    decreases a.len(),
{
    if a.len() == 0 {
        assert(a + b =~= b);
    } else {
        assert((a + b).drop_first() =~= a.drop_first() + b);
        lemma_digest_from_concat(digest_step(acc, a[0]), a.drop_first(), b);
    }
}

/// Incremental digest state: the accumulator after absorbing `absorbed`.
pub struct Hasher {
    state: u64,
    absorbed: Ghost<Seq<u8>>,
}

impl Hasher {
    /// The bytes this hasher has absorbed so far.
    pub closed spec fn absorbed(self) -> Seq<u8> {
        self.absorbed@
    }

    /// The accumulator always equals the digest fold of the absorbed bytes.
    pub closed spec fn wf(self) -> bool {
        self.state == digest_from(DIGEST_SEED, self.absorbed@)
    }

    /// A fresh hasher that has absorbed nothing.
    pub fn new() -> (h: Hasher)
        ensures
            h.wf(),
            h.absorbed() == Seq::<u8>::empty(),
    {
        Hasher { state: DIGEST_SEED, absorbed: Ghost(Seq::empty()) }
    }

    /// Absorb one block of bytes.
    pub fn update(&mut self, block: &[u8])
        requires
            old(self).wf(),
        ensures
            final(self).wf(),
            final(self).absorbed() == old(self).absorbed() + block@,
    {
        let ghost pre = self.absorbed@;
        let mut acc = self.state;
        let mut i: usize = 0;
        assert(block@.skip(0) =~= block@);
        while i < block.len()
            invariant
                i <= block.len(),
                digest_from(acc, block@.skip(i as int)) == digest_from(self.state, block@),
            decreases block.len() - i,
        {
            let ghost rest = block@.skip(i as int);
            assert(rest[0] == block@[i as int]);
            assert(rest.drop_first() =~= block@.skip(i as int + 1));
            acc = (acc ^ (block[i] as u64)).wrapping_mul(DIGEST_PRIME);
            i += 1;
        }
        assert(block@.skip(block.len() as int) =~= Seq::<u8>::empty());
        proof {
            lemma_digest_from_concat(DIGEST_SEED, pre, block@);
        }
        self.state = acc;
        self.absorbed = Ghost(pre + block@);
    }

    /// The digest of everything absorbed so far.
    pub fn finish(&self) -> (d: u64)
        requires
            self.wf(),
        ensures
            d == digest_of(self.absorbed()),
    {
        self.state
    }
}

/// Outcome of comparing a computed digest against an expected one.
/// A mismatch is a reportable result, not an error, and carries the
/// digest actually computed.
pub enum DigestCheck {
    Match,
    Mismatch { actual: u64 },
}

/// Digest a whole byte slice in one pass.
pub fn digest_bytes(data: &[u8]) -> (d: u64)
    ensures
        d == digest_of(data@),
{
    let mut h = Hasher::new();
    h.update(data);
    assert(h.absorbed() =~= data@);
    h.finish()
}

/// Compare the digest of `data` against `expected`: `Match` exactly when
/// they agree, otherwise `Mismatch` carrying the computed digest.
pub fn check_bytes(data: &[u8], expected: u64) -> (r: DigestCheck)
    ensures
        r is Match <==> digest_of(data@) == expected,
        r matches DigestCheck::Mismatch { actual } ==> actual == digest_of(data@),
{
    let d = digest_bytes(data);
    if d == expected {
        DigestCheck::Match
    } else {
        DigestCheck::Mismatch { actual: d }
    }
}

} // verus!
