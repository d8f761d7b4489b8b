//! Content hashing: a file's bytes streamed, chunk by chunk, through the
//! XXH3-64 hasher of the `twox_hash` crate.  The digest is a fast
//! non-cryptographic 64-bit value used to detect accidental corruption.

use vstd::prelude::*;
use std::hash::Hasher;

verus! {

/// The 64-bit XXH3 digest of a byte string: what a default-seed
/// `twox_hash::XxHash3_64` returns from `finish` after absorbing exactly
/// these bytes.  A function of the bytes alone.
pub uninterp spec fn xxh3_64_of(bytes: Seq<u8>) -> u64;

#[verifier::external_type_specification]
#[verifier::external_body]
pub struct ExXxHash3_64(twox_hash::XxHash3_64);

/// The bytes a (default-seed) hasher has absorbed so far.
pub uninterp spec fn absorbed_bytes(h: twox_hash::XxHash3_64) -> Seq<u8>;

/// Relies on twox_hash::XxHash3_64::new: a fresh hasher, built with the
/// default seed and secret, has absorbed nothing.
#[verifier::external_body]
fn xxh3_new() -> (h: twox_hash::XxHash3_64)
    ensures
        absorbed_bytes(h) == Seq::<u8>::empty(),
{
    twox_hash::XxHash3_64::new()
}

/// Relies on the std::hash::Hasher impl of twox_hash::XxHash3_64: `write`
/// absorbs exactly the given bytes, in order, after those already absorbed.
#[verifier::external_body]
fn xxh3_write(h: &mut twox_hash::XxHash3_64, data: &[u8])
    ensures
        absorbed_bytes(*final(h)) == absorbed_bytes(*old(h)) + data@,
{
    h.write(data);
}

/// Relies on the std::hash::Hasher impl of twox_hash::XxHash3_64: `finish`
/// returns the digest of the absorbed bytes and nothing else — for a
/// default-seed hasher, a function of those bytes alone (the crate's tests
/// hold the streaming hasher and `Hasher::oneshot` to the same vectors).
#[verifier::external_body]
fn xxh3_finish(h: &twox_hash::XxHash3_64) -> (r: u64)
    ensures
        r == xxh3_64_of(absorbed_bytes(*h)),
{
    h.finish()
}

/// Streams a file's bytes, in whatever chunks the reader produces, into an
/// XXH3-64 digest.  The digest depends only on the concatenation of the
/// chunks, not on how they were cut.
pub struct FileHasher {
    inner: twox_hash::XxHash3_64,
    fed: Ghost<Seq<u8>>,
}

impl FileHasher {
    /// All bytes fed so far.
    pub closed spec fn bytes(self) -> Seq<u8> {
        self.fed@
    }

    /// The hasher has absorbed exactly the bytes fed.
    pub closed spec fn wf(self) -> bool {
        absorbed_bytes(self.inner) == self.fed@
    }

    pub fn new() -> (h: FileHasher)
        ensures
            h.wf(),
            h.bytes() == Seq::<u8>::empty(),
    {
        FileHasher { inner: xxh3_new(), fed: Ghost(Seq::empty()) }
    }

    /// Absorbs the next chunk of the stream.
    pub fn update(&mut self, chunk: &[u8])
        requires
            old(self).wf(),
        ensures
            final(self).wf(),
            final(self).bytes() == old(self).bytes() + chunk@,
    {
        xxh3_write(&mut self.inner, chunk);
        proof {
            self.fed@ = self.fed@ + chunk@;
        }
    }

    /// The digest of everything fed so far.
    pub fn finalize(&self) -> (r: u64)
        requires
            self.wf(),
        ensures
            r == xxh3_64_of(self.bytes()),
    {
        xxh3_finish(&self.inner)
    }
}

/// The XXH3-64 digest of a byte string taken in one piece.
pub fn hash_bytes(data: &[u8]) -> (r: u64)
    ensures
        r == xxh3_64_of(data@),
{
    let mut h = FileHasher::new();
    h.update(data);
    proof {
        assert(h.bytes() =~= data@);
    }
    h.finalize()
}

} // verus!
