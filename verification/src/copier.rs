//! The fan-out copy pipeline for one file: the source is read once, chunk by
//! chunk, and each chunk is written to every destination while the next chunk
//! is read into the other buffer.  This module is the pipeline's controller:
//! it owns the accounting and the ordering rules — which chunk is written
//! when, what the running byte total is, and what a finished copy guarantees —
//! while the caller performs the reads, the concurrent writes and the final
//! flush, reporting each completed step back to the controller.

use vstd::prelude::*;
use crate::hasher::xxh3_64_of;

verus! {

/// Where the pipeline stands between two completed steps.
pub enum CopyPhase {
    /// Nothing read yet: the first read of the source is outstanding.
    Start,
    /// One chunk is out for writing to every destination, concurrently with
    /// the read of the next chunk; the barrier joining them is outstanding.
    Writing,
    /// End of file seen and every chunk written; the flush of every
    /// destination is outstanding.
    Draining,
    /// The copy is complete.
    Finished,
}

/// The controller of one file's fan-out copy.
pub struct FanOutCopier {
    /// How many destinations the copy fans out to.
    pub num_dests: usize,
    /// Bytes transferred so far: the sum of all non-empty reads.
    pub total_bytes: u64,
    /// Where the pipeline stands.
    pub phase: CopyPhase,
    /// All source bytes read so far.
    pub consumed: Ghost<Seq<u8>>,
    /// The bytes already written to every destination.
    pub written: Ghost<Seq<u8>>,
    /// The chunk currently out for writing (empty unless writing).
    pub inflight: Ghost<Seq<u8>>,
}

impl FanOutCopier {
    /// The pipeline's accounting is coherent: everything read is either
    /// already written everywhere or in flight, the byte total counts the
    /// bytes read, and the in-flight chunk matches the phase.
    pub open spec fn wf(self) -> bool {
        &&& self.written@ + self.inflight@ == self.consumed@
        &&& self.total_bytes == self.consumed@.len()
        &&& (self.phase is Start ==> self.consumed@.len() == 0)
        &&& (self.phase is Writing ==> self.inflight@.len() > 0)
        &&& (self.phase is Draining ==> self.inflight@.len() == 0)
        &&& (self.phase is Finished ==> self.inflight@.len() == 0)
    }

    /// A pipeline for one file fanning out to `num_dests` destinations, ready
    /// for the first read.  The destination files are already created, so an
    /// empty source still leaves each destination existing and empty.
    pub fn new(num_dests: usize) -> (c: FanOutCopier)
        ensures
            c.wf(),
            c.phase is Start,
            c.num_dests == num_dests,
            c.total_bytes == 0,
            c.consumed@ == Seq::<u8>::empty(),
            c.written@ == Seq::<u8>::empty(),
    {
        let c = FanOutCopier {
            num_dests,
            total_bytes: 0,
            phase: CopyPhase::Start,
            consumed: Ghost(Seq::empty()),
            written: Ghost(Seq::empty()),
            inflight: Ghost(Seq::empty()),
        };
        proof {
            assert(c.written@ + c.inflight@ =~= c.consumed@);
        }
        c
    }

    /// Accounts the first chunk read from the source.  An empty chunk means
    /// the source is empty: the copy is already complete, zero bytes
    /// transferred, nothing written to the (created, empty) destinations.
    /// Otherwise the chunk is handed back to be written to every destination
    /// while the next chunk is read into the other buffer.
    pub fn on_first_read(&mut self, chunk: Vec<u8>) -> (w: Option<Vec<u8>>)
        requires
            old(self).wf(),
            old(self).phase is Start,
            chunk@.len() <= u64::MAX,
        ensures
            final(self).wf(),
            final(self).num_dests == old(self).num_dests,
            final(self).written@ == Seq::<u8>::empty(),
            chunk@.len() == 0 ==> final(self).phase is Finished && w is None
                && final(self).total_bytes == 0 && final(self).consumed@ == Seq::<u8>::empty(),
            chunk@.len() > 0 ==> final(self).phase is Writing && w == Some(chunk)
                && final(self).consumed@ == chunk@ && final(self).total_bytes == chunk@.len(),
    {
        proof {
            assert(self.written@ =~= Seq::<u8>::empty());
            assert(self.inflight@ =~= Seq::<u8>::empty());
            assert(self.consumed@ =~= Seq::<u8>::empty());
        }
        if chunk.len() == 0 {
            self.phase = CopyPhase::Finished;
            None
        } else {
            self.total_bytes = chunk.len() as u64;
            self.phase = CopyPhase::Writing;
            proof {
                self.consumed@ = chunk@;
                self.inflight@ = chunk@;
                assert(self.written@ + self.inflight@ =~= self.consumed@);
            }
            Some(chunk)
        }
    }

    /// Accounts one barrier completion: every destination finished writing
    /// the chunk handed out last, and the concurrent read of the next chunk
    /// returned `next_chunk` (empty means end of file).  The buffer the
    /// finished chunk occupied is the one the next read fills, so a chunk is
    /// never overwritten before every destination has written it.  Hands back
    /// the next chunk to write, or nothing at end of file, after which only
    /// the flush remains.
    pub fn on_barrier(&mut self, next_chunk: Vec<u8>) -> (w: Option<Vec<u8>>)
        requires
            old(self).wf(),
            old(self).phase is Writing,
            old(self).total_bytes + next_chunk@.len() <= u64::MAX,
        ensures
            final(self).wf(),
            final(self).num_dests == old(self).num_dests,
            final(self).written@ == old(self).written@ + old(self).inflight@,
            next_chunk@.len() == 0 ==> final(self).phase is Draining && w is None
                && final(self).consumed@ == old(self).consumed@
                && final(self).total_bytes == old(self).total_bytes,
            next_chunk@.len() > 0 ==> final(self).phase is Writing && w == Some(next_chunk)
                && final(self).consumed@ == old(self).consumed@ + next_chunk@
                && final(self).total_bytes == old(self).total_bytes + next_chunk@.len(),
    {
        proof {
            self.written@ = self.written@ + self.inflight@;
            self.inflight@ = Seq::empty();
        }
        if next_chunk.len() == 0 {
            self.phase = CopyPhase::Draining;
            proof {
                assert(self.written@ + self.inflight@ =~= self.consumed@);
            }
            None
        } else {
            self.total_bytes = self.total_bytes + next_chunk.len() as u64;
            proof {
                self.consumed@ = self.consumed@ + next_chunk@;
                self.inflight@ = next_chunk@;
                assert(self.written@ + self.inflight@ =~= self.consumed@);
            }
            Some(next_chunk)
        }
    }

    /// Accounts the final step: every destination flushed its buffered
    /// writes, so everything read is durably written everywhere.
    pub fn on_flushed(&mut self)
        requires
            old(self).wf(),
            old(self).phase is Draining,
        ensures
            final(self).wf(),
            final(self).phase is Finished,
            final(self).num_dests == old(self).num_dests,
            final(self).written@ == old(self).written@,
            final(self).consumed@ == old(self).consumed@,
            final(self).total_bytes == old(self).total_bytes,
    {
        self.phase = CopyPhase::Finished;
    }
}

/// Law: a finished copy wrote to every destination exactly the bytes it read
/// from the source, and `total_bytes` reported their count — in particular,
/// an empty source transferred zero bytes and wrote nothing.
pub proof fn lemma_finished_copy_faithful(c: FanOutCopier)
    requires
        c.wf(),
        c.phase is Finished,
    ensures
        c.written@ == c.consumed@,
        c.total_bytes == c.consumed@.len(),
{
    assert(c.written@ =~= c.consumed@);
}

/// Law: round-trip fidelity — after a finished copy, every destination holds
/// exactly the source bytes that were read, so its content hash equals the
/// source's content hash.
pub proof fn lemma_copy_hash_round_trip(c: FanOutCopier)
    requires
        c.wf(),
        c.phase is Finished,
    ensures
        xxh3_64_of(c.written@) == xxh3_64_of(c.consumed@),
{
    lemma_finished_copy_faithful(c);
}

} // verus!
