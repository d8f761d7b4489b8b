//! The consistency report built by the verification phase: one record per
//! file, each holding the source hash and every destination's hash, plus the
//! flat tabular serialization handed to the report sink.

use vstd::prelude::*;

verus! {

/// The hashes gathered for one file: the source replica and, in the order the
/// destination roots were supplied, every destination replica.  Each replica
/// is its path together with the 64-bit content hash of its bytes.
pub struct ChecksumReportSingleFile {
    pub source: (String, u64),
    pub destinations: Vec<(String, u64)>,
}

/// The whole report: one record per file, in enumeration order.
pub struct ChecksumReport(pub Vec<ChecksumReportSingleFile>);

impl ChecksumReportSingleFile {
    /// A record is consistent iff every destination hash equals the source hash.
    pub open spec fn spec_consistent(self) -> bool {
        forall|i: int|
            0 <= i < self.destinations@.len() ==> (#[trigger] self.destinations@[i]).1
                == self.source.1
    }

    pub fn consistent(&self) -> (r: bool)
        ensures
            r == self.spec_consistent(),
    {
        let mut i: usize = 0;
        while i < self.destinations.len()
            invariant
                i <= self.destinations@.len(),
                forall|j: int|
                    0 <= j < i ==> (#[trigger] self.destinations@[j]).1 == self.source.1,
            decreases self.destinations@.len() - i,
        {
            if self.destinations[i].1 != self.source.1 {
                return false;
            }
            i = i + 1;
        }
        true
    }
}

/// How many of `records` are inconsistent.
pub open spec fn spec_count_errors(records: Seq<ChecksumReportSingleFile>) -> nat
    decreases records.len(),
{
    if records.len() == 0 {
        0
    } else {
        spec_count_errors(records.drop_last()) + if records.last().spec_consistent() {
            0nat
        } else {
            1nat
        }
    }
}

impl ChecksumReport {
    pub fn total_files(&self) -> (n: usize)
        ensures
            n == self.0@.len(),
    {
        self.0.len()
    }

    /// The number of records where at least one destination hash differs from
    /// the source hash.
    pub fn count_errors(&self) -> (n: usize)
        ensures
            n == spec_count_errors(self.0@),
    {
        let mut n: usize = 0;
        let mut i: usize = 0;
        while i < self.0.len()
            invariant
                i <= self.0@.len(),
                n <= i,
                n == spec_count_errors(self.0@.take(i as int)),
            decreases self.0@.len() - i,
        {
            proof {
                assert(self.0@.take(i + 1).drop_last() =~= self.0@.take(i as int));
                assert(self.0@.take(i + 1).last() == self.0@[i as int]);
            }
            if !self.0[i].consistent() {
                n = n + 1;
            }
            i = i + 1;
        }
        proof {
            assert(self.0@.take(self.0@.len() as int) =~= self.0@);
        }
        n
    }
}

/// Law: a report whose records are all consistent — every destination hash
/// equal to its source hash, as after an untampered copy — counts zero errors.
pub proof fn lemma_count_errors_zero(records: Seq<ChecksumReportSingleFile>)
    requires
        forall|i: int| 0 <= i < records.len() ==> (#[trigger] records[i]).spec_consistent(),
    ensures
        spec_count_errors(records) == 0,
    decreases records.len(),
{
    if records.len() > 0 {
        lemma_count_errors_zero(records.drop_last());
    }
}

/// Law: if some record is inconsistent — some destination hash differs from
/// its source hash, as after a destination byte was altered — the error count
/// is at least one.
pub proof fn lemma_count_errors_positive(records: Seq<ChecksumReportSingleFile>, i: int)
    requires
        0 <= i < records.len(),
        !records[i].spec_consistent(),
    ensures
        spec_count_errors(records) >= 1,
    decreases records.len(),
{
    if i < records.len() - 1 {
        lemma_count_errors_positive(records.drop_last(), i);
    }
}

} // verus!
