//! The two phase orchestrators' bookkeeping.  A copy run walks the flattened
//! file list once, fans each file out to every destination, and accounts
//! progress and bytes moved; a verification run walks the same list, hashes
//! the source and every destination replica of each file, and assembles the
//! consistency report.  The caller performs the file I/O between steps and
//! publishes each returned progress snapshot to its observers.

use vstd::prelude::*;
use crate::progress::{progress_step, Progress};
use crate::report::{ChecksumReport, ChecksumReportSingleFile};

verus! {

/// The path of the file with components `comps` under the tree root `root`:
/// the root, then each component in order, joined with '/'.
pub open spec fn spec_join_path(root: Seq<char>, comps: Seq<Seq<char>>) -> Seq<char>
    decreases comps.len(),
{
    if comps.len() == 0 {
        root
    } else {
        spec_join_path(root, comps.drop_last()) + seq!['/'] + comps.last()
    }
}

/// Renders the path of the file with components `rel` under the root `root`.
pub fn join_path(root: &str, rel: &Vec<String>) -> (r: String)
    ensures
        r@ == spec_join_path(root@, rel.deep_view()),
{
    proof {
        reveal_strlit("/");
    }
    let mut r = String::from_str(root);
    let mut i: usize = 0;
    while i < rel.len()
        invariant
            i <= rel@.len(),
            "/"@ =~= seq!['/'],
            r@ == spec_join_path(root@, rel.deep_view().take(i as int)),
        decreases rel@.len() - i,
    {
        r.append("/");
        r.append(rel[i].as_str());
        proof {
            let comps = rel.deep_view();
            assert(comps.take(i + 1).drop_last() =~= comps.take(i as int));
            assert(comps.take(i + 1).last() == comps[i as int]);
            assert(comps[i as int] == rel@[i as int]@);
        }
        i = i + 1;
    }
    proof {
        assert(rel.deep_view().take(rel@.len() as int) =~= rel.deep_view());
    }
    r
}

/// The file's path under each destination root, in the order the roots were
/// supplied — the destinations one file fans out to.
pub fn dest_join_paths(roots: &Vec<String>, rel: &Vec<String>) -> (r: Vec<String>)
    ensures
        r@.len() == roots@.len(),
        forall|i: int|
            0 <= i < roots@.len() ==> (#[trigger] r@[i])@ == spec_join_path(
                roots@[i]@,
                rel.deep_view(),
            ),
{
    let mut r: Vec<String> = Vec::new();
    let mut i: usize = 0;
    while i < roots.len()
        invariant
            i <= roots@.len(),
            r@.len() == i,
            forall|j: int|
                0 <= j < i ==> (#[trigger] r@[j])@ == spec_join_path(
                    roots@[j]@,
                    rel.deep_view(),
                ),
        decreases roots@.len() - i,
    {
        let ghost prev = r@;
        r.push(join_path(roots[i].as_str(), rel));
        proof {
            assert(forall|m: int| 0 <= m < prev.len() ==> #[trigger] r@[m] == prev[m]);
        }
        i = i + 1;
    }
    r
}

/// Turns a list of per-task results into one result: all the values in order,
/// or the first error.
pub fn collect_results<T, E>(vec: Vec<Result<T, E>>) -> (r: Result<Vec<T>, E>)
    ensures
        r is Ok <==> (forall|i: int| 0 <= i < vec@.len() ==> (#[trigger] vec@[i]) is Ok),
        r is Ok ==> r->Ok_0@.len() == vec@.len() && (forall|i: int|
            0 <= i < vec@.len() ==> (#[trigger] r->Ok_0@[i]) == vec@[i]->Ok_0),
        r is Err ==> (exists|i: int|
            0 <= i < vec@.len() && (#[trigger] vec@[i]) is Err && r->Err_0 == vec@[i]->Err_0 && (
            forall|j: int| 0 <= j < i ==> (#[trigger] vec@[j]) is Ok)),
{
    let ghost orig = vec@;
    let mut rest = vec;
    let mut out: Vec<T> = Vec::new();
    while rest.len() > 0
        invariant
            orig == vec@,
            out@.len() + rest@.len() == orig.len(),
            rest@ == orig.subrange(out@.len() as int, orig.len() as int),
            forall|j: int|
                0 <= j < out@.len() ==> (#[trigger] orig[j]) is Ok && out@[j] == orig[j]->Ok_0,
        decreases rest@.len(),
    {
        let ghost k = out@.len() as int;
        let x = rest.remove(0);
        proof {
            assert(x == orig[k]);
            assert(rest@ =~= orig.subrange(k + 1, orig.len() as int));
        }
        match x {
            Ok(v) => {
                out.push(v);
            },
            Err(e) => {
                proof {
                    assert(orig[k] is Err);
                }
                return Err(e);
            },
        }
    }
    proof {
        assert(out@.len() == orig.len());
    }
    Ok(out)
}

/// The bookkeeping of one directory-copy run: how many files are done, of how
/// many, and how many bytes have moved.
pub struct CopyRun {
    pub progress: Progress,
    pub total_bytes: u64,
}

impl CopyRun {
    pub open spec fn wf(self) -> bool {
        self.progress.wf()
    }

    /// A run over `total_files` files, none copied yet.
    pub fn new(total_files: usize) -> (c: CopyRun)
        ensures
            c.wf(),
            c.progress.total == total_files,
            c.progress.completed == 0,
            c.total_bytes == 0,
    {
        CopyRun { progress: Progress::new(total_files), total_bytes: 0 }
    }

    /// Accounts one file fully copied with `bytes` transferred.  The returned
    /// snapshot — one legal step past the previous one — is what the run
    /// publishes to its observers.
    pub fn record_file(&mut self, bytes: u64) -> (p: Progress)
        requires
            old(self).wf(),
            old(self).progress.completed < old(self).progress.total,
            old(self).total_bytes + bytes <= u64::MAX,
        ensures
            final(self).wf(),
            final(self).progress.total == old(self).progress.total,
            final(self).progress.completed == old(self).progress.completed + 1,
            final(self).total_bytes == old(self).total_bytes + bytes,
            p == final(self).progress,
            progress_step(old(self).progress, final(self).progress),
    {
        self.total_bytes = self.total_bytes + bytes;
        self.progress.mut_increment();
        self.progress
    }
}

/// The bookkeeping of one verification run: the records assembled so far, one
/// per finished file, and the progress over the file list.
pub struct VerifyRun {
    pub progress: Progress,
    pub records: Vec<ChecksumReportSingleFile>,
}

impl VerifyRun {
    pub open spec fn wf(self) -> bool {
        self.progress.wf() && self.records@.len() == self.progress.completed
    }

    /// A run over `total_files` files, none verified yet.
    pub fn new(total_files: usize) -> (v: VerifyRun)
        ensures
            v.wf(),
            v.progress.total == total_files,
            v.progress.completed == 0,
            v.records@.len() == 0,
    {
        VerifyRun { progress: Progress::new(total_files), records: Vec::new() }
    }

    /// Appends the finished record of the next file in enumeration order.
    /// The returned snapshot is what the run publishes to its observers.
    pub fn append_record(&mut self, rec: ChecksumReportSingleFile) -> (p: Progress)
        requires
            old(self).wf(),
            old(self).progress.completed < old(self).progress.total,
        ensures
            final(self).wf(),
            final(self).progress.total == old(self).progress.total,
            final(self).progress.completed == old(self).progress.completed + 1,
            final(self).records@ == old(self).records@.push(rec),
            p == final(self).progress,
            progress_step(old(self).progress, final(self).progress),
    {
        self.records.push(rec);
        self.progress.mut_increment();
        self.progress
    }

    /// The completed report, once every file has its record: one record per
    /// file of the run, in enumeration order.
    pub fn finish(self) -> (r: ChecksumReport)
        requires
            self.wf(),
            self.progress.completed == self.progress.total,
        ensures
            r.0@ == self.records@,
            r.0@.len() == self.progress.total,
    {
        ChecksumReport(self.records)
    }
}

/// The consistency record for one file, zipped from the source replica and
/// the parallel lists of destination paths and destination hashes.
pub fn make_record(
    source_path: String,
    source_hash: u64,
    dest_paths: &Vec<String>,
    dest_hashes: &Vec<u64>,
) -> (rec: ChecksumReportSingleFile)
    requires
        dest_paths@.len() == dest_hashes@.len(),
    ensures
        rec.source.0 == source_path,
        rec.source.1 == source_hash,
        rec.destinations@.len() == dest_paths@.len(),
        forall|i: int|
            0 <= i < dest_paths@.len() ==> (#[trigger] rec.destinations@[i]).0 == dest_paths@[i]
                && rec.destinations@[i].1 == dest_hashes@[i],
        rec.spec_consistent() <==> (forall|i: int|
            0 <= i < dest_hashes@.len() ==> (#[trigger] dest_hashes@[i]) == source_hash),
{
    let mut destinations: Vec<(String, u64)> = Vec::new();
    let mut i: usize = 0;
    while i < dest_paths.len()
        invariant
            i <= dest_paths@.len(),
            dest_paths@.len() == dest_hashes@.len(),
            destinations@.len() == i,
            forall|j: int|
                0 <= j < i ==> (#[trigger] destinations@[j]).0 == dest_paths@[j]
                    && destinations@[j].1 == dest_hashes@[j],
        decreases dest_paths@.len() - i,
    {
        let ghost prev = destinations@;
        destinations.push((dest_paths[i].clone(), dest_hashes[i]));
        proof {
            assert(forall|m: int|
                0 <= m < prev.len() ==> #[trigger] destinations@[m] == prev[m]);
        }
        i = i + 1;
    }
    let ghost dv = destinations@;
    let rec = ChecksumReportSingleFile { source: (source_path, source_hash), destinations };
    proof {
        assert(rec.destinations@ == dv);
        if forall|i: int|
            0 <= i < dest_hashes@.len() ==> (#[trigger] dest_hashes@[i]) == source_hash {
            assert forall|i: int|
                0 <= i < rec.destinations@.len() implies (#[trigger] rec.destinations@[i]).1
                == rec.source.1 by {
                assert(dv[i].1 == dest_hashes@[i]);
                assert(dest_hashes@[i] == source_hash);
            }
        }
        if rec.spec_consistent() {
            assert forall|i: int|
                0 <= i < dest_hashes@.len() implies (#[trigger] dest_hashes@[i])
                == source_hash by {
                assert(rec.destinations@[i].1 == rec.source.1);
                assert(dv[i].1 == dest_hashes@[i]);
            }
        }
    }
    rec
}

} // verus!
