use librecard::copier::FanOutCopier;
use librecard::orchestrator::{collect_results, dest_join_paths, join_path, CopyRun, VerifyRun};
use librecard::progress::Progress;
use librecard::tree::{flatten_dir_files, FsNode};

fn two_file_tree() -> FsNode {
    FsNode::Dir(vec![
        ("a.txt".to_owned(), FsNode::File),
        ("b".to_owned(), FsNode::Dir(vec![("c.txt".to_owned(), FsNode::File)])),
    ])
}

#[test]
fn progress_starts_empty() {
    let p = Progress::default();
    assert_eq!(p.total, 0);
    assert_eq!(p.completed, 0);
}

#[test]
fn progress_increments_within_total() {
    let mut p = Progress::new(3);
    assert_eq!(p.total, 3);
    assert_eq!(p.completed, 0);
    let mut last = p.completed;
    for _ in 0..3 {
        p.mut_increment();
        assert!(p.completed <= p.total);
        assert!(p.completed >= last);
        last = p.completed;
    }
    assert_eq!(p.completed, 3);
}

#[test]
fn flatten_two_files() {
    let tree = two_file_tree();
    let files = flatten_dir_files(&tree);
    assert_eq!(
        files,
        vec![vec!["a.txt".to_owned()], vec!["b".to_owned(), "c.txt".to_owned()]]
    );
}

#[test]
fn flatten_twice_same_result() {
    let tree = two_file_tree();
    assert_eq!(flatten_dir_files(&tree), flatten_dir_files(&tree));
}

#[test]
fn flatten_empty_dir() {
    let tree = FsNode::Dir(vec![]);
    assert_eq!(flatten_dir_files(&tree), Vec::<Vec<String>>::new());
}

#[test]
fn join_path_renders_components() {
    let rel = vec!["b".to_owned(), "c.txt".to_owned()];
    assert_eq!(join_path("dst", &rel), "dst/b/c.txt".to_owned());
    assert_eq!(join_path("dst", &Vec::new()), "dst".to_owned());
}

#[test]
fn dest_join_paths_in_order() {
    let roots = vec!["d1".to_owned(), "d2".to_owned()];
    let rel = vec!["a.txt".to_owned()];
    assert_eq!(
        dest_join_paths(&roots, &rel),
        vec!["d1/a.txt".to_owned(), "d2/a.txt".to_owned()]
    );
}

#[test]
fn copier_empty_file_transfers_nothing() {
    let mut c = FanOutCopier::new(3);
    let w = c.on_first_read(Vec::new());
    assert!(w.is_none());
    assert_eq!(c.total_bytes, 0);
}

#[test]
fn copier_round_trip_two_destinations() {
    let source: &[u8] = b"hello";
    let mut sinks: Vec<Vec<u8>> = vec![Vec::new(), Vec::new()];
    let mut c = FanOutCopier::new(sinks.len());

    // First read returns "hel"; the loop then writes each chunk to every
    // sink while the next chunk is "read".
    let mut pending = c.on_first_read(source[..3].to_vec());
    let reads = [source[3..].to_vec(), Vec::new()];
    let mut next = reads.iter();
    while let Some(chunk) = pending {
        for sink in sinks.iter_mut() {
            sink.extend_from_slice(&chunk);
        }
        pending = c.on_barrier(next.next().unwrap().clone());
    }
    c.on_flushed();

    assert_eq!(c.total_bytes, source.len() as u64);
    for sink in &sinks {
        assert_eq!(sink.as_slice(), source);
    }
}

#[test]
fn copy_run_accounts_files_and_bytes() {
    let mut run = CopyRun::new(2);
    let p = run.record_file(5);
    assert_eq!(p.completed, 1);
    assert_eq!(p.total, 2);
    let p = run.record_file(0);
    assert_eq!(p.completed, 2);
    assert_eq!(run.total_bytes, 5);
}

#[test]
fn verify_run_collects_records() {
    let mut run = VerifyRun::new(1);
    let rec = librecard::orchestrator::make_record(
        "src/a.txt".to_owned(),
        7,
        &vec!["d1/a.txt".to_owned()],
        &vec![7],
    );
    let p = run.append_record(rec);
    assert_eq!(p.completed, 1);
    let report = run.finish();
    assert_eq!(report.total_files(), 1);
    assert_eq!(report.count_errors(), 0);
}

#[test]
fn collect_results_all_ok() {
    let input: Vec<Result<u32, String>> = vec![Ok(1), Ok(2), Ok(3)];
    assert_eq!(collect_results(input), Ok(vec![1, 2, 3]));
}

#[test]
fn collect_results_first_error() {
    let input: Vec<Result<u32, String>> =
        vec![Ok(1), Err("bad".to_owned()), Err("worse".to_owned())];
    assert_eq!(collect_results(input), Err("bad".to_owned()));
}
