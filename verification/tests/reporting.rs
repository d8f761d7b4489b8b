use librecard::copier::FanOutCopier;
use librecard::export::{header_row, u64_to_hex};
use librecard::hasher::hash_bytes;
use librecard::orchestrator::{dest_join_paths, join_path, make_record, CopyRun, VerifyRun};
use librecard::report::{ChecksumReport, ChecksumReportSingleFile};
use librecard::tree::{flatten_dir_files, FsNode};

#[test]
fn hex_renders_full_width() {
    assert_eq!(u64_to_hex(0), "0000000000000000".to_owned());
    assert_eq!(u64_to_hex(0xdeadbeef), "00000000deadbeef".to_owned());
    assert_eq!(u64_to_hex(u64::MAX), "ffffffffffffffff".to_owned());
    assert_eq!(u64_to_hex(0x0123456789abcdef), "0123456789abcdef".to_owned());
}

#[test]
fn header_names_columns() {
    let header = header_row(2);
    assert_eq!(
        header,
        vec![
            "consistent".to_owned(),
            "source_path".to_owned(),
            "source_hash".to_owned(),
            "destination_path".to_owned(),
            "destination_hash".to_owned(),
            "destination_path".to_owned(),
            "destination_hash".to_owned(),
        ]
    );
}

#[test]
fn record_consistency_flags() {
    let good = ChecksumReportSingleFile {
        source: ("s/a".to_owned(), 42),
        destinations: vec![("d1/a".to_owned(), 42), ("d2/a".to_owned(), 42)],
    };
    assert!(good.consistent());
    let bad = ChecksumReportSingleFile {
        source: ("s/a".to_owned(), 42),
        destinations: vec![("d1/a".to_owned(), 42), ("d2/a".to_owned(), 41)],
    };
    assert!(!bad.consistent());
}

#[test]
fn count_errors_counts_inconsistent_records() {
    let good = ChecksumReportSingleFile {
        source: ("s/a".to_owned(), 1),
        destinations: vec![("d/a".to_owned(), 1)],
    };
    let bad = ChecksumReportSingleFile {
        source: ("s/b".to_owned(), 2),
        destinations: vec![("d/b".to_owned(), 3)],
    };
    let empty_dests = ChecksumReportSingleFile {
        source: ("s/c".to_owned(), 4),
        destinations: vec![],
    };
    let report = ChecksumReport(vec![good, bad, empty_dests]);
    assert_eq!(report.total_files(), 3);
    assert_eq!(report.count_errors(), 1);
}

/// Runs the whole model over one in-memory tree: flatten, fan-out copy to
/// `dests` in-memory destination trees, hash, and report.  Each file is a
/// (relative path, contents) pair.
fn copy_and_verify(
    files: &[(&str, &[u8])],
    dests: usize,
    corrupt: Option<(usize, usize)>,
) -> (u64, ChecksumReport) {
    let source_root = "src".to_owned();
    let dest_roots: Vec<String> = (0..dests).map(|d| format!("dst{}", d)).collect();

    let mut copy_run = CopyRun::new(files.len());
    let mut copies: Vec<Vec<Vec<u8>>> = Vec::new();
    for (_, contents) in files {
        let mut sinks: Vec<Vec<u8>> = vec![Vec::new(); dests];
        let mut copier = FanOutCopier::new(dests);
        let mut pending = copier.on_first_read(contents[..contents.len().min(3)].to_vec());
        let mut offset = contents.len().min(3);
        while let Some(chunk) = pending {
            for sink in sinks.iter_mut() {
                sink.extend_from_slice(&chunk);
            }
            let next = contents[offset..contents.len().min(offset + 3)].to_vec();
            offset = (offset + 3).min(contents.len());
            pending = copier.on_barrier(next);
        }
        if !contents.is_empty() {
            copier.on_flushed();
        }
        let progress = copy_run.record_file(copier.total_bytes);
        assert!(progress.completed <= progress.total);
        copies.push(sinks);
    }

    if let Some((file_idx, dest_idx)) = corrupt {
        copies[file_idx][dest_idx][0] ^= 0x01;
    }

    let mut verify_run = VerifyRun::new(files.len());
    for (i, (rel, contents)) in files.iter().enumerate() {
        let rel_components: Vec<String> = rel.split('/').map(str::to_owned).collect();
        let source_path = join_path(&source_root, &rel_components);
        let dest_paths = dest_join_paths(&dest_roots, &rel_components);
        let source_hash = hash_bytes(contents);
        let dest_hashes: Vec<u64> = copies[i].iter().map(|c| hash_bytes(c)).collect();
        let rec = make_record(source_path, source_hash, &dest_paths, &dest_hashes);
        verify_run.append_record(rec);
    }
    (copy_run.total_bytes, verify_run.finish())
}

#[test]
fn scenario_two_files_two_destinations() {
    let tree = FsNode::Dir(vec![
        ("a.txt".to_owned(), FsNode::File),
        ("b".to_owned(), FsNode::Dir(vec![("c.txt".to_owned(), FsNode::File)])),
    ]);
    let flat = flatten_dir_files(&tree);
    assert_eq!(flat.len(), 2);
    assert!(flat.contains(&vec!["a.txt".to_owned()]));
    assert!(flat.contains(&vec!["b".to_owned(), "c.txt".to_owned()]));

    let files: [(&str, &[u8]); 2] = [("a.txt", b"hello"), ("b/c.txt", b"")];
    let (total_bytes, report) = copy_and_verify(&files, 2, None);
    assert_eq!(total_bytes, 5);
    assert_eq!(report.total_files(), 2);
    assert_eq!(report.count_errors(), 0);

    let text = report.export_csv();
    let lines: Vec<&str> = text.lines().collect();
    assert_eq!(lines.len(), 3);
    assert_eq!(lines[0].split(',').count(), 7);
    for line in &lines[1..] {
        assert_eq!(line.split(',').count(), 7);
    }
    let first_row: Vec<&str> = lines[1].split(',').collect();
    assert_eq!(first_row[0], "true");
    assert_eq!(first_row[1], "src/a.txt");
    assert_eq!(first_row[2], u64_to_hex(hash_bytes(b"hello")));
    assert_eq!(first_row[3], "dst0/a.txt");
    assert_eq!(first_row[5], "dst1/a.txt");
}

#[test]
fn scenario_corrupted_destination() {
    let files: [(&str, &[u8]); 2] = [("a.txt", b"hello"), ("b/c.txt", b"")];
    // One byte of the second destination's copy of a.txt is flipped after the
    // copy and before verification.
    let (_, report) = copy_and_verify(&files, 2, Some((0, 1)));
    assert_eq!(report.count_errors(), 1);
    let bad = &report.0[0];
    assert!(!bad.consistent());
    assert_eq!(bad.destinations[0].1, bad.source.1);
    assert_ne!(bad.destinations[1].1, bad.source.1);
    assert!(report.0[1].consistent());
}

#[test]
fn export_of_empty_report() {
    let report = ChecksumReport(Vec::new());
    let text = report.export_csv();
    let lines: Vec<&str> = text.lines().collect();
    assert_eq!(lines.len(), 1);
    assert_eq!(lines[0].split(',').count(), 3);
}
