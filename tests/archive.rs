use std::io::Cursor;
use std::io::Read;

use file_zip_service::builder::{build_archive, ArchiveBuild, BuildError, Step};
use file_zip_service::reply::{reply_to_build, reply_to_malformed, Reply};
use file_zip_service::request::FileRequest;

fn request(path: &str, arcname: &str) -> FileRequest {
    FileRequest::new(path.to_string(), arcname.to_string())
}

fn extract(bytes: &[u8]) -> Vec<(String, Vec<u8>)> {
    let mut archive = zip::ZipArchive::new(Cursor::new(bytes.to_vec())).expect("a valid archive");
    let mut entries = Vec::new();
    for i in 0..archive.len() {
        let mut file = archive.by_index(i).expect("an entry");
        let mut data = Vec::new();
        file.read_to_end(&mut data).expect("entry data");
        entries.push((file.name().to_string(), data));
    }
    entries
}

fn run_session(batch: Vec<FileRequest>, files: &[(&str, Option<&[u8]>)]) -> Result<Vec<u8>, BuildError> {
    let mut step = ArchiveBuild::start(batch);
    loop {
        match step {
            Step::Finished(r) => return r,
            Step::Pending(b) => {
                let path = b.pending().path.clone();
                let read = files
                    .iter()
                    .find(|(p, _)| *p == path)
                    .and_then(|(_, c)| c.map(|c| c.to_vec()));
                step = b.supply(read);
            }
        }
    }
}

#[test]
fn test_create_zip_archive() {
    let batch = vec![
        request("/tmp/t/file1.txt", "dir/file1.txt"),
        request("/tmp/t/file2.txt", "dir/file2.txt"),
    ];
    let reads = vec![
        Some(b"Content of file1.txt".to_vec()),
        Some(b"Content of file2.txt".to_vec()),
    ];
    let reply = reply_to_build(build_archive(batch, reads));
    assert_eq!(reply.status(), 200);
    assert_eq!(reply.content_type(), "application/zip");
    match reply {
        Reply::Archive(bytes) => {
            let entries = extract(&bytes);
            assert_eq!(entries.len(), 2);
            assert_eq!(entries[0].0, "dir/file1.txt");
            assert_eq!(entries[1].0, "dir/file2.txt");
        }
        Reply::Failure { .. } => panic!("expected an archive"),
    }
}

#[test]
fn entry_names_follow_batch_order() {
    let names = ["z.txt", "a/b.txt", "m.bin", "../up.txt"];
    let batch: Vec<FileRequest> = names.iter().enumerate().map(|(i, n)| request(&format!("/src/{}", i), n)).collect();
    let reads = names.iter().map(|n| Some(n.as_bytes().to_vec())).collect();
    let bytes = build_archive(batch, reads).ok().expect("an archive");
    let entries = extract(&bytes);
    let got: Vec<&str> = entries.iter().map(|(n, _)| n.as_str()).collect();
    assert_eq!(got, names.to_vec());
}

#[test]
fn empty_batch_gives_empty_archive() {
    let r = build_archive(Vec::new(), Vec::new());
    let bytes = r.ok().expect("an archive");
    assert!(!bytes.is_empty());
    assert_eq!(extract(&bytes).len(), 0);
    assert_eq!(reply_to_build(Ok(bytes)).status(), 200);
}

#[test]
fn empty_batch_finishes_at_start() {
    match ArchiveBuild::start(Vec::new()) {
        Step::Finished(Ok(bytes)) => assert_eq!(extract(&bytes).len(), 0),
        _ => panic!("an empty batch is finished at once"),
    }
}

#[test]
fn unreadable_middle_file_gives_no_archive() {
    let batch = vec![request("/a", "a.txt"), request("/b", "b.txt"), request("/c", "c.txt")];
    let reads = vec![Some(b"aaa".to_vec()), None, Some(b"ccc".to_vec())];
    let r = build_archive(batch, reads);
    match &r {
        Err(BuildError::SourceUnreadable { path }) => assert_eq!(path, "/b"),
        _ => panic!("expected an unreadable source"),
    }
    let reply = reply_to_build(r);
    assert_eq!(reply.status(), 404);
    assert!(matches!(reply, Reply::Failure { .. }));
}

#[test]
fn first_unreadable_file_is_named() {
    let batch = vec![request("/a", "a.txt"), request("/b", "b.txt"), request("/c", "c.txt")];
    let reads = vec![Some(b"aaa".to_vec()), None, None];
    match build_archive(batch, reads) {
        Err(BuildError::SourceUnreadable { path }) => assert_eq!(path, "/b"),
        _ => panic!("expected an unreadable source"),
    }
}

#[test]
fn extracted_contents_equal_sources() {
    let big: Vec<u8> = (0..20000u32).map(|i| (i * 7 % 251) as u8).collect();
    let contents = vec![b"hello".to_vec(), Vec::new(), big.clone(), vec![0u8; 3000]];
    let batch = vec![
        request("/1", "one"),
        request("/2", "two"),
        request("/3", "three"),
        request("/4", "four"),
    ];
    let reads = contents.iter().map(|c| Some(c.clone())).collect();
    let bytes = build_archive(batch, reads).ok().expect("an archive");
    let entries = extract(&bytes);
    assert_eq!(entries.len(), contents.len());
    for (i, (_, data)) in entries.iter().enumerate() {
        assert_eq!(data, &contents[i]);
    }
}

#[test]
fn entries_are_deflated_with_fixed_mode() {
    let batch = vec![request("/x", "x.txt")];
    let reads = vec![Some(b"some text some text some text".to_vec())];
    let bytes = build_archive(batch, reads).ok().expect("an archive");
    let mut archive = zip::ZipArchive::new(Cursor::new(bytes)).expect("a valid archive");
    let file = archive.by_index(0).expect("an entry");
    assert_eq!(file.compression(), zip::CompressionMethod::Deflated);
    assert_eq!(file.unix_mode(), Some(0o100755));
}

#[test]
fn duplicate_arcnames_are_kept() {
    let batch = vec![request("/a", "same.txt"), request("/b", "same.txt")];
    let reads = vec![Some(b"first".to_vec()), Some(b"second".to_vec())];
    let bytes = build_archive(batch, reads).ok().expect("an archive");
    let mut archive = zip::ZipArchive::new(Cursor::new(bytes)).expect("a valid archive");
    assert_eq!(archive.len(), 2);
    let mut first = String::new();
    archive.by_index(0).expect("an entry").read_to_string(&mut first).expect("entry data");
    assert_eq!(first, "first");
}

#[test]
fn malformed_body_gives_bad_request() {
    let reply = reply_to_malformed();
    assert_eq!(reply.status(), 400);
    assert_eq!(reply.content_type(), "text/plain; charset=utf-8");
    match reply {
        Reply::Failure { message, .. } => assert_eq!(message, "malformed request body"),
        Reply::Archive(_) => panic!("expected a failure"),
    }
}

#[test]
fn write_failure_gives_internal_error() {
    let reply = reply_to_build(Err(BuildError::WriteFailure));
    assert_eq!(reply.status(), 500);
    match reply {
        Reply::Failure { message, .. } => assert_eq!(message, "cannot write the archive"),
        Reply::Archive(_) => panic!("expected a failure"),
    }
}

#[test]
fn identical_interleaved_builds_stay_apart() {
    let batch = || vec![request("/p", "p.txt"), request("/q", "q.txt")];
    let (mut one, mut two) = match (ArchiveBuild::start(batch()), ArchiveBuild::start(batch())) {
        (Step::Pending(a), Step::Pending(b)) => (a, b),
        _ => panic!("both builds wait for files"),
    };
    one = match one.supply(Some(b"one-p".to_vec())) {
        Step::Pending(b) => b,
        _ => panic!("one file is left"),
    };
    two = match two.supply(Some(b"two-p".to_vec())) {
        Step::Pending(b) => b,
        _ => panic!("one file is left"),
    };
    let second = match two.supply(Some(b"two-q".to_vec())) {
        Step::Finished(Ok(bytes)) => bytes,
        _ => panic!("expected an archive"),
    };
    let first = match one.supply(Some(b"one-q".to_vec())) {
        Step::Finished(Ok(bytes)) => bytes,
        _ => panic!("expected an archive"),
    };
    let first = extract(&first);
    let second = extract(&second);
    assert_eq!(first[0].1, b"one-p".to_vec());
    assert_eq!(first[1].1, b"one-q".to_vec());
    assert_eq!(second[0].1, b"two-p".to_vec());
    assert_eq!(second[1].1, b"two-q".to_vec());
}

#[test]
fn hello_scenario() {
    let batch = vec![request("/tmp/a.txt", "dir/a.txt")];
    let reply = reply_to_build(run_session(batch, &[("/tmp/a.txt", Some(b"hello"))]));
    assert_eq!(reply.status(), 200);
    match reply {
        Reply::Archive(bytes) => {
            let entries = extract(&bytes);
            assert_eq!(entries, vec![("dir/a.txt".to_string(), b"hello".to_vec())]);
        }
        Reply::Failure { .. } => panic!("expected an archive"),
    }
}

#[test]
fn missing_file_scenario() {
    let batch = vec![request("/missing", "x.txt")];
    let r = run_session(batch, &[]);
    let reply = reply_to_build(r);
    assert_eq!(reply.status(), 404);
    assert_ne!(reply.content_type(), "application/zip");
    match reply {
        Reply::Failure { message, .. } => assert_eq!(message, "cannot read source file: /missing"),
        Reply::Archive(_) => panic!("no archive is returned"),
    }
}

#[test]
fn session_asks_for_files_in_order() {
    let batch = vec![request("/first", "1"), request("/second", "2")];
    let b = match ArchiveBuild::start(batch) {
        Step::Pending(b) => b,
        _ => panic!("the build waits for a file"),
    };
    assert_eq!(b.pending().path, "/first");
    assert_eq!(b.pending().arcname, "1");
    let b = match b.supply(Some(vec![1, 2, 3])) {
        Step::Pending(b) => b,
        _ => panic!("one file is left"),
    };
    assert_eq!(b.pending().path, "/second");
    match b.supply(None) {
        Step::Finished(Err(BuildError::SourceUnreadable { path })) => assert_eq!(path, "/second"),
        _ => panic!("expected an unreadable source"),
    }
}

#[test]
fn identical_batches_give_identical_archives() {
    let make = || {
        let batch = vec![request("/a", "a.txt"), request("/b", "sub/b.txt")];
        let reads = vec![Some(b"alpha".to_vec()), Some(vec![7u8; 5000])];
        build_archive(batch, reads).ok().expect("an archive")
    };
    let first = make();
    let second = make();
    assert_eq!(first, second);
}

#[test]
fn good_build_after_failed_one() {
    let failed = build_archive(vec![request("/gone", "g.txt")], vec![None]);
    assert!(matches!(failed, Err(BuildError::SourceUnreadable { .. })));
    let reply = reply_to_build(build_archive(vec![request("/ok", "ok.txt")], vec![Some(b"fine".to_vec())]));
    assert_eq!(reply.status(), 200);
    match reply {
        Reply::Archive(bytes) => assert_eq!(extract(&bytes), vec![("ok.txt".to_string(), b"fine".to_vec())]),
        Reply::Failure { .. } => panic!("expected an archive"),
    }
}
