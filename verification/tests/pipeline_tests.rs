use cdn_mirror::cdn::{resources_base_url, resources_url, CDNEntry, DefaultIndex, IndexResponse, Resource};
use cdn_mirror::pipeline::{run_scripted, Batch, DownloadError, TransferScript};

fn res(dest: &str, size: u64) -> Resource {
    Resource {
        dest: dest.to_string(),
        md5: String::new(),
        sampleHash: String::new(),
        size,
    }
}

fn delivers(chunks: Vec<Vec<u8>>) -> TransferScript {
    TransferScript { chunks, failure: None }
}

fn fails_after(chunks: Vec<Vec<u8>>, error: DownloadError) -> TransferScript {
    TransferScript { chunks, failure: Some(error) }
}

#[test]
fn concurrency_never_exceeds_capacity() {
    let resources: Vec<Resource> = (0..5).map(|i| res(&format!("/f{}.bin", i), 3)).collect();
    let mut b = Batch::new(&resources, "https://cdn.example", "out", 2);
    let n = b.len();
    let mut waiting: Vec<usize> = Vec::new();
    let mut next = 0;
    let mut done = 0;
    while done < n {
        while next < n && b.can_start(next) {
            b.start(next);
            waiting.push(next);
            next += 1;
            assert!(b.active_count() <= 2);
        }
        assert!(b.active_count() <= 2);
        let i = waiting.remove(0);
        let pos = b.record_chunk(i, &[1, 2, 3]);
        assert_eq!(pos, 3);
        assert!(b.active_count() <= 2);
        b.close(i, Ok(()));
        done += 1;
    }
    assert_eq!(b.active_count(), 0);
    for i in 0..n {
        assert_eq!(b.outcome(i), Some(Ok(())));
        assert_eq!(b.bytes_downloaded(i), 3);
    }
}

#[test]
fn successful_download_accounts_every_byte() {
    let resources = vec![res("/a.bin", 5)];
    let scripts = vec![delivers(vec![vec![1, 2, 3], vec![4, 5]])];
    let b = run_scripted(&resources, "https://cdn.example", "out", 15, &scripts);
    assert_eq!(b.outcome(0), Some(Ok(())));
    assert_eq!(b.bytes_downloaded(0), 5);
    assert_eq!(b.bytes_downloaded(0), b.expected_size(0));
}

#[test]
fn failing_transfer_leaves_siblings_unaffected() {
    let resources = vec![res("/x.bin", 0), res("/y.bin", 1024)];
    let scripts = vec![
        fails_after(Vec::new(), DownloadError::Transport),
        delivers(vec![vec![7u8; 1024]]),
    ];
    let b = run_scripted(&resources, "https://cdn.example", "out", 15, &scripts);
    assert_eq!(b.outcome(0), Some(Err(DownloadError::Transport)));
    assert_eq!(b.bytes_downloaded(0), 0);
    assert_eq!(b.outcome(1), Some(Ok(())));
    assert_eq!(b.bytes_downloaded(1), 1024);
}

#[test]
fn sibling_outcome_is_independent_of_a_failure_elsewhere() {
    let resources = vec![res("/x.bin", 2), res("/y.bin", 3)];
    let x_succeeds = vec![delivers(vec![vec![1, 2]]), delivers(vec![vec![3, 4, 5]])];
    let x_fails = vec![
        fails_after(Vec::new(), DownloadError::Transport),
        delivers(vec![vec![3, 4, 5]]),
    ];
    let good = run_scripted(&resources, "https://cdn.example", "out", 2, &x_succeeds);
    let bad = run_scripted(&resources, "https://cdn.example", "out", 2, &x_fails);
    assert_eq!(good.outcome(1), bad.outcome(1));
    assert_eq!(good.bytes_downloaded(1), bad.bytes_downloaded(1));
    assert_eq!(bad.outcome(1), Some(Ok(())));
    assert_eq!(bad.outcome(0), Some(Err(DownloadError::Transport)));
}

#[test]
fn capacity_one_and_fifteen_agree() {
    let resources: Vec<Resource> = (0..5).map(|i| res(&format!("/f{}.bin", i), 4)).collect();
    let scripts = vec![
        delivers(vec![vec![1, 2], vec![3, 4]]),
        fails_after(vec![vec![9]], DownloadError::StreamRead),
        delivers(vec![vec![5, 6, 7, 8]]),
        fails_after(Vec::new(), DownloadError::Transport),
        delivers(Vec::new()),
    ];
    let one = run_scripted(&resources, "https://cdn.example", "out", 1, &scripts);
    let fifteen = run_scripted(&resources, "https://cdn.example", "out", 15, &scripts);
    for i in 0..5 {
        assert_eq!(one.outcome(i), fifteen.outcome(i));
        assert_eq!(one.bytes_downloaded(i), fifteen.bytes_downloaded(i));
        assert_eq!(one.url(i), fifteen.url(i));
        assert_eq!(one.destination(i), fifteen.destination(i));
    }
    assert_eq!(one.outcome(0), Some(Ok(())));
    assert_eq!(one.outcome(1), Some(Err(DownloadError::StreamRead)));
    assert_eq!(one.bytes_downloaded(1), 1);
}

#[test]
fn capacity_one_runs_sequentially() {
    let resources: Vec<Resource> = (0..5).map(|i| res(&format!("/f{}.bin", i), 1)).collect();
    let mut b = Batch::new(&resources, "https://cdn.example", "out", 1);
    for i in 0..5 {
        assert!(b.can_start(i));
        b.start(i);
        assert_eq!(b.active_count(), 1);
        if i + 1 < 5 {
            assert!(!b.can_start(i + 1));
        }
        b.record_chunk(i, &[0]);
        b.close(i, Ok(()));
        assert_eq!(b.active_count(), 0);
    }
    for i in 0..5 {
        assert_eq!(b.outcome(i), Some(Ok(())));
        assert_eq!(b.bytes_downloaded(i), 1);
    }
}

#[test]
fn end_to_end_single_resource() {
    let idx = IndexResponse {
        default: DefaultIndex {
            cdnList: vec![CDNEntry { url: "https://cdn.example".to_string() }],
            resources: "res.json".to_string(),
            resourcesBasePath: "".to_string(),
            version: "1.0".to_string(),
        },
    };
    assert_eq!(resources_url(&idx), "https://cdn.example/res.json");
    let base = resources_base_url(&idx);
    assert_eq!(base, "https://cdn.example/");
    let resources = vec![res("/file.bin", 1024)];
    let scripts = vec![delivers(vec![vec![0u8; 1024]])];
    let b = run_scripted(&resources, &base, "out", 15, &scripts);
    // The doubled separator of the concatenation is preserved, never
    // normalized away.
    assert_eq!(b.url(0), "https://cdn.example///file.bin");
    assert_eq!(b.destination(0), "out/file.bin");
    assert_eq!(b.outcome(0), Some(Ok(())));
    assert_eq!(b.bytes_downloaded(0), 1024);
}

#[test]
fn each_error_kind_is_reported() {
    let kinds = [
        DownloadError::Transport,
        DownloadError::DirCreate,
        DownloadError::FileCreate,
        DownloadError::StreamRead,
        DownloadError::FileWrite,
    ];
    for kind in kinds {
        let resources = vec![res("/a.bin", 2)];
        let scripts = vec![fails_after(vec![vec![1, 2]], kind)];
        let b = run_scripted(&resources, "https://cdn.example", "out", 3, &scripts);
        assert_eq!(b.outcome(0), Some(Err(kind)));
        assert_eq!(b.bytes_downloaded(0), 2);
    }
}

#[test]
fn rerun_derives_identical_paths() {
    let resources = vec![res("/data/a.bin", 1), res("/data/b.bin", 2)];
    let first = Batch::new(&resources, "https://cdn.example/base", "out", 15);
    let second = Batch::new(&resources, "https://cdn.example/base", "out", 15);
    for i in 0..2 {
        assert_eq!(first.url(i), second.url(i));
        assert_eq!(first.destination(i), second.destination(i));
        assert_eq!(first.expected_size(i), second.expected_size(i));
    }
}

#[test]
fn empty_batch_trivially_succeeds() {
    let resources: Vec<Resource> = Vec::new();
    let scripts: Vec<TransferScript> = Vec::new();
    let b = run_scripted(&resources, "https://cdn.example", "out", 15, &scripts);
    assert_eq!(b.len(), 0);
    assert_eq!(b.active_count(), 0);
    assert_eq!(b.outcomes().len(), 0);
}

#[test]
fn outcomes_lists_one_entry_per_transfer() {
    let resources = vec![res("/x.bin", 0), res("/y.bin", 0)];
    let scripts = vec![
        fails_after(Vec::new(), DownloadError::FileCreate),
        delivers(Vec::new()),
    ];
    let b = run_scripted(&resources, "https://cdn.example", "out", 2, &scripts);
    let outcomes = b.outcomes();
    assert_eq!(outcomes.len(), 2);
    assert_eq!(outcomes[0], Some(Err(DownloadError::FileCreate)));
    assert_eq!(outcomes[1], Some(Ok(())));
}
