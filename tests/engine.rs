use sync2bucket::engine::{download_items, Step, SyncEngine};
use sync2bucket::progress::{FileEntry, SyncDirection, SyncError, SyncProgress, SyncStatus};
use sync2bucket::scan::{build_scan, ScanResult, ScannedFile, ScannedRoot};
use sync2bucket::storage::S3Object;

fn photos_root() -> Vec<ScannedRoot> {
    vec![ScannedRoot {
        path: "photos/".to_string(),
        files: vec![
            ScannedFile { relative: "trip.jpg".to_string(), size: 10 },
            ScannedFile { relative: "beach/sunset.jpg".to_string(), size: 20 },
        ],
    }]
}

fn object(key: &str, size: u64) -> S3Object {
    S3Object { key: key.to_string(), size, last_modified: 0 }
}

/// Runs a session to its end, checking the counters after every step.
fn run_to_end(engine: &mut SyncEngine) -> Step {
    loop {
        let step = engine.next_step();
        let p = engine.get_progress(0);
        assert!(p.completed_files <= p.total_files);
        assert!(p.transferred_bytes <= p.total_bytes);
        match step {
            Step::Transfer(i) => engine.complete_transfer(i).unwrap(),
            other => return other,
        }
    }
}

fn upload(engine: &mut SyncEngine, scan: &ScanResult, now: u64) -> Step {
    engine.begin(SyncDirection::LocalToCloud, now).unwrap();
    engine.set_plan(scan.entries.clone()).unwrap();
    run_to_end(engine)
}

#[test]
fn scan_of_photos_gives_two_entries() {
    let scan = build_scan(&photos_root());
    assert_eq!(
        scan.entries,
        vec![
            FileEntry { path: "photos/trip.jpg".to_string(), size: 10, is_dir: false },
            FileEntry { path: "photos/beach/sunset.jpg".to_string(), size: 20, is_dir: false },
        ]
    );
    assert_eq!(scan.sources, vec!["photos/trip.jpg".to_string(), "photos/beach/sunset.jpg".to_string()]);
}

#[test]
fn upload_of_photos_completes_with_totals() {
    let scan = build_scan(&photos_root());
    let mut engine = SyncEngine::new();
    assert_eq!(upload(&mut engine, &scan, 0), Step::Finished);
    let p = engine.get_progress(0);
    assert_eq!(p.total_files, 2);
    assert_eq!(p.total_bytes, 30);
    assert_eq!(p.completed_files, 2);
    assert_eq!(p.transferred_bytes, 30);
    assert_eq!(p.status, SyncStatus::Completed);
    assert_eq!(p.current_file, None);
    assert_eq!(p.direction, Some(SyncDirection::LocalToCloud));
}

#[test]
fn repeated_upload_reports_same_totals() {
    let mut engine = SyncEngine::new();
    let first = build_scan(&photos_root());
    upload(&mut engine, &first, 5);
    let a = engine.get_progress(5);
    let second = build_scan(&photos_root());
    upload(&mut engine, &second, 9);
    let b = engine.get_progress(9);
    assert_eq!((a.total_files, a.total_bytes), (b.total_files, b.total_bytes));
    assert_eq!((b.total_files, b.total_bytes), (2, 30));
}

#[test]
fn download_skips_directory_markers_in_totals() {
    let objects = vec![object("archive/", 0), object("archive/notes.txt", 5)];
    let mut engine = SyncEngine::new();
    engine.begin(SyncDirection::CloudToLocal, 0).unwrap();
    engine.set_download_plan(&objects).unwrap();
    let p = engine.get_progress(0);
    assert_eq!(p.total_files, 1);
    assert_eq!(p.total_bytes, 5);
    assert_eq!(engine.next_step(), Step::Transfer(0));
    assert_eq!(engine.get_progress(0).current_file, Some("archive/notes.txt".to_string()));
    engine.complete_transfer(0).unwrap();
    assert_eq!(engine.next_step(), Step::Finished);
    let p = engine.get_progress(0);
    assert_eq!(p.completed_files, p.total_files);
    assert_eq!(p.status, SyncStatus::Completed);
}

#[test]
fn download_items_drop_markers_only() {
    let objects = vec![object("a/", 3), object("a/x", 1), object("b", 2), object("c/d/", 0)];
    let items = download_items(&objects);
    let keys: Vec<&str> = items.iter().map(|e| e.path.as_str()).collect();
    assert_eq!(keys, vec!["a/x", "b"]);
}

#[test]
fn pause_freezes_and_resume_continues() {
    let scan = build_scan(&photos_root());
    let mut engine = SyncEngine::new();
    engine.begin(SyncDirection::LocalToCloud, 0).unwrap();
    engine.set_plan(scan.entries.clone()).unwrap();
    assert_eq!(engine.next_step(), Step::Transfer(0));
    engine.complete_transfer(0).unwrap();
    engine.pause();
    assert!(engine.is_paused());
    assert_eq!(engine.get_progress(0).status, SyncStatus::Paused);
    for _ in 0..3 {
        assert_eq!(engine.next_step(), Step::Wait);
        assert_eq!(engine.get_progress(0).completed_files, 1);
    }
    engine.resume();
    assert!(!engine.is_paused());
    assert_eq!(engine.next_step(), Step::Transfer(1));
    engine.complete_transfer(1).unwrap();
    assert_eq!(engine.next_step(), Step::Finished);
    assert_eq!(engine.get_progress(0).completed_files, 2);
}

#[test]
fn cancel_while_paused_ends_without_resume() {
    let scan = build_scan(&photos_root());
    let mut engine = SyncEngine::new();
    engine.begin(SyncDirection::LocalToCloud, 0).unwrap();
    engine.set_plan(scan.entries.clone()).unwrap();
    engine.pause();
    assert_eq!(engine.next_step(), Step::Wait);
    engine.cancel();
    assert_eq!(engine.next_step(), Step::Cancelled);
    let p = engine.get_progress(0);
    assert_eq!(p.status, SyncStatus::Cancelled);
    assert_eq!(p.completed_files, 0);
    assert_eq!(engine.next_step(), Step::Inactive);
}

#[test]
fn transfer_in_flight_counts_after_pause() {
    let scan = build_scan(&photos_root());
    let mut engine = SyncEngine::new();
    engine.begin(SyncDirection::LocalToCloud, 0).unwrap();
    engine.set_plan(scan.entries.clone()).unwrap();
    assert_eq!(engine.next_step(), Step::Transfer(0));
    engine.pause();
    engine.complete_transfer(0).unwrap();
    assert_eq!(engine.next_step(), Step::Wait);
    assert_eq!(engine.get_progress(0).completed_files, 1);
}

#[test]
fn second_session_refused_while_active() {
    let mut engine = SyncEngine::new();
    engine.begin(SyncDirection::LocalToCloud, 0).unwrap();
    assert_eq!(engine.begin(SyncDirection::CloudToLocal, 1), Err(SyncError::SessionActive));
    assert_eq!(engine.get_progress(0).direction, Some(SyncDirection::LocalToCloud));
}

#[test]
fn wrong_state_calls_are_refused() {
    let mut engine = SyncEngine::new();
    assert_eq!(engine.set_plan(Vec::new()), Err(SyncError::NoActiveSync));
    assert_eq!(engine.complete_transfer(0), Err(SyncError::NoActiveSync));
    assert_eq!(engine.fail("x".to_string()), Err(SyncError::NoActiveSync));
    assert_eq!(engine.next_step(), Step::Inactive);
    let scan = build_scan(&photos_root());
    engine.begin(SyncDirection::LocalToCloud, 0).unwrap();
    engine.set_plan(scan.entries.clone()).unwrap();
    assert_eq!(engine.next_step(), Step::Transfer(0));
    assert_eq!(engine.complete_transfer(1), Err(SyncError::NoActiveSync));
}

#[test]
fn failure_ends_session_with_message() {
    let scan = build_scan(&photos_root());
    let mut engine = SyncEngine::new();
    engine.begin(SyncDirection::LocalToCloud, 0).unwrap();
    engine.set_plan(scan.entries.clone()).unwrap();
    assert_eq!(engine.next_step(), Step::Transfer(0));
    engine.fail("S3 error: denied".to_string()).unwrap();
    assert_eq!(engine.get_progress(0).status, SyncStatus::Error("S3 error: denied".to_string()));
    assert_eq!(engine.next_step(), Step::Inactive);
    engine.begin(SyncDirection::LocalToCloud, 0).unwrap();
    assert_eq!(engine.get_progress(0).status, SyncStatus::Scanning);
    assert_eq!(engine.get_progress(0).total_files, 0);
}

#[test]
fn empty_plan_finishes_at_once() {
    let mut engine = SyncEngine::new();
    engine.begin(SyncDirection::CloudToLocal, 0).unwrap();
    engine.set_plan(Vec::new()).unwrap();
    assert_eq!(engine.next_step(), Step::Finished);
    assert_eq!(engine.get_progress(0).status, SyncStatus::Completed);
}

#[test]
fn oversized_totals_fail_the_scan() {
    let mut engine = SyncEngine::new();
    engine.begin(SyncDirection::LocalToCloud, 0).unwrap();
    let entries = vec![
        FileEntry { path: "a/x".to_string(), size: u64::MAX, is_dir: false },
        FileEntry { path: "a/y".to_string(), size: 1, is_dir: false },
    ];
    let r = engine.set_plan(entries);
    assert!(matches!(r, Err(SyncError::IoError(_))));
    let p = engine.get_progress(0);
    assert!(matches!(p.status, SyncStatus::Error(_)));
    assert_eq!(p.total_files, 0);
}

#[test]
fn idle_progress_before_any_session() {
    let engine = SyncEngine::new();
    assert_eq!(engine.get_progress(123), SyncProgress::default());
    assert!(!engine.is_paused());
}

#[test]
fn rate_and_eta_from_elapsed_time() {
    let mut engine = SyncEngine::new();
    engine.begin(SyncDirection::LocalToCloud, 1000).unwrap();
    let entries = vec![
        FileEntry { path: "r/a".to_string(), size: 25, is_dir: false },
        FileEntry { path: "r/b".to_string(), size: 75, is_dir: false },
    ];
    engine.set_plan(entries).unwrap();
    assert_eq!(engine.next_step(), Step::Transfer(0));
    engine.complete_transfer(0).unwrap();
    let p = engine.get_progress(3000);
    assert_eq!(p.bytes_per_second, 12);
    assert_eq!(p.eta_seconds, Some(6));
    let q = engine.get_progress(1000);
    assert_eq!(q.bytes_per_second, 0);
    assert_eq!(q.eta_seconds, None);
}

#[test]
fn sync_error_messages() {
    assert_eq!(SyncError::S3Error("boom".to_string()).message(), "S3 error: boom");
    assert_eq!(SyncError::IoError("gone".to_string()).message(), "IO error: gone");
    assert_eq!(SyncError::Cancelled.message(), "Sync cancelled");
    assert_eq!(SyncError::NoActiveSync.message(), "No active sync");
}

#[test]
fn find_source_uses_scan_association() {
    let roots = vec![
        ScannedRoot {
            path: "/home/a/docs".to_string(),
            files: vec![ScannedFile { relative: "x.txt".to_string(), size: 1 }],
        },
        ScannedRoot {
            path: "/home/b/docs".to_string(),
            files: vec![ScannedFile { relative: "y.txt".to_string(), size: 2 }],
        },
    ];
    let scan = build_scan(&roots);
    assert_eq!(scan.find_source("docs/y.txt"), Ok("/home/b/docs/y.txt".to_string()));
    assert_eq!(scan.find_source("docs/x.txt"), Ok("/home/a/docs/x.txt".to_string()));
    assert_eq!(
        scan.find_source("docs/z.txt"),
        Err(SyncError::SourceNotFound("docs/z.txt".to_string()))
    );
}

#[test]
fn no_time_left_while_rate_rounds_to_zero() {
    let mut engine = SyncEngine::new();
    engine.begin(SyncDirection::LocalToCloud, 0).unwrap();
    let entries = vec![
        FileEntry { path: "r/a".to_string(), size: 1, is_dir: false },
        FileEntry { path: "r/b".to_string(), size: 1, is_dir: false },
    ];
    engine.set_plan(entries).unwrap();
    assert_eq!(engine.next_step(), Step::Transfer(0));
    engine.complete_transfer(0).unwrap();
    let p = engine.get_progress(2000);
    assert_eq!(p.bytes_per_second, 0);
    assert_eq!(p.eta_seconds, None);
}

#[test]
fn pause_while_scanning_is_kept() {
    let scan = build_scan(&photos_root());
    let mut engine = SyncEngine::new();
    engine.begin(SyncDirection::LocalToCloud, 0).unwrap();
    engine.pause();
    assert!(engine.is_paused());
    engine.set_plan(scan.entries.clone()).unwrap();
    assert_eq!(engine.get_progress(0).status, SyncStatus::Paused);
    assert_eq!(engine.next_step(), Step::Wait);
    engine.resume();
    assert!(!engine.is_paused());
    assert_eq!(engine.next_step(), Step::Transfer(0));
}

#[test]
fn resume_or_cancel_while_scanning_drops_the_pause() {
    let scan = build_scan(&photos_root());
    let mut engine = SyncEngine::new();
    engine.begin(SyncDirection::LocalToCloud, 0).unwrap();
    engine.pause();
    engine.resume();
    assert!(!engine.is_paused());
    engine.pause();
    engine.cancel();
    assert!(!engine.is_paused());
    engine.set_plan(scan.entries.clone()).unwrap();
    assert_eq!(engine.next_step(), Step::Cancelled);
}
