use profiler_toolkit::shared::file_inventory::{FileInfo, FileInventory};
use profiler_toolkit::shared::quota_manager::{DeleteOutcome, EvictionPass};

fn file(path: &str, size_in_bytes: u64, last_access_time: u64) -> FileInfo {
    FileInfo {
        path: path.to_string(),
        size_in_bytes,
        creation_time: last_access_time,
        last_access_time,
    }
}

fn paths(inventory: &FileInventory) -> Vec<String> {
    (0..inventory.len()).map(|index| inventory.get(index).unwrap().path.clone()).collect()
}

/// Runs a pass; `outcome` says how the deletion of each file ends.
fn run(
    inventory: &mut FileInventory,
    max_size_bytes: Option<u64>,
    max_age_seconds: Option<u64>,
    now: u64,
    outcome: impl Fn(&str) -> DeleteOutcome,
) -> Vec<String> {
    let mut deleted = Vec::new();
    let mut pass = EvictionPass::start(inventory, max_size_bytes, max_age_seconds, now);
    while let Some(path) = pass.next_file().map(|path| path.to_string()) {
        assert!(!pass.is_done());
        deleted.push(path.clone());
        pass.record(inventory, outcome(&path), now);
        assert!(deleted.len() < 100);
    }
    assert!(pass.is_done());
    pass.record(inventory, DeleteOutcome::Deleted, now);
    assert!(pass.next_file().is_none());
    deleted
}

#[test]
fn eviction_deletes_the_oldest_file_only() {
    let mut inventory =
        FileInventory::new("/cache", vec![file("/cache/a", 60, 1), file("/cache/b", 60, 2)]);
    let deleted = run(&mut inventory, Some(100), None, 10, |_| DeleteOutcome::Deleted);
    assert_eq!(deleted, vec!["/cache/a"]);
    assert_eq!(inventory.total_size_in_bytes(), 60);
    assert_eq!(paths(&inventory), vec!["b"]);
}

#[test]
fn nothing_to_do_within_the_limits() {
    let mut inventory =
        FileInventory::new("/cache", vec![file("/cache/a", 60, 100), file("/cache/b", 60, 200)]);
    assert!(run(&mut inventory, Some(121), Some(50), 150, |_| DeleteOutcome::Deleted).is_empty());
    assert!(run(&mut inventory, None, None, 1_000_000, |_| DeleteOutcome::Deleted).is_empty());
    assert_eq!(inventory.len(), 2);
    assert!(EvictionPass::start(&inventory, None, None, 0).is_done());
}

#[test]
fn size_first_then_age() {
    let mut inventory = FileInventory::new(
        "/cache",
        vec![
            file("/cache/a", 10, 100),
            file("/cache/b", 10, 200),
            file("/cache/c", 10, 300),
            file("/cache/d", 10, 400),
        ],
    );
    let deleted = run(&mut inventory, Some(35), Some(150), 500, |_| DeleteOutcome::Deleted);
    assert_eq!(deleted, vec!["/cache/a", "/cache/b", "/cache/c"]);
    assert_eq!(paths(&inventory), vec!["d"]);
    assert_eq!(inventory.total_size_in_bytes(), 10);
}

#[test]
fn age_alone() {
    let mut inventory = FileInventory::new(
        "/cache",
        vec![file("/cache/a", 10, 100), file("/cache/b", 10, 200), file("/cache/c", 10, 300)],
    );
    let deleted = run(&mut inventory, None, Some(250), 500, |_| DeleteOutcome::NotFound);
    assert_eq!(deleted, vec!["/cache/a", "/cache/b"]);
    assert_eq!(paths(&inventory), vec!["c"]);
}

#[test]
fn files_that_are_gone_leave_the_inventory() {
    let mut inventory =
        FileInventory::new("/cache", vec![file("/cache/a", 60, 1), file("/cache/b", 60, 2)]);
    let deleted = run(&mut inventory, Some(0), None, 10, |_| DeleteOutcome::NotFound);
    assert_eq!(deleted, vec!["/cache/a", "/cache/b"]);
    assert_eq!(inventory.len(), 0);
}

#[test]
fn a_failed_deletion_does_not_end_the_pass() {
    let mut inventory = FileInventory::new(
        "/cache",
        vec![file("/cache/a", 60, 1), file("/cache/b", 60, 2), file("/cache/c", 60, 3)],
    );
    let deleted = run(&mut inventory, Some(60), None, 10, |path| {
        if path == "/cache/a" {
            DeleteOutcome::Failed
        } else {
            DeleteOutcome::Deleted
        }
    });
    assert_eq!(deleted, vec!["/cache/a", "/cache/b"]);
    assert_eq!(paths(&inventory), vec!["a", "c"]);
    assert_eq!(inventory.total_size_in_bytes(), 120);
}

#[test]
fn a_file_that_failed_for_size_is_tried_again_for_age() {
    let mut inventory =
        FileInventory::new("/cache", vec![file("/cache/a", 60, 1), file("/cache/b", 60, 900)]);
    let deleted = run(&mut inventory, Some(100), Some(500), 1000, |_| DeleteOutcome::Failed);
    assert_eq!(deleted, vec!["/cache/a", "/cache/a"]);
    assert_eq!(inventory.len(), 2);
}

#[test]
fn the_limit_on_age_is_applied_when_its_phase_begins() {
    let mut inventory =
        FileInventory::new("/cache", vec![file("/cache/a", 60, 100), file("/cache/b", 60, 200)]);
    let mut pass = EvictionPass::start(&inventory, Some(100), Some(50), 120);
    assert_eq!(pass.next_file(), Some("/cache/a"));
    pass.record(&mut inventory, DeleteOutcome::Deleted, 300);
    assert_eq!(pass.next_file(), Some("/cache/b"));
    pass.record(&mut inventory, DeleteOutcome::Deleted, 300);
    assert!(pass.is_done());
    assert_eq!(inventory.len(), 0);
}
