//! Relief of full data directories.

use bun::disk_pressure::{
    check_and_relieve, dir_parquet_size, has_parquet_extension, DirectoryFile, Relief,
};

fn file(name: &str, size: u64, modified: u64) -> DirectoryFile {
    DirectoryFile { name: name.to_string(), size, modified }
}

/// Carry out every removal, and tell which files are left.
fn prune(relief: &mut Relief, files: &[DirectoryFile]) -> Vec<DirectoryFile> {
    let mut left: Vec<DirectoryFile> =
        files.iter().map(|f| file(&f.name, f.size, f.modified)).collect();
    while let Some(at) = relief.next_removal() {
        let name = relief.candidates[at].name.clone();
        left.retain(|f| f.name != name);
        relief.removal_done(true);
    }
    left
}

#[test]
fn dir_parquet_size_counts_only_parquet() {
    let files = vec![file("a.parquet", 1000, 1), file("b.parquet", 2000, 1), file("c.txt", 5000, 1)];
    assert_eq!(dir_parquet_size(&files), 3000);
}

#[test]
fn dir_parquet_size_empty_dir() {
    assert_eq!(dir_parquet_size(&Vec::new()), 0);
}

#[test]
fn export_then_prune_under_pressure() {
    let files = vec![
        file("logs_000000.parquet", 1000, 1),
        file("logs_000001.parquet", 1000, 2),
        file("logs_000002.parquet", 1000, 3),
    ];
    let exported: Vec<String> = files.iter().map(|f| f.name.clone()).collect();
    let mut relief = check_and_relieve(3000, true, Some(3), &exported, &files, 2000, 0, 100);
    let left = prune(&mut relief, &files);
    assert!(relief.result.exported);
    assert_eq!(relief.result.files_exported, 3);
    assert!(relief.result.files_pruned >= 1);
    assert!(dir_parquet_size(&left) <= 2000);
    assert_eq!(relief.result.files_pruned, 1);
    assert_eq!(relief.result.bytes_reclaimed, 1000);
    assert_eq!(left[0].name, "logs_000001.parquet");
}

#[test]
fn no_prune_without_export_when_dest_set() {
    let files = vec![file("logs_000000.parquet", 1000, 1)];
    let exported = vec!["logs_000000.parquet".to_string()];
    let mut relief = check_and_relieve(1000, true, Some(1), &exported, &files, 500, 0, 100);
    prune(&mut relief, &files);
    assert!(relief.result.exported);
    assert_eq!(relief.result.files_exported, 1);
    assert!(relief.result.files_pruned >= 1);
}

#[test]
fn prune_without_export_dest() {
    let files = vec![file("logs_000000.parquet", 2000, 1)];
    let mut relief = check_and_relieve(2000, false, None, &Vec::new(), &files, 1000, 0, 100);
    prune(&mut relief, &files);
    assert!(!relief.result.exported);
    assert_eq!(relief.result.files_pruned, 1);
}

#[test]
fn no_action_when_under_threshold() {
    let files = vec![file("logs_000000.parquet", 100, 1)];
    let mut relief = check_and_relieve(100, false, None, &Vec::new(), &files, 10000, 0, 100);
    prune(&mut relief, &files);
    assert_eq!(relief.result.files_pruned, 0);
}

#[test]
fn files_that_were_not_exported_stay() {
    let files = vec![file("old.parquet", 1000, 1), file("new.parquet", 1000, 2)];
    let exported = vec!["new.parquet".to_string()];
    let mut relief = check_and_relieve(2000, true, None, &exported, &files, 500, 0, 100);
    let left = prune(&mut relief, &files);
    assert!(!relief.result.exported);
    assert_eq!(left.len(), 1);
    assert_eq!(left[0].name, "old.parquet");
}

#[test]
fn retention_prunes_whatever_the_size() {
    let day = 86_400;
    let files = vec![
        file("young.parquet", 10, 10 * day),
        file("old.parquet", 20, 10 * day - 1),
        file("old.txt", 40, 1),
    ];
    let mut relief = check_and_relieve(30, false, None, &Vec::new(), &files, 0, 3, 13 * day);
    let left = prune(&mut relief, &files);
    assert_eq!(relief.retention_cutoff, 10 * day);
    assert_eq!(relief.result.bytes_reclaimed, 20);
    assert_eq!(left.len(), 2);
    let early = check_and_relieve(30, false, None, &Vec::new(), &files, 0, 3, day);
    assert_eq!(early.retention_cutoff, 0);
}

#[test]
fn failed_removals_reclaim_nothing() {
    let files = vec![file("b.parquet", 1000, 2), file("a.parquet", 1000, 1)];
    let mut relief = check_and_relieve(2000, false, None, &Vec::new(), &files, 1000, 0, 100);
    assert_eq!(relief.next_removal(), Some(0));
    assert_eq!(relief.candidates[0].name, "a.parquet");
    relief.removal_done(false);
    assert_eq!(relief.next_removal(), Some(1));
    relief.removal_done(true);
    assert_eq!(relief.next_removal(), None);
    assert_eq!(relief.result.files_pruned, 1);
    assert_eq!(relief.remaining, 1000);
}

#[test]
fn the_extension_needs_a_stem() {
    assert!(has_parquet_extension("x.parquet"));
    assert!(has_parquet_extension("x.y.parquet"));
    assert!(!has_parquet_extension(".parquet"));
    assert!(!has_parquet_extension("xparquet"));
    assert!(!has_parquet_extension("x.parquet.gz"));
}
