use ssmgr::model::{Sample, SampleMetadata};
use ssmgr::scan::incremental_scan;

fn sample(id: u128, path: &str, mtime: u64) -> Sample {
    Sample {
        id,
        name: path.to_string(),
        path: path.to_string(),
        duration_secs_bits: None,
        bpm_bits: None,
        categories: Vec::new(),
        enabled: false,
        metadata: SampleMetadata::empty(),
        last_modified: mtime,
    }
}

fn paths(v: &[Sample]) -> Vec<String> {
    v.iter().map(|s| s.path.clone()).collect()
}

#[test]
fn first_scan_adds_everything() {
    let mut existing = Vec::new();
    let (added, updated, removed) =
        incremental_scan(&mut existing, vec![sample(1, "/a.wav", 10), sample(2, "/b.wav", 20)]);
    assert_eq!(paths(&added), vec!["/a.wav", "/b.wav"]);
    assert!(updated.is_empty());
    assert!(removed.is_empty());
    assert_eq!(paths(&existing), vec!["/a.wav", "/b.wav"]);
}

#[test]
fn newer_files_are_refreshed_keeping_user_data() {
    let mut old = sample(1, "/a.wav", 10);
    old.enabled = true;
    old.categories = vec!["drums".to_string()];
    old.bpm_bits = Some(90f64.to_bits());
    let mut existing = vec![old];
    let mut fresh = sample(99, "/a.wav", 11);
    fresh.name = "renamed".to_string();
    let (added, updated, removed) = incremental_scan(&mut existing, vec![fresh]);
    assert!(added.is_empty());
    assert!(removed.is_empty());
    assert_eq!(updated.len(), 1);
    let s = &existing[0];
    assert_eq!(s.id, 1);
    assert!(s.enabled);
    assert_eq!(s.categories, vec!["drums"]);
    assert_eq!(s.bpm_bits.map(f64::from_bits), Some(90.0));
    assert_eq!(s.name, "renamed");
    assert_eq!(s.last_modified, 11);
    assert_eq!(updated[0].id, 1);
}

#[test]
fn unchanged_files_keep_the_known_sample() {
    let mut existing = vec![sample(1, "/a.wav", 10)];
    let mut same = sample(5, "/a.wav", 10);
    same.name = "other".to_string();
    let (added, updated, removed) = incremental_scan(&mut existing, vec![same]);
    assert!(added.is_empty() && updated.is_empty() && removed.is_empty());
    assert_eq!(existing[0].id, 1);
    assert_eq!(existing[0].name, "/a.wav");
    // an older file on disk also keeps the known sample
    let (_, updated, _) = incremental_scan(&mut existing, vec![sample(6, "/a.wav", 3)]);
    assert!(updated.is_empty());
    assert_eq!(existing[0].last_modified, 10);
}

#[test]
fn vanished_files_are_removed() {
    let mut existing = vec![sample(1, "/a.wav", 1), sample(2, "/b.wav", 1), sample(3, "/c.wav", 1)];
    let (added, updated, removed) =
        incremental_scan(&mut existing, vec![sample(7, "/b.wav", 1), sample(8, "/d.wav", 1)]);
    assert_eq!(paths(&added), vec!["/d.wav"]);
    assert!(updated.is_empty());
    assert_eq!(paths(&removed), vec!["/a.wav", "/c.wav"]);
    assert_eq!(paths(&existing), vec!["/b.wav", "/d.wav"]);
    assert_eq!(existing[0].id, 2);
    assert_eq!(existing[1].id, 8);
}

#[test]
fn duplicate_paths() {
    // of two known samples at one path the later is kept; a path scanned
    // twice gives a second, new sample
    let mut existing = vec![sample(1, "/a.wav", 1), sample(2, "/a.wav", 1)];
    let (added, updated, removed) =
        incremental_scan(&mut existing, vec![sample(5, "/a.wav", 1), sample(6, "/a.wav", 1)]);
    assert_eq!(existing.iter().map(|s| s.id).collect::<Vec<_>>(), vec![2, 6]);
    assert_eq!(added.iter().map(|s| s.id).collect::<Vec<_>>(), vec![6]);
    assert!(updated.is_empty());
    assert!(removed.is_empty());
}

#[test]
fn rescanning_the_same_files_changes_nothing() {
    let mut existing = vec![sample(1, "/a.wav", 5), sample(2, "/gone.wav", 5)];
    let scan = || vec![sample(10, "/a.wav", 9), sample(11, "/b.wav", 1)];
    let _ = incremental_scan(&mut existing, scan());
    let before: Vec<(u128, String, u64)> =
        existing.iter().map(|s| (s.id, s.path.clone(), s.last_modified)).collect();
    let (added, updated, removed) = incremental_scan(&mut existing, scan());
    assert!(added.is_empty() && updated.is_empty() && removed.is_empty());
    let after: Vec<(u128, String, u64)> =
        existing.iter().map(|s| (s.id, s.path.clone(), s.last_modified)).collect();
    assert_eq!(before, after);
}
