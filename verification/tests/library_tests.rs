use ssmgr::library::{
    add_category, all_categories, filter_samples, find_sample, remove_category, set_bpm,
    toggle_sample,
};
use ssmgr::model::{Sample, SampleMetadata};

fn sample(id: u128, name: &str, path: &str, cats: &[&str], enabled: bool) -> Sample {
    Sample {
        id,
        name: name.to_string(),
        path: path.to_string(),
        duration_secs_bits: None,
        bpm_bits: None,
        categories: cats.iter().map(|c| c.to_string()).collect(),
        enabled,
        metadata: SampleMetadata::empty(),
        last_modified: 0,
    }
}

fn library() -> Vec<Sample> {
    vec![
        sample(1, "Big Kick", "/lib/drums/big_kick.wav", &["drums"], true),
        sample(2, "Snare", "/lib/drums/snare.wav", &["drums", "percussion"], false),
        sample(3, "Pad", "/lib/synth/KICKASS_pad.wav", &["synth", "ambient"], true),
    ]
}

fn ids(v: &[Sample]) -> Vec<u128> {
    v.iter().map(|s| s.id).collect()
}

#[test]
fn filter_without_criteria_lists_all() {
    let lib = library();
    assert_eq!(ids(&filter_samples(&lib, None, None, None)), vec![1, 2, 3]);
}

#[test]
fn filter_by_enabled() {
    let lib = library();
    assert_eq!(ids(&filter_samples(&lib, None, None, Some(true))), vec![1, 3]);
    assert_eq!(ids(&filter_samples(&lib, None, None, Some(false))), vec![2]);
}

#[test]
fn filter_by_category() {
    let lib = library();
    assert_eq!(ids(&filter_samples(&lib, None, Some("drums"), None)), vec![1, 2]);
    assert_eq!(ids(&filter_samples(&lib, None, Some("Drums"), None)), Vec::<u128>::new());
    assert_eq!(ids(&filter_samples(&lib, None, Some("ambient"), Some(true))), vec![3]);
}

#[test]
fn filter_by_search_ignores_case_and_looks_at_paths() {
    let lib = library();
    // "kick" is in the name of 1 and only in the path of 3
    assert_eq!(ids(&filter_samples(&lib, Some("KiCk"), None, None)), vec![1, 3]);
    assert_eq!(ids(&filter_samples(&lib, Some("snare"), None, None)), vec![2]);
    assert_eq!(ids(&filter_samples(&lib, Some("zzz"), None, None)), Vec::<u128>::new());
    assert_eq!(ids(&filter_samples(&lib, Some("kick"), Some("drums"), Some(true))), vec![1]);
}

#[test]
fn find_first_sample_with_id() {
    let mut lib = library();
    lib.push(sample(2, "Other", "/x.wav", &[], true));
    assert_eq!(find_sample(&lib, 2), Some(1));
    assert_eq!(find_sample(&lib, 9), None);
}

#[test]
fn toggle_twice_restores() {
    let mut lib = library();
    assert_eq!(toggle_sample(&mut lib, 2), Some(true));
    assert!(lib[1].enabled);
    assert_eq!(toggle_sample(&mut lib, 2), Some(false));
    assert!(!lib[1].enabled);
    assert_eq!(toggle_sample(&mut lib, 42), None);
    assert_eq!(lib.iter().map(|s| s.enabled).collect::<Vec<_>>(), vec![true, false, true]);
}

#[test]
fn add_category_is_idempotent() {
    let mut lib = library();
    assert!(add_category(&mut lib, 1, "fx".to_string()));
    assert_eq!(lib[0].categories, vec!["drums", "fx"]);
    assert!(add_category(&mut lib, 1, "fx".to_string()));
    assert_eq!(lib[0].categories, vec!["drums", "fx"]);
    assert!(!add_category(&mut lib, 7, "fx".to_string()));
}

#[test]
fn remove_category_removes_every_copy() {
    let mut lib = library();
    lib[1].categories.push("drums".to_string());
    assert!(remove_category(&mut lib, 2, "drums"));
    assert_eq!(lib[1].categories, vec!["percussion"]);
    assert!(remove_category(&mut lib, 2, "missing"));
    assert_eq!(lib[1].categories, vec!["percussion"]);
    assert!(!remove_category(&mut lib, 8, "drums"));
}

#[test]
fn remove_after_add_leaves_no_trace() {
    let mut lib = library();
    assert!(add_category(&mut lib, 3, "vocal".to_string()));
    assert!(remove_category(&mut lib, 3, "vocal"));
    assert_eq!(lib[2].categories, vec!["synth", "ambient"]);
}

#[test]
fn set_tempo() {
    let mut lib = library();
    assert!(set_bpm(&mut lib, 3, 120.5f64.to_bits()));
    assert_eq!(lib[2].bpm_bits.map(f64::from_bits), Some(120.5));
    assert!(!set_bpm(&mut lib, 4, 1));
}

#[test]
fn all_categories_sorted_once() {
    let mut lib = library();
    lib.push(sample(4, "Bass", "/b.wav", &["bass", "drums", "Zap"], false));
    assert_eq!(
        all_categories(&lib),
        vec!["Zap", "ambient", "bass", "drums", "percussion", "synth"]
    );
    assert!(all_categories(&Vec::new()).is_empty());
}
