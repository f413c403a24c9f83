use ssmgr::model::{Sample, SampleMetadata, ServerConfig};
use ssmgr::server::{
    add_category, add_scan_dir, analysis_target, get_sample, list_samples, list_scan_dirs,
    record_bpm, remove_category, remove_scan_dir, toggle_sample, CategoryRequest, SampleQuery,
    ScanDirRequest,
};

fn sample(id: u128, name: &str, path: &str, enabled: bool) -> Sample {
    Sample {
        id,
        name: name.to_string(),
        path: path.to_string(),
        duration_secs_bits: None,
        bpm_bits: None,
        categories: Vec::new(),
        enabled,
        metadata: SampleMetadata::empty(),
        last_modified: 0,
    }
}

const ID_A: u128 = 0x550e8400_e29b_41d4_a716_446655440000;
const ID_B: u128 = 0x936da01f_9abd_4d9d_80c7_02af85c822a8;

fn text(id: u128) -> String {
    uuid::Uuid::from_u128(id).to_string()
}

fn config() -> ServerConfig {
    let mut c = ServerConfig::default();
    c.samples.push(sample(ID_A, "kick", "/lib/kick.wav", true));
    c.samples.push(sample(ID_B, "snare", "/lib/drums/snare.wav", false));
    c
}

#[test]
fn listing() {
    let c = config();
    let q = SampleQuery { search: None, category: None, enabled: Some(false) };
    let r = list_samples(&c, &q);
    assert!(r.success);
    let got: Vec<u128> = r.data.unwrap().iter().map(|s| s.id).collect();
    assert_eq!(got, vec![ID_B]);
}

#[test]
fn get_sample_by_id_text() {
    let c = config();
    let r = get_sample(&c, &text(ID_B));
    assert!(r.success);
    assert_eq!(r.data.unwrap().name, "snare");
    let upper = text(ID_B).to_uppercase();
    assert!(get_sample(&c, &upper).success);
}

#[test]
fn get_sample_unknown_and_malformed_ids() {
    let c = config();
    let missing = get_sample(&c, "00000000-0000-0000-0000-000000000000");
    assert!(!missing.success);
    assert_eq!(missing.error.as_deref(), Some("Sample not found"));
    let bad = get_sample(&c, "not-a-uuid");
    assert!(!bad.success);
    assert!(bad.data.is_none());
    let msg = bad.error.unwrap();
    assert_ne!(msg, "Sample not found");
    assert_eq!(msg, uuid::Uuid::parse_str("not-a-uuid").unwrap_err().to_string());
}

#[test]
fn toggle_through_the_api() {
    let mut c = config();
    let r = toggle_sample(&mut c, &text(ID_B));
    assert!(r.success);
    assert_eq!(r.data, Some(true));
    assert!(c.samples[1].enabled);
    let r2 = toggle_sample(&mut c, &text(ID_B));
    assert_eq!(r2.data, Some(false));
    assert!(!c.samples[1].enabled);
    let nf = toggle_sample(&mut c, "00000000-0000-0000-0000-000000000001");
    assert!(!nf.success);
    assert_eq!(nf.error.as_deref(), Some("Sample not found"));
    assert!(!toggle_sample(&mut c, "x").success);
}

#[test]
fn categories_through_the_api() {
    let mut c = config();
    let r = add_category(&mut c, &text(ID_A), CategoryRequest { category: "drums".to_string() });
    assert_eq!(r.data, Some(true));
    assert_eq!(c.samples[0].categories, vec!["drums"]);
    let r = remove_category(&mut c, &text(ID_A), &CategoryRequest { category: "drums".to_string() });
    assert_eq!(r.data, Some(true));
    assert!(c.samples[0].categories.is_empty());
    let nf = add_category(&mut c, &text(7), CategoryRequest { category: "x".to_string() });
    assert_eq!(nf.error.as_deref(), Some("Sample not found"));
    let bad = remove_category(&mut c, "??", &CategoryRequest { category: "x".to_string() });
    assert!(!bad.success);
}

#[test]
fn scan_directories() {
    let mut c = config();
    let r = add_scan_dir(
        &mut c,
        ScanDirRequest { path: "/lib".to_string(), label: "Library".to_string() },
        1234,
    );
    assert_eq!(r.data, Some(true));
    assert_eq!(c.scan_dirs.len(), 1);
    assert_eq!(c.scan_dirs[0].path, "/lib");
    assert_eq!(c.scan_dirs[0].label, "Library");
    assert_eq!(c.scan_dirs[0].added_at, 1234);
    assert_eq!((c.scan_dirs[0].id >> 76) & 0xf, 4);
    let listed = list_scan_dirs(&c).data.unwrap();
    assert_eq!(listed.len(), 1);
    let id = text(c.scan_dirs[0].id);
    assert!(!remove_scan_dir(&mut c, "nope").success);
    assert_eq!(c.scan_dirs.len(), 1);
    assert!(remove_scan_dir(&mut c, &text(1)).success);
    assert_eq!(c.scan_dirs.len(), 1);
    assert!(remove_scan_dir(&mut c, &id).success);
    assert!(c.scan_dirs.is_empty());
}

#[test]
fn tempo_analysis_answers() {
    let mut c = config();
    match analysis_target(&c, &text(ID_A)) {
        Ok((id, path)) => {
            assert_eq!(id, ID_A);
            assert_eq!(path, "/lib/kick.wav");
        }
        Err(_) => panic!("the sample exists"),
    }
    match analysis_target(&c, &text(5)) {
        Err(r) => assert_eq!(r.error.as_deref(), Some("Failed to analyze BPM")),
        Ok(_) => panic!("no such sample"),
    }
    assert!(analysis_target(&c, "bad").is_err());
    let failed = record_bpm(&mut c, ID_A, None);
    assert_eq!(failed.error.as_deref(), Some("Failed to analyze BPM"));
    assert_eq!(c.samples[0].bpm_bits, None);
    let done = record_bpm(&mut c, ID_A, Some(128f64.to_bits()));
    assert!(done.success);
    assert_eq!(done.data.map(f64::from_bits), Some(128.0));
    assert_eq!(c.samples[0].bpm_bits.map(f64::from_bits), Some(128.0));
}

#[test]
fn strudel_map_of_enabled_samples() {
    let mut c = config();
    c.samples.push(sample(3, "hat", "/lib/hat.ogg", true));
    c.samples.push(sample(4, "kick", "/other/kick2.wav", true));
    let m = c.generate_strudel_config();
    let mut pairs = m.samples.clone();
    pairs.sort();
    assert_eq!(
        pairs,
        vec![
            ("hat".to_string(), "http://localhost:8081/samples/hat.ogg".to_string()),
            ("kick".to_string(), "http://localhost:8081/samples/kick2.wav".to_string()),
        ]
    );
}

#[test]
fn rescan_records_time() {
    let mut c = config();
    let (added, updated, removed) =
        c.rescan(vec![sample(9, "new", "/lib/new.wav", false)], 777);
    assert_eq!(c.last_scan, Some(777));
    assert_eq!(added.len(), 1);
    assert!(updated.is_empty());
    assert_eq!(removed.len(), 2);
    assert_eq!(c.samples.len(), 1);
}

#[test]
fn config_level_edits() {
    let mut c = config();
    assert_eq!(c.toggle_sample(ID_A), Some(false));
    assert_eq!(c.toggle_sample(99), None);
    assert!(c.add_category(ID_B, "fx".to_string()));
    assert!(c.remove_category(ID_B, "fx"));
    assert_eq!(c.sample_path(ID_B).as_deref(), Some("/lib/drums/snare.wav"));
    assert_eq!(c.sample_path(1), None);
    assert!(c.set_sample_bpm(ID_B, 1));
    assert_eq!(c.get_samples().len(), 2);
    assert_eq!(c.filter_samples(Some("SNARE"), None, None).len(), 1);
}
