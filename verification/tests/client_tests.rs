use ssmgr::client::ApiClient;
use ssmgr::model::{ClientConfig, PlaybackMode, Sample, SampleMetadata};
use ssmgr::player::AudioPlayer;

fn sample(id: u128, name: &str, cats: &[&str]) -> Sample {
    Sample {
        id,
        name: name.to_string(),
        path: format!("/lib/{}.wav", name),
        duration_secs_bits: None,
        bpm_bits: None,
        categories: cats.iter().map(|c| c.to_string()).collect(),
        enabled: false,
        metadata: SampleMetadata::empty(),
        last_modified: 0,
    }
}

fn config() -> ClientConfig {
    let mut c = ClientConfig::default();
    c.set_samples(
        vec![sample(1, "Kick", &["drums"]), sample(2, "Snare", &["drums", "fx"]), sample(3, "Pad", &[])],
        99,
    );
    c
}

#[test]
fn cached_samples_and_sync_time() {
    let c = config();
    assert_eq!(c.samples.len(), 3);
    assert_eq!(c.last_sync, Some(99));
    assert_eq!(c.get_server_url(), "http://localhost:8080");
}

#[test]
fn client_filtering() {
    let mut c = config();
    assert_eq!(c.get_filtered_samples().len(), 3);
    c.set_search("KI".to_string());
    assert_eq!(c.get_filtered_samples().iter().map(|s| s.id).collect::<Vec<_>>(), vec![1]);
    c.set_search(String::new());
    c.set_category(Some("drums".to_string()));
    assert_eq!(c.get_filtered_samples().iter().map(|s| s.id).collect::<Vec<_>>(), vec![1, 2]);
    c.set_search("lib".to_string());
    assert_eq!(c.get_filtered_samples().len(), 2);
    c.set_category(None);
    assert_eq!(c.get_filtered_samples().len(), 3);
}

#[test]
fn client_categories() {
    let c = config();
    assert_eq!(c.get_all_categories(), vec!["drums", "fx"]);
}

#[test]
fn endpoint_urls() {
    let mut api = ApiClient::new((), "http://host:8080".to_string());
    assert_eq!(api.samples_url(None, None, None), "http://host:8080/api/samples");
    assert_eq!(
        api.samples_url(Some("kick"), Some("drums"), Some(true)),
        "http://host:8080/api/samples?search=kick&category=drums&enabled=true"
    );
    assert_eq!(
        api.samples_url(None, None, Some(false)),
        "http://host:8080/api/samples?enabled=false"
    );
    assert_eq!(api.toggle_url("abc"), "http://host:8080/api/samples/abc/toggle");
    assert_eq!(api.category_url("abc"), "http://host:8080/api/samples/abc/category");
    assert_eq!(api.analyze_url("abc"), "http://host:8080/api/samples/abc/analyze");
    assert_eq!(api.scan_dirs_url(), "http://host:8080/api/scan-dirs");
    assert_eq!(api.scan_dir_url("d1"), "http://host:8080/api/scan-dirs/d1");
    assert_eq!(api.rescan_url(), "http://host:8080/api/rescan");
    assert_eq!(api.strudel_url(), "http://host:8080/api/strudel.json");
    assert_eq!(api.get_audio_url("/lib/drums/kick.wav"), "http://host:8080/samples/kick.wav");
    api.update_base_url("http://other".to_string());
    assert_eq!(api.get_audio_url("/"), "http://other/samples/");
}

#[test]
fn player_modes() {
    let mut p = AudioPlayer::new(());
    assert_eq!(p.get_playback_mode(), PlaybackMode::Once);
    assert_eq!(p.currently_playing(), None);
    p.toggle_loop();
    assert_eq!(p.get_playback_mode(), PlaybackMode::Loop);
    p.toggle_loop();
    assert_eq!(p.get_playback_mode(), PlaybackMode::Once);
    p.set_playback_mode(PlaybackMode::Loop);
    assert_eq!(p.get_playback_mode(), PlaybackMode::Loop);
    p.started("kick");
    assert_eq!(p.currently_playing(), Some("kick"));
    p.stopped();
    assert_eq!(p.currently_playing(), None);
    assert_eq!(p.get_playback_mode(), PlaybackMode::Loop);
}
