use ssmgr::client::ApiClient;
use ssmgr::model::{PlaybackMode, Sample, SampleMetadata};
use ssmgr::player::AudioPlayer;
use ssmgr::render::{join_texts, list_row, preview_fields, tag_fields, Connection};
use ssmgr::ui::App;

fn sample(name: &str, enabled: bool) -> Sample {
    Sample {
        id: 1,
        name: name.to_string(),
        path: format!("/lib/{}.wav", name),
        duration_secs_bits: None,
        bpm_bits: None,
        categories: Vec::new(),
        enabled,
        metadata: SampleMetadata::empty(),
        last_modified: 0,
    }
}

#[test]
fn list_rows() {
    let plain = sample("kick", true);
    assert_eq!(
        list_row(&plain, None, None),
        format!(" ● {:<30} {:>6} {:>5}", "kick", "", "--")
    );
    let mut full = sample("a_very_long_sample_name_over_thirty_chars", false);
    full.duration_secs_bits = Some(1.5f64.to_bits());
    full.bpm_bits = Some(120.0f64.to_bits());
    full.categories = vec!["drums".to_string(), "loops".to_string()];
    let row = list_row(&full, Some("1.5s"), Some("120bpm"));
    assert_eq!(row, " ○ a_very_long_sample_name_over_thirty_chars   1.5s 120bpm [drums, loops]");
}

#[test]
fn preview_of_a_sample() {
    let mut s = sample("pad", true);
    s.metadata.format = "WAV".to_string();
    s.metadata.sample_rate = 44100;
    s.metadata.channels = 2;
    s.metadata.bit_depth = Some(24);
    s.categories = vec!["synth".to_string(), "ambient".to_string()];
    s.bpm_bits = Some(90.0f64.to_bits());
    let fields = preview_fields(&s, None, Some("90.0"));
    let want: Vec<(&str, &str)> = vec![
        ("Name: ", "pad"),
        ("Path: ", "/lib/pad.wav"),
        ("Format: ", "WAV"),
        ("Duration: ", "Unknown"),
        ("Sample Rate: ", "44100 Hz"),
        ("Channels: ", "2"),
        ("Bit Depth: ", "24"),
        ("BPM: ", "90.0"),
        ("Enabled: ", "Yes"),
        ("Categories: ", "synth, ambient"),
    ];
    let got: Vec<(&str, &str)> = fields.iter().map(|(a, b)| (a.as_str(), b.as_str())).collect();
    assert_eq!(got, want);

    let bare = sample("x", false);
    let fields = preview_fields(&bare, None, None);
    assert_eq!(fields[6].1, "Unknown");
    assert_eq!(fields[7].1, "Not analyzed");
    assert_eq!(fields[8].1, "No");
    assert_eq!(fields[9].1, "None");
    assert!(tag_fields(&bare).is_empty());
}

#[test]
fn tag_lines() {
    let mut s = sample("v", true);
    s.metadata.tags = vec![
        ("ARTIST".to_string(), "Me".to_string()),
        ("TITLE".to_string(), "Hit".to_string()),
    ];
    let got = tag_fields(&s);
    assert_eq!(
        got,
        vec![
            ("ARTIST: ".to_string(), "Me".to_string()),
            ("TITLE: ".to_string(), "Hit".to_string())
        ]
    );
}

#[test]
fn joining_texts() {
    assert_eq!(join_texts(&Vec::new(), ", "), "");
    assert_eq!(join_texts(&vec!["a".to_string()], ", "), "a");
    assert_eq!(join_texts(&vec!["a".to_string(), "b".to_string(), "c".to_string()], "-"), "a-b-c");
}

#[test]
fn status_texts() {
    let mut a: App<(), (), ()> = App::new((), ApiClient::new((), String::new()), None);
    a.update_filtered_samples(vec![sample("a", true), sample("b", false), sample("c", true)]);
    let (counts, conn, player) = a.status_lines(true);
    assert_eq!(counts, "3 samples | 2 enabled | ");
    assert_eq!(conn, "disconnected");
    assert_eq!(player, "No player");
    assert_eq!(a.connection(), Connection::Disconnected);
    assert_eq!(a.list_title(), "Samples (3) [j/k:nav e:toggle space:play l:loop]");

    a.server_connected = true;
    assert_eq!(a.status_lines(false).1, "connected");
    a.loading = true;
    assert_eq!(a.status_lines(false).1, "syncing...");
    assert_eq!(a.connection(), Connection::Syncing);

    let mut p = AudioPlayer::new(());
    a.player = Some(AudioPlayer::new(()));
    assert_eq!(a.status_lines(false).2, "Player ready [ONCE]");
    assert_eq!(a.status_lines(true).2, "Playing: unknown");
    p.set_playback_mode(PlaybackMode::Loop);
    p.started("kick");
    a.player = Some(p);
    assert_eq!(a.status_lines(true).2, "Playing: kick [LOOP]");
    assert_eq!(a.status_lines(false).2, "Player ready [LOOP]");
}
