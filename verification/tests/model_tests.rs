use ssmgr::model::{
    default_categories, is_supported_extension, ApiResponse, ClientConfig, PlaybackMode,
    Sample, SampleMetadata, ServerConfig, SortBy,
};
use ssmgr::paths::{extension, file_name_or_empty, file_stem, is_supported_audio};
use ssmgr::text::{chars_of, concat3, decimal_string, str_contains, str_lt, text_eq};

#[test]
fn server_config_defaults() {
    let c = ServerConfig::default();
    assert_eq!(c.port, 8080);
    assert_eq!(c.strudel_port, 8081);
    assert!(c.samples.is_empty());
    assert!(c.scan_dirs.is_empty());
    assert_eq!(c.last_scan, None);
}

#[test]
fn client_config_defaults() {
    let c = ClientConfig::default();
    assert_eq!(c.server_url, "http://localhost:8080");
    assert_eq!(c.playback_mode, PlaybackMode::Once);
    assert_eq!(c.sort_by, SortBy::Name);
    assert!(c.search.is_empty());
    assert!(c.selected_category.is_none());
    assert!(c.samples.is_empty());
}

#[test]
fn default_category_list() {
    let d = default_categories();
    assert_eq!(d.len(), 9);
    assert_eq!(d[0], "drums");
    assert_eq!(d[8], "noise");
}

#[test]
fn supported_extensions_are_lower_case_names() {
    for e in ["wav", "mp3", "flac", "ogg", "aac", "m4a"] {
        assert!(is_supported_extension(e));
    }
    assert!(!is_supported_extension("WAV"));
    assert!(!is_supported_extension("txt"));
    assert!(!is_supported_extension(""));
}

#[test]
fn api_response_constructors() {
    let ok = ApiResponse::ok(5u32);
    assert!(ok.success);
    assert_eq!(ok.data, Some(5));
    assert_eq!(ok.error, None);
    let err: ApiResponse<u32> = ApiResponse::err("boom".to_string());
    assert!(!err.success);
    assert_eq!(err.data, None);
    assert_eq!(err.error.as_deref(), Some("boom"));
}

#[test]
fn api_response_read_by_client() {
    assert_eq!(ApiResponse::ok(7u32).into_result(0), Ok(7));
    let empty = ApiResponse::<u32> { success: true, data: None, error: None };
    assert_eq!(empty.into_result(42), Ok(42));
    let e: ApiResponse<u32> = ApiResponse::err("Sample not found".to_string());
    assert_eq!(e.into_result(0), Err("Sample not found".to_string()));
    let bare = ApiResponse::<u32> { success: false, data: Some(3), error: None };
    assert_eq!(bare.into_result(0), Err("Unknown error".to_string()));
}

#[test]
fn file_stems_and_extensions() {
    assert_eq!(file_stem("/music/drums/kick.wav").as_deref(), Some("kick"));
    assert_eq!(extension("/music/drums/kick.wav").as_deref(), Some("wav"));
    assert_eq!(file_stem("/music/loop.final.mp3").as_deref(), Some("loop.final"));
    assert_eq!(extension("/music/loop.final.mp3").as_deref(), Some("mp3"));
    assert_eq!(file_stem("/home/.hidden").as_deref(), Some(".hidden"));
    assert_eq!(extension("/home/.hidden"), None);
    assert_eq!(file_stem("noext").as_deref(), Some("noext"));
    assert_eq!(extension("noext"), None);
    assert_eq!(extension("trailing.").as_deref(), Some(""));
    assert_eq!(file_stem("/"), None);
    assert_eq!(extension("a/.."), None);
    assert_eq!(file_name_or_empty("/x/y/z.ogg"), "z.ogg");
    assert_eq!(file_name_or_empty("/"), "");
    // repeated separators and `.` are skipped; `..`, `.` and the root name nothing
    assert_eq!(file_name_or_empty("a//b/./"), "b");
    assert_eq!(file_name_or_empty("./kick.wav"), "kick.wav");
    assert_eq!(file_name_or_empty("a/b/.."), "");
    assert_eq!(file_name_or_empty("."), "");
    assert_eq!(file_name_or_empty(""), "");
    assert_eq!(file_stem("loops/pad.wav/.").as_deref(), Some("pad"));
}

#[test]
fn supported_audio_paths() {
    assert!(is_supported_audio("/music/kick.wav"));
    assert!(is_supported_audio("/music/KICK.WAV"));
    assert!(is_supported_audio("song.M4a"));
    assert!(!is_supported_audio("/music/notes.txt"));
    assert!(!is_supported_audio("/music/wav"));
    assert!(!is_supported_audio("/music/.wav"));
}

#[test]
fn text_helpers() {
    assert!(str_contains("Big Kick", "g K"));
    assert!(str_contains("abc", ""));
    assert!(!str_contains("abc", "abcd"));
    assert!(!str_contains("abc", "ac"));
    assert_eq!(decimal_string(0), "0");
    assert_eq!(decimal_string(8081), "8081");
    assert_eq!(decimal_string(u64::MAX), u64::MAX.to_string());
    assert!(str_lt("Bass", "kick"));
    assert!(str_lt("kick", "kicks"));
    assert!(!str_lt("kick", "kick"));
    assert!(!str_lt("snare", "kick"));
    assert!(text_eq("é", "é"));
    assert!(!text_eq("a", "b"));
    assert_eq!(chars_of("héllo").len(), 5);
    assert_eq!(concat3("a", "b", "c"), "abc");
}

#[test]
fn new_sample_from_path() {
    let s = Sample::new("/music/drums/Kick 01.wav".to_string());
    assert_eq!(s.name, "Kick 01");
    assert_eq!(s.path, "/music/drums/Kick 01.wav");
    assert_eq!(s.metadata.format, "WAV");
    assert!(!s.enabled);
    assert!(s.categories.is_empty());
    assert_eq!(s.bpm_bits, None);
    assert_eq!(s.duration_secs_bits, None);
    assert_eq!(s.last_modified, 0);
    assert_eq!((s.id >> 76) & 0xf, 4);
    assert_eq!((s.id >> 62) & 0x3, 2);
    let t = Sample::new("/music/drums/Kick 01.wav".to_string());
    assert_ne!(s.id, t.id);
}

#[test]
fn new_sample_without_extension() {
    let s = Sample::new("/music/readme".to_string());
    assert_eq!(s.name, "readme");
    assert_eq!(s.metadata.format, "");
}

#[test]
fn scanned_sample_keeps_what_was_read() {
    let meta = SampleMetadata::from_track(
        "/a/b.flac",
        Some(48000),
        Some(2),
        Some(24),
        vec![("title".to_string(), "B".to_string())],
    );
    let s = Sample::from_scan("/a/b.flac".to_string(), 1700, Some(meta), Some(2.5f64.to_bits()));
    assert_eq!(s.last_modified, 1700);
    assert_eq!(s.metadata.sample_rate, 48000);
    assert_eq!(s.metadata.format, "FLAC");
    assert_eq!(s.duration_secs_bits.map(f64::from_bits), Some(2.5));
    let bare = Sample::from_scan("/a/c.ogg".to_string(), 5, None, None);
    assert_eq!(bare.metadata.format, "OGG");
    assert_eq!(bare.metadata.sample_rate, 0);
    assert_eq!(bare.duration_secs_bits, None);
}

#[test]
fn track_metadata() {
    let tags = vec![
        ("artist".to_string(), "A".to_string()),
        ("title".to_string(), "T1".to_string()),
        ("artist".to_string(), "B".to_string()),
    ];
    let m = SampleMetadata::from_track("/x/y.mp3", None, Some(65537), Some(70000), tags);
    assert_eq!(m.format, "MP3");
    assert_eq!(m.sample_rate, 0);
    assert_eq!(m.channels, 1);
    assert_eq!(m.bit_depth, Some(70000u32 as u16));
    assert_eq!(m.tags.len(), 2);
    let artist = m.tags.iter().find(|(k, _)| k == "artist").map(|(_, v)| v.clone());
    assert_eq!(artist.as_deref(), Some("B"));
    let none = SampleMetadata::from_track("/x/y", Some(44100), None, None, Vec::new());
    assert_eq!(none.channels, 0);
    assert_eq!(none.bit_depth, None);
    assert_eq!(none.format, "");
}
