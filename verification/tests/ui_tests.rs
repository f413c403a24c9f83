use ssmgr::client::ApiClient;
use ssmgr::model::{ClientConfig, Sample, SampleMetadata};
use ssmgr::player::AudioPlayer;
use ssmgr::ui::{App, InputMode, Key, PlayError, UiCommand};

fn sample(id: u128, name: &str, enabled: bool) -> Sample {
    Sample {
        id,
        name: name.to_string(),
        path: format!("/lib/{}.wav", name),
        duration_secs_bits: None,
        bpm_bits: None,
        categories: Vec::new(),
        enabled,
        metadata: SampleMetadata::empty(),
        last_modified: 0,
    }
}

fn app(player: bool) -> App<(), (), ()> {
    let p = if player { Some(AudioPlayer::new(())) } else { None };
    let mut a = App::new((), ApiClient::new((), "http://srv".to_string()), p);
    a.update_filtered_samples(vec![
        sample(0x550e8400_e29b_41d4_a716_446655440000, "kick", true),
        sample(2, "snare", false),
        sample(3, "hat", true),
    ]);
    a
}

#[test]
fn starts_empty() {
    let a: App<(), (), ()> = App::new((), ApiClient::new((), String::new()), None);
    assert_eq!(a.input_mode, InputMode::Normal);
    assert_eq!(a.selected_index, 0);
    assert_eq!(a.message_timer, 0);
    assert!(!a.should_quit);
    assert_eq!(a.footer_text(), "[/]search [c]category [r]resync [e]enable [space]play [l]loop [?]help [q]quit");
}

#[test]
fn navigation_stays_in_the_list() {
    let mut c = ClientConfig::default();
    let mut a = app(false);
    a.handle_key(&mut c, Key::Up);
    assert_eq!(a.selected_index, 0);
    a.handle_key(&mut c, Key::Down);
    a.handle_key(&mut c, Key::Char('j'));
    a.handle_key(&mut c, Key::Char('j'));
    assert_eq!(a.selected_index, 2);
    a.handle_key(&mut c, Key::Char('k'));
    assert_eq!(a.selected_index, 1);
    a.move_selection(isize::MIN);
    assert_eq!(a.selected_index, 0);
    a.move_selection(isize::MAX);
    assert_eq!(a.selected_index, 2);
    a.update_filtered_samples(vec![sample(9, "only", false)]);
    assert_eq!(a.selected_index, 0);
    a.update_filtered_samples(Vec::new());
    assert_eq!(a.selected_index, 0);
    a.move_selection(1);
    assert_eq!(a.selected_index, 0);
    assert!(a.get_selected_sample().is_none());
}

#[test]
fn tabs_help_and_quit() {
    let mut c = ClientConfig::default();
    let mut a = app(false);
    a.handle_key(&mut c, Key::Tab);
    assert_eq!(a.selected_tab, 1);
    a.handle_key(&mut c, Key::Tab);
    assert_eq!(a.selected_tab, 0);
    a.handle_key(&mut c, Key::Char('2'));
    assert_eq!(a.selected_tab, 1);
    a.handle_key(&mut c, Key::Char('1'));
    assert_eq!(a.selected_tab, 0);
    a.handle_key(&mut c, Key::Char('?'));
    assert!(a.show_help);
    a.handle_key(&mut c, Key::Char('?'));
    assert!(!a.show_help);
    // while the help is shown any key closes it, and does nothing else
    a.handle_key(&mut c, Key::Char('?'));
    assert!(matches!(a.handle_key(&mut c, Key::Char('x')), UiCommand::Nothing));
    assert!(!a.show_help);
    a.handle_key(&mut c, Key::Char('?'));
    assert!(matches!(a.handle_key(&mut c, Key::Char('q')), UiCommand::Nothing));
    assert!(!a.show_help);
    assert!(!a.should_quit);
    a.handle_key(&mut c, Key::Char('?'));
    assert!(matches!(a.handle_key(&mut c, Key::Char('r')), UiCommand::Nothing));
    assert!(matches!(a.handle_key(&mut c, Key::Char('r')), UiCommand::Sync));
    assert!(matches!(a.handle_key(&mut c, Key::Other), UiCommand::Nothing));
    a.handle_key(&mut c, Key::Char('q'));
    assert!(a.should_quit);
}

fn with_category(mut s: Sample, cat: &str) -> Sample {
    s.categories.push(cat.to_string());
    s
}

#[test]
fn search_editing() {
    let mut c = ClientConfig::default();
    c.samples = vec![sample(1, "kick", true), sample(2, "snare", false), sample(3, "kicker", true)];
    let mut a = app(false);
    a.handle_key(&mut c, Key::Char('/'));
    assert_eq!(a.input_mode, InputMode::Search);
    a.handle_key(&mut c, Key::Char('k'));
    a.handle_key(&mut c, Key::Char('x'));
    a.handle_key(&mut c, Key::Backspace);
    a.handle_key(&mut c, Key::Char('I'));
    assert_eq!(a.search_input, "kI");
    assert!(matches!(a.handle_key(&mut c, Key::Enter), UiCommand::Nothing));
    assert_eq!(c.search, "kI");
    let names: Vec<&str> = a.filtered_samples.iter().map(|s| s.name.as_str()).collect();
    assert_eq!(names, vec!["kick", "kicker"]);
    assert_eq!(a.input_mode, InputMode::Normal);
    assert_eq!(a.message, "Search: kI");
    assert_eq!(a.message_timer, 3);
    // an empty search lists everything and shows no message
    let mut b = app(false);
    b.handle_key(&mut c, Key::Char('/'));
    b.handle_key(&mut c, Key::Backspace);
    assert!(matches!(b.handle_key(&mut c, Key::Enter), UiCommand::Nothing));
    assert_eq!(c.search, "");
    assert_eq!(b.filtered_samples.len(), 3);
    assert_eq!(b.message, "");
}

#[test]
fn search_cancelled_with_esc() {
    let mut c = ClientConfig::default();
    c.samples = vec![sample(1, "kick", true), sample(2, "snare", false)];
    let mut a = app(false);
    a.handle_key(&mut c, Key::Char('/'));
    a.handle_key(&mut c, Key::Char('k'));
    a.handle_key(&mut c, Key::Char('i'));
    assert!(matches!(a.handle_key(&mut c, Key::Esc), UiCommand::Nothing));
    assert_eq!(a.input_mode, InputMode::Normal);
    assert_eq!(c.search, "");
    assert_eq!(a.filtered_samples.len(), 3);
    assert_eq!(a.message_timer, 0);
}

#[test]
fn esc_clears_the_filters() {
    let mut c = ClientConfig::default();
    c.samples = vec![with_category(sample(1, "kick", true), "drums"), sample(2, "pad", false)];
    c.search = "kick".to_string();
    c.selected_category = Some("drums".to_string());
    let mut a: App<(), (), ()> = App::new((), ApiClient::new((), "http://h:1".to_string()), None);
    a.update_filtered_samples(c.get_filtered_samples());
    assert_eq!(a.filtered_samples.len(), 1);
    assert!(matches!(a.handle_key(&mut c, Key::Esc), UiCommand::Nothing));
    assert_eq!(c.selected_category, None);
    assert_eq!(c.search, "");
    let names: Vec<&str> = a.filtered_samples.iter().map(|s| s.name.as_str()).collect();
    assert_eq!(names, vec!["kick", "pad"]);
    assert_eq!(a.selected_index, 0);
}

#[test]
fn toggling_the_selected_sample() {
    let mut c = ClientConfig::default();
    let mut a = app(false);
    match a.handle_key(&mut c, Key::Char('e')) {
        UiCommand::Toggle { id, name } => {
            assert_eq!(id, "550e8400-e29b-41d4-a716-446655440000");
            assert_eq!(name, "kick");
        }
        _ => panic!("toggle expected"),
    }
    assert!(matches!(a.on_toggle_result("kick", Ok(false)), UiCommand::Sync));
    assert_eq!(a.message, "kick disabled");
    assert!(matches!(a.on_toggle_result("kick", Err("down".to_string())), UiCommand::Nothing));
    assert_eq!(a.message, "Toggle failed: down");
}

#[test]
fn adding_a_category() {
    let mut c = ClientConfig::default();
    let mut a = app(false);
    a.handle_key(&mut c, Key::Down);
    a.handle_key(&mut c, Key::Char('c'));
    assert_eq!(a.input_mode, InputMode::Category);
    a.handle_key(&mut c, Key::Char('f'));
    a.handle_key(&mut c, Key::Char('x'));
    match a.handle_key(&mut c, Key::Enter) {
        UiCommand::AddCategory { id, category, name } => {
            assert_eq!(id, "00000000-0000-0000-0000-000000000002");
            assert_eq!(category, "fx");
            assert_eq!(name, "snare");
        }
        _ => panic!("category expected"),
    }
    assert_eq!(a.input_mode, InputMode::Normal);
    assert!(matches!(a.on_category_result("snare", "fx", Ok(true)), UiCommand::Sync));
    assert_eq!(a.message, "Added category 'fx' to snare");
    a.on_category_result("snare", "fx", Err("e".to_string()));
    assert_eq!(a.message, "Failed: e");
    // an empty category asks for nothing; Esc leaves the mode
    a.handle_key(&mut c, Key::Char('c'));
    assert!(matches!(a.handle_key(&mut c, Key::Enter), UiCommand::Nothing));
    a.handle_key(&mut c, Key::Char('c'));
    a.handle_key(&mut c, Key::Char('z'));
    assert!(matches!(a.handle_key(&mut c, Key::Esc), UiCommand::Nothing));
    assert_eq!(a.input_mode, InputMode::Normal);
}

#[test]
fn playing_and_looping() {
    let mut c = ClientConfig::default();
    let mut none = app(false);
    assert!(matches!(none.handle_key(&mut c, Key::Char(' ')), UiCommand::Nothing));
    assert_eq!(none.message, "No audio player available");
    none.handle_key(&mut c, Key::Char('l'));
    assert_eq!(none.message, "No audio player available");

    let mut a = app(true);
    match a.handle_key(&mut c, Key::Char(' ')) {
        UiCommand::Play { url, name } => {
            assert_eq!(url, "http://srv/samples/kick.wav");
            assert_eq!(name, "kick");
        }
        _ => panic!("play expected"),
    }
    a.handle_key(&mut c, Key::Char('l'));
    assert_eq!(a.message, "Loop: ON");
    a.handle_key(&mut c, Key::Char('l'));
    assert_eq!(a.message, "Loop: OFF");
    a.on_play_error(PlayError::Fetch("timeout".to_string()));
    assert_eq!(a.message, "Fetch error: timeout");
    a.on_play_error(PlayError::Download("cut".to_string()));
    assert_eq!(a.message, "Download error: cut");
    a.on_play_error(PlayError::Playback("codec".to_string()));
    assert_eq!(a.message, "Playback error: codec");
}

#[test]
fn message_mode_returns_to_normal() {
    let mut c = ClientConfig::default();
    let mut a = app(false);
    a.input_mode = InputMode::Message;
    assert!(matches!(a.handle_key(&mut c, Key::Char('q')), UiCommand::Nothing));
    assert_eq!(a.input_mode, InputMode::Normal);
    assert!(!a.should_quit);
}

#[test]
fn messages_expire() {
    let mut a = app(false);
    a.set_message("hello".to_string());
    assert_eq!(a.footer_text(), "hello");
    a.tick();
    a.tick();
    assert_eq!(a.message_timer, 1);
    a.tick();
    a.tick();
    assert_eq!(a.message_timer, 0);
    assert!(a.footer_text().starts_with("[/]search"));
}

#[test]
fn sync_with_the_server() {
    let mut c = ClientConfig::default();
    c.samples = vec![sample(1, "old", true)];
    c.search = "o".to_string();
    let mut a = app(false);
    a.selected_index = 2;

    // unreachable server: the cache stays, the list is shown from it
    a.sync_samples(&mut c, false, Some(Ok(vec![sample(9, "ignored", true)])), 5);
    assert!(!a.server_connected);
    assert!(!a.loading);
    assert_eq!(a.message, "Cannot connect to server");
    assert_eq!(c.samples.len(), 1);
    assert_eq!(c.last_sync, None);
    assert_eq!(a.filtered_samples.len(), 1);
    assert_eq!(a.selected_index, 0);

    // fetched samples replace the cache; categories and list follow
    let fresh = vec![
        with_category(sample(2, "boom", true), "drums"),
        with_category(with_category(sample(3, "pad", false), "synth"), "ambient"),
        sample(4, "hiss", true),
    ];
    a.sync_samples(&mut c, true, Some(Ok(fresh)), 42);
    assert!(a.server_connected);
    assert_eq!(a.message, "Synced samples from server");
    assert_eq!(c.samples.len(), 3);
    assert_eq!(c.last_sync, Some(42));
    assert_eq!(c.search, "o");
    assert_eq!(a.categories, vec!["ambient", "drums", "synth"]);
    let names: Vec<&str> = a.filtered_samples.iter().map(|s| s.name.as_str()).collect();
    assert_eq!(names, vec!["boom"]);

    // a failed listing keeps the cache
    a.sync_samples(&mut c, true, Some(Err("500".to_string())), 50);
    assert_eq!(a.message, "Sync failed: 500");
    assert_eq!(c.samples.len(), 3);
    assert_eq!(c.last_sync, Some(42));
}

#[test]
fn status_counts() {
    let a = app(false);
    assert_eq!(a.status_counts(), (3, 2));
}
