//! The terminal client's interface logic: how each key press changes what is
//! shown and which request it asks the caller to make, and how the outcome
//! of that request is shown.
use vstd::prelude::*;
use crate::model::{ClientConfig, PlaybackMode, Sample, SampleView};
use crate::client::{ApiClient, search_criterion};
use crate::library::{filtered, strictly_sorted, category_set};
use crate::laws::law_filter_without_criteria_lists_all;
use crate::player::{AudioPlayer, flipped};
use crate::ids::{id_text, uuid_text};
use crate::paths::path_file_name;
use crate::text::{concat2, concat3, owned, push_char, pop_char};

verus! {

/// What key presses currently edit.
#[derive(PartialEq, Eq, Structural, Clone, Copy, Debug)]
pub enum InputMode {
    Normal,
    Search,
    Category,
    Message,
}

/// The keys that the interface tells apart.
#[derive(PartialEq, Eq, Structural, Clone, Copy, Debug)]
pub enum Key {
    Char(char),
    Enter,
    Esc,
    Tab,
    Up,
    Down,
    Backspace,
    Other,
}

/// The request that a key press asks the caller to make.
pub enum UiCommand {
    /// Nothing to do.
    Nothing,
    /// Fetch all samples from the server again.
    Sync,
    /// Toggle the sample with id text `id` on the server.
    Toggle { id: String, name: String },
    /// Fetch the file at `url` and play it under the name `name`.
    Play { url: String, name: String },
    /// Add `category` to the sample with id text `id` on the server.
    AddCategory { id: String, category: String, name: String },
}

/// How playing a sample failed.
pub enum PlayError {
    Fetch(String),
    Download(String),
    Playback(String),
}

/// The value of everything the interface shows.
pub struct UiView {
    pub input_mode: InputMode,
    pub search_input: Seq<char>,
    pub category_input: Seq<char>,
    pub message: Seq<char>,
    pub message_timer: u64,
    pub selected_index: usize,
    pub filtered_samples: Seq<SampleView>,
    pub categories: Seq<Seq<char>>,
    pub should_quit: bool,
    pub show_help: bool,
    pub selected_tab: usize,
    pub loading: bool,
    pub server_connected: bool,
}

/// `u` showing `msg` for three ticks.
pub open spec fn with_message(u: UiView, msg: Seq<char>) -> UiView {
    UiView { message: msg, message_timer: 3, ..u }
}

/// Moving `idx` by `delta` within a list of `len` (> 0) entries.
pub open spec fn clamped_index(idx: int, delta: int, len: int) -> int {
    if idx + delta < 0 {
        0
    } else if idx + delta > len - 1 {
        len - 1
    } else {
        idx + delta
    }
}

/// `u` with the selection moved by `delta`.
pub open spec fn moved(u: UiView, delta: int) -> UiView {
    if u.filtered_samples.len() == 0 {
        u
    } else {
        UiView {
            selected_index: clamped_index(
                u.selected_index as int,
                delta,
                u.filtered_samples.len() as int,
            ) as usize,
            ..u
        }
    }
}

/// The selected sample of `u`, if the selection is in range.
pub open spec fn selected_of(u: UiView) -> Option<SampleView> {
    if u.selected_index < u.filtered_samples.len() {
        Some(u.filtered_samples[u.selected_index as int])
    } else {
        None
    }
}

/// The index kept after the list changed to `len` entries.
pub open spec fn kept_index(idx: usize, len: nat) -> usize {
    if idx < len {
        idx
    } else if len == 0 {
        0
    } else {
        (len - 1) as usize
    }
}

/// The samples of the client's cache that its filters list, in order.
pub open spec fn listing(c: ClientConfig) -> Seq<SampleView> {
    filtered(c.samples.deep_view(), search_criterion(c.search@), c.selected_category.deep_view(), None)
}

/// `u` showing the list `list`, with the selection kept in range.
pub open spec fn showing(u: UiView, list: Seq<SampleView>) -> UiView {
    UiView { filtered_samples: list, selected_index: kept_index(u.selected_index, list.len()), ..u }
}

/// `after` holds the same cache and settings as `before`: samples, time of
/// the last sync, server, playback mode and sort order.
pub open spec fn same_cache(before: ClientConfig, after: ClientConfig) -> bool {
    &&& after.samples.deep_view() == before.samples.deep_view()
    &&& after.last_sync == before.last_sync
    &&& after.server_url@ == before.server_url@
    &&& after.playback_mode == before.playback_mode
    &&& after.sort_by == before.sort_by
}

/// `after` is `before` with both filters cleared.
pub open spec fn filters_cleared(before: ClientConfig, after: ClientConfig) -> bool {
    &&& same_cache(before, after)
    &&& after.search@.len() == 0
    &&& after.selected_category is None
}

/// `after` is `before` with the search text set to `search`.
pub open spec fn search_set(before: ClientConfig, after: ClientConfig, search: Seq<char>) -> bool {
    &&& same_cache(before, after)
    &&& after.search@ == search
    &&& after.selected_category.deep_view() == before.selected_category.deep_view()
}

/// The URL of a sample's file under `base`.
pub open spec fn audio_url(base: Seq<char>, path: Seq<char>) -> Seq<char> {
    base + "/samples/"@ + match path_file_name(path) {
        Some(n) => n,
        None => Seq::<char>::empty(),
    }
}

/// What the loop key shows for the mode it switched to.
pub open spec fn loop_text(m: PlaybackMode) -> Seq<char> {
    match m {
        PlaybackMode::Once => "Loop: OFF"@,
        PlaybackMode::Loop => "Loop: ON"@,
    }
}

/// The state of the interface around the client's `state`, `api` and
/// optional `player`.
pub struct App<S, A, O> {
    pub state: S,
    pub api: ApiClient<A>,
    pub player: Option<AudioPlayer<O>>,
    pub input_mode: InputMode,
    pub search_input: String,
    pub category_input: String,
    pub message: String,
    pub message_timer: u64,
    pub selected_index: usize,
    pub filtered_samples: Vec<Sample>,
    pub categories: Vec<String>,
    pub should_quit: bool,
    pub show_help: bool,
    pub selected_tab: usize,
    pub loading: bool,
    pub server_connected: bool,
}

impl<S, A, O> App<S, A, O> {
    /// The value of everything the interface shows.
    pub open spec fn ui(&self) -> UiView {
        UiView {
            input_mode: self.input_mode,
            search_input: self.search_input@,
            category_input: self.category_input@,
            message: self.message@,
            message_timer: self.message_timer,
            selected_index: self.selected_index,
            filtered_samples: self.filtered_samples.deep_view(),
            categories: self.categories.deep_view(),
            should_quit: self.should_quit,
            show_help: self.show_help,
            selected_tab: self.selected_tab,
            loading: self.loading,
            server_connected: self.server_connected,
        }
    }

    /// The playback mode of the player, if there is one.
    pub open spec fn player_mode(&self) -> Option<PlaybackMode> {
        match self.player {
            Some(p) => Some(p.playback_mode),
            None => None,
        }
    }

    /// The interface at start: normal mode, nothing shown, first tab.
    pub fn new(state: S, api: ApiClient<A>, player: Option<AudioPlayer<O>>) -> (r: Self)
        ensures
            r.state == state,
            r.api == api,
            r.player == player,
            r.ui() == (UiView {
                input_mode: InputMode::Normal,
                search_input: Seq::empty(),
                category_input: Seq::empty(),
                message: Seq::empty(),
                message_timer: 0,
                selected_index: 0,
                filtered_samples: Seq::empty(),
                categories: Seq::empty(),
                should_quit: false,
                show_help: false,
                selected_tab: 0,
                loading: false,
                server_connected: false,
            }),
    {
        let r = App {
            state,
            api,
            player,
            input_mode: InputMode::Normal,
            search_input: String::new(),
            category_input: String::new(),
            message: String::new(),
            message_timer: 0,
            selected_index: 0,
            filtered_samples: Vec::new(),
            categories: Vec::new(),
            should_quit: false,
            show_help: false,
            selected_tab: 0,
            loading: false,
            server_connected: false,
        };
        assert(r.filtered_samples.deep_view() =~= Seq::<SampleView>::empty());
        assert(r.categories.deep_view() =~= Seq::<Seq<char>>::empty());
        r
    }

    /// Shows `msg` for three ticks.
    pub fn set_message(&mut self, msg: String)
        ensures
            final(self).ui() == with_message(old(self).ui(), msg@),
            final(self).state == old(self).state,
            final(self).api == old(self).api,
            final(self).player == old(self).player,
    {
        self.message = msg;
        self.message_timer = 3;
    }

    /// One tick of the message timer.
    pub fn tick(&mut self)
        ensures
            final(self).ui() == (UiView {
                message_timer: if old(self).message_timer > 0 {
                    (old(self).message_timer - 1) as u64
                } else {
                    0
                },
                ..old(self).ui()
            }),
            final(self).state == old(self).state,
            final(self).api == old(self).api,
            final(self).player == old(self).player,
    {
        if self.message_timer > 0 {
            self.message_timer = self.message_timer - 1;
        }
    }

    /// Shows a new filtered list, keeping the selection in range.
    pub fn update_filtered_samples(&mut self, filtered: Vec<Sample>)
        ensures
            final(self).ui() == (UiView {
                filtered_samples: filtered.deep_view(),
                selected_index: kept_index(old(self).selected_index, filtered@.len()),
                ..old(self).ui()
            }),
            final(self).state == old(self).state,
            final(self).api == old(self).api,
            final(self).player == old(self).player,
    {
        self.filtered_samples = filtered;
        if self.selected_index >= self.filtered_samples.len() {
            self.selected_index = if self.filtered_samples.len() == 0 {
                0
            } else {
                self.filtered_samples.len() - 1
            };
        }
    }

    /// Moves the selection by `delta`, staying within the list.
    pub fn move_selection(&mut self, delta: isize)
        ensures
            final(self).ui() == moved(old(self).ui(), delta as int),
            final(self).state == old(self).state,
            final(self).api == old(self).api,
            final(self).player == old(self).player,
    {
        let len = self.filtered_samples.len();
        if len == 0 {
            return;
        }
        let idx = self.selected_index;
        let max = len - 1;
        let next: usize = if delta >= 0 {
            let d = delta as usize;
            if idx > max || d > max - idx {
                max
            } else {
                idx + d
            }
        } else {
            let d: usize = (-(delta + 1)) as usize + 1;
            if d > idx {
                0
            } else if idx - d > max {
                max
            } else {
                idx - d
            }
        };
        self.selected_index = next;
    }

    /// A copy of the selected sample, if the selection is in range.
    pub fn get_selected_sample(&self) -> (r: Option<Sample>)
        ensures
            r.deep_view() == selected_of(self.ui()),
    {
        if self.selected_index < self.filtered_samples.len() {
            Some(self.filtered_samples[self.selected_index].duplicate())
        } else {
            None
        }
    }

    /// The number of listed samples and of the enabled ones among them.
    pub fn status_counts(&self) -> (r: (usize, usize))
        ensures
            r.0 == self.filtered_samples@.len(),
            r.1 == self.filtered_samples.deep_view().filter(|s: SampleView| s.enabled).len(),
    {
        let ghost all = self.filtered_samples.deep_view();
        let ghost pred = |s: SampleView| s.enabled;
        let mut n: usize = 0;
        let mut i: usize = 0;
        assert(all.take(0) =~= Seq::<SampleView>::empty());
        while i < self.filtered_samples.len()
            invariant
                all == self.filtered_samples.deep_view(),
                i <= all.len(),
                n == all.take(i as int).filter(pred).len(),
                n <= i,
                pred == (|s: SampleView| s.enabled),
            decreases self.filtered_samples.len() - i,
        {
            assert(all.take(i + 1) =~= all.take(i as int).push(all[i as int]));
            proof {
                all.take(i as int).lemma_filter_push(all[i as int], pred);
            }
            if self.filtered_samples[i].enabled {
                n = n + 1;
            }
            i = i + 1;
        }
        assert(all.take(i as int) =~= all);
        (self.filtered_samples.len(), n)
    }

    /// The footer: the message while its timer runs, else the key summary.
    pub fn footer_text(&self) -> (r: String)
        ensures
            self.message_timer > 0 ==> r@ == self.message@,
            self.message_timer == 0 ==> r@
                == "[/]search [c]category [r]resync [e]enable [space]play [l]loop [?]help [q]quit"@,
    {
        if self.message_timer > 0 {
            self.message.clone()
        } else {
            owned("[/]search [c]category [r]resync [e]enable [space]play [l]loop [?]help [q]quit")
        }
    }

    /// Handles a key press in the current mode, on the client's cached
    /// configuration `config`; a key in message mode only returns to normal
    /// mode.
    pub fn handle_key(&mut self, config: &mut ClientConfig, key: Key) -> (r: UiCommand)
        ensures
            final(self).state == old(self).state,
            final(self).api == old(self).api,
            old(self).input_mode == InputMode::Message ==> final(self).ui() == (UiView {
                input_mode: InputMode::Normal,
                ..old(self).ui()
            }) && r is Nothing && final(self).player == old(self).player && *final(config) == *old(
                config,
            ),
            old(self).input_mode == InputMode::Normal ==> normal_key_done(
                *old(self),
                *final(self),
                *old(config),
                *final(config),
                key,
                r,
            ),
            old(self).input_mode == InputMode::Search ==> search_key_done(
                *old(self),
                *final(self),
                *old(config),
                *final(config),
                key,
                r,
            ),
            old(self).input_mode == InputMode::Category ==> category_key_done(
                *old(self),
                *final(self),
                key,
                r,
            ) && *final(config) == *old(config),
    {
        match self.input_mode {
            InputMode::Normal => self.handle_normal_key(config, key),
            InputMode::Search => self.handle_search_key(config, key),
            InputMode::Category => self.handle_category_key(key),
            InputMode::Message => {
                self.input_mode = InputMode::Normal;
                UiCommand::Nothing
            },
        }
    }

    /// Shows the samples that `config`'s filters list.
    fn refilter(&mut self, config: &ClientConfig)
        ensures
            final(self).ui() == showing(old(self).ui(), listing(*config)),
            final(self).state == old(self).state,
            final(self).api == old(self).api,
            final(self).player == old(self).player,
    {
        let list = config.get_filtered_samples();
        self.update_filtered_samples(list);
    }

    /// Handles a key press in normal mode: while the help is shown any key
    /// closes it; Esc clears both filters and lists every cached sample.
    pub fn handle_normal_key(&mut self, config: &mut ClientConfig, key: Key) -> (r: UiCommand)
        ensures
            final(self).state == old(self).state,
            final(self).api == old(self).api,
            normal_key_done(*old(self), *final(self), *old(config), *final(config), key, r),
    {
        if self.show_help {
            self.show_help = false;
            return UiCommand::Nothing;
        }
        match key {
            Key::Char('q') => {
                self.should_quit = true;
                UiCommand::Nothing
            },
            Key::Char('/') => {
                self.input_mode = InputMode::Search;
                self.search_input = String::new();
                UiCommand::Nothing
            },
            Key::Char('c') => {
                self.input_mode = InputMode::Category;
                self.category_input = String::new();
                UiCommand::Nothing
            },
            Key::Char('r') => UiCommand::Sync,
            Key::Char('e') => {
                match self.get_selected_sample() {
                    Some(s) => UiCommand::Toggle { id: id_text(s.id), name: s.name },
                    None => UiCommand::Nothing,
                }
            },
            Key::Char(' ') => {
                match self.get_selected_sample() {
                    Some(s) => {
                        if self.player.is_some() {
                            let url = self.api.get_audio_url(s.path.as_str());
                            UiCommand::Play { url, name: s.name }
                        } else {
                            self.set_message(owned("No audio player available"));
                            UiCommand::Nothing
                        }
                    },
                    None => UiCommand::Nothing,
                }
            },
            Key::Char('l') => {
                let mut player = self.player.take();
                match &mut player {
                    Some(p) => {
                        p.toggle_loop();
                        let text = match p.get_playback_mode() {
                            PlaybackMode::Once => owned("Loop: OFF"),
                            PlaybackMode::Loop => owned("Loop: ON"),
                        };
                        self.player = player;
                        self.set_message(text);
                    },
                    None => {
                        self.player = player;
                    },
                }
                UiCommand::Nothing
            },
            Key::Esc => {
                config.set_category(None);
                config.set_search(String::new());
                self.refilter(config);
                proof {
                    law_filter_without_criteria_lists_all(config.samples.deep_view());
                }
                UiCommand::Nothing
            },
            Key::Tab => {
                self.selected_tab = (self.selected_tab % 2 + 1) % 2;
                UiCommand::Nothing
            },
            Key::Down | Key::Char('j') => {
                self.move_selection(1);
                UiCommand::Nothing
            },
            Key::Up | Key::Char('k') => {
                self.move_selection(-1);
                UiCommand::Nothing
            },
            Key::Char('1') => {
                self.selected_tab = 0;
                UiCommand::Nothing
            },
            Key::Char('2') => {
                self.selected_tab = 1;
                UiCommand::Nothing
            },
            Key::Char('?') => {
                self.show_help = !self.show_help;
                UiCommand::Nothing
            },
            _ => UiCommand::Nothing,
        }
    }

    /// Handles a key press while the search text is edited: Enter applies
    /// the typed text as the search and lists what it finds, Esc cancels.
    pub fn handle_search_key(&mut self, config: &mut ClientConfig, key: Key) -> (r: UiCommand)
        ensures
            final(self).state == old(self).state,
            final(self).api == old(self).api,
            search_key_done(*old(self), *final(self), *old(config), *final(config), key, r),
    {
        match key {
            Key::Enter => {
                config.set_search(self.search_input.clone());
                self.refilter(config);
                self.input_mode = InputMode::Normal;
                if !self.search_input.as_str().is_empty() {
                    let msg = concat2("Search: ", self.search_input.as_str());
                    self.set_message(msg);
                }
                UiCommand::Nothing
            },
            Key::Esc => {
                self.input_mode = InputMode::Normal;
                UiCommand::Nothing
            },
            Key::Char(c) => {
                push_char(&mut self.search_input, c);
                UiCommand::Nothing
            },
            Key::Backspace => {
                pop_char(&mut self.search_input);
                UiCommand::Nothing
            },
            _ => UiCommand::Nothing,
        }
    }

    /// Handles a key press while a category for the selected sample is typed.
    pub fn handle_category_key(&mut self, key: Key) -> (r: UiCommand)
        ensures
            final(self).state == old(self).state,
            final(self).api == old(self).api,
            category_key_done(*old(self), *final(self), key, r),
    {
        match key {
            Key::Enter => {
                let mut cmd = UiCommand::Nothing;
                if !self.category_input.as_str().is_empty() {
                    match self.get_selected_sample() {
                        Some(s) => {
                            cmd = UiCommand::AddCategory {
                                id: id_text(s.id),
                                category: self.category_input.clone(),
                                name: s.name,
                            };
                        },
                        None => {},
                    }
                }
                self.input_mode = InputMode::Normal;
                cmd
            },
            Key::Esc => {
                self.input_mode = InputMode::Normal;
                UiCommand::Nothing
            },
            Key::Char(c) => {
                push_char(&mut self.category_input, c);
                UiCommand::Nothing
            },
            Key::Backspace => {
                pop_char(&mut self.category_input);
                UiCommand::Nothing
            },
            _ => UiCommand::Nothing,
        }
    }

    /// Shows the outcome of toggling the sample named `name`; asks for a sync
    /// where it succeeded.
    pub fn on_toggle_result(&mut self, name: &str, result: Result<bool, String>) -> (r: UiCommand)
        ensures
            final(self).state == old(self).state,
            final(self).api == old(self).api,
            final(self).player == old(self).player,
            match result {
                Ok(en) => r is Sync && final(self).ui() == with_message(
                    old(self).ui(),
                    name@ + " "@ + if en {
                        "enabled"@
                    } else {
                        "disabled"@
                    },
                ),
                Err(e) => r is Nothing && final(self).ui() == with_message(
                    old(self).ui(),
                    "Toggle failed: "@ + e@,
                ),
            },
    {
        match result {
            Ok(en) => {
                let msg = concat3(name, " ", if en { "enabled" } else { "disabled" });
                self.set_message(msg);
                UiCommand::Sync
            },
            Err(e) => {
                let msg = concat2("Toggle failed: ", e.as_str());
                self.set_message(msg);
                UiCommand::Nothing
            },
        }
    }

    /// Shows the outcome of adding `category` to the sample named `name`; asks
    /// for a sync where it succeeded.
    pub fn on_category_result(&mut self, name: &str, category: &str, result: Result<bool, String>) -> (r:
        UiCommand)
        ensures
            final(self).state == old(self).state,
            final(self).api == old(self).api,
            final(self).player == old(self).player,
            match result {
                Ok(_) => r is Sync && final(self).ui() == with_message(
                    old(self).ui(),
                    "Added category '"@ + category@ + "' to "@ + name@,
                ),
                Err(e) => r is Nothing && final(self).ui() == with_message(
                    old(self).ui(),
                    "Failed: "@ + e@,
                ),
            },
    {
        match result {
            Ok(_) => {
                let a = concat3("Added category '", category, "' to ");
                let msg = concat2(a.as_str(), name);
                self.set_message(msg);
                UiCommand::Sync
            },
            Err(e) => {
                let msg = concat2("Failed: ", e.as_str());
                self.set_message(msg);
                UiCommand::Nothing
            },
        }
    }

    /// Shows how playing a sample failed.
    pub fn on_play_error(&mut self, err: PlayError)
        ensures
            final(self).state == old(self).state,
            final(self).api == old(self).api,
            final(self).player == old(self).player,
            final(self).ui() == with_message(
                old(self).ui(),
                match err {
                    PlayError::Fetch(e) => "Fetch error: "@ + e@,
                    PlayError::Download(e) => "Download error: "@ + e@,
                    PlayError::Playback(e) => "Playback error: "@ + e@,
                },
            ),
    {
        let msg = match err {
            PlayError::Fetch(e) => concat2("Fetch error: ", e.as_str()),
            PlayError::Download(e) => concat2("Download error: ", e.as_str()),
            PlayError::Playback(e) => concat2("Playback error: ", e.as_str()),
        };
        self.set_message(msg);
    }

    /// One sync with the server, given its replies: `connected` is whether it
    /// answered the health check, and `fetched` its reply to the listing of
    /// all samples where that was asked for (it is asked for only when the
    /// server answered). Fetched samples replace the cache at time `now`;
    /// then the categories and the list are shown again from the cache.
    pub fn sync_samples(
        &mut self,
        config: &mut ClientConfig,
        connected: bool,
        fetched: Option<Result<Vec<Sample>, String>>,
        now: u64,
    )
        ensures
            final(self).state == old(self).state,
            final(self).api == old(self).api,
            final(self).player == old(self).player,
            match fetched {
                Some(Ok(v)) if connected => {
                    &&& final(config).samples.deep_view() == v.deep_view()
                    &&& final(config).last_sync == Some(now)
                    &&& final(config).search@ == old(config).search@
                    &&& final(config).selected_category.deep_view() == old(
                        config,
                    ).selected_category.deep_view()
                    &&& final(config).server_url@ == old(config).server_url@
                    &&& final(config).playback_mode == old(config).playback_mode
                    &&& final(config).sort_by == old(config).sort_by
                },
                _ => *final(config) == *old(config),
            },
            strictly_sorted(final(self).ui().categories),
            final(self).ui().categories.to_set() == category_set(final(config).samples.deep_view()),
            final(self).ui() == sync_shown(
                UiView {
                    server_connected: connected,
                    loading: false,
                    categories: final(self).ui().categories,
                    ..showing(old(self).ui(), listing(*final(config)))
                },
                connected,
                match fetched {
                    Some(Ok(_)) => Some(Ok(())),
                    Some(Err(e)) => Some(Err(e@)),
                    None => None,
                },
            ),
    {
        self.loading = true;
        self.server_connected = connected;
        if connected {
            match fetched {
                Some(Ok(samples)) => {
                    config.set_samples(samples, now);
                    self.set_message(owned("Synced samples from server"));
                },
                Some(Err(e)) => {
                    let msg = concat2("Sync failed: ", e.as_str());
                    self.set_message(msg);
                },
                None => {},
            }
        } else {
            self.set_message(owned("Cannot connect to server"));
        }
        self.categories = config.get_all_categories();
        self.refilter(config);
        self.loading = false;
    }
}

/// What a sync shows in its message: that the server could not be reached,
/// that the samples were fetched, or why fetching them failed (`outcome` is the
/// listing's outcome, where it was asked for).
pub open spec fn sync_shown(
    w: UiView,
    connected: bool,
    outcome: Option<Result<(), Seq<char>>>,
) -> UiView {
    if !connected {
        with_message(w, "Cannot connect to server"@)
    } else {
        match outcome {
            Some(Ok(_)) => with_message(w, "Synced samples from server"@),
            Some(Err(e)) => with_message(w, "Sync failed: "@ + e),
            None => w,
        }
    }
}

/// What a key press in normal mode does, with the client's configuration
/// going from `cb` to `ca`: while the help is shown the key only closes it;
/// Esc clears both filters and lists every cached sample; other keys leave the
/// configuration as it was.
pub open spec fn normal_key_done<S, A, O>(
    before: App<S, A, O>,
    after: App<S, A, O>,
    cb: ClientConfig,
    ca: ClientConfig,
    key: Key,
    r: UiCommand,
) -> bool {
    let u = before.ui();
    let v = after.ui();
    let same_player = after.player == before.player;
    if u.show_help {
        v == UiView { show_help: false, ..u } && r is Nothing && same_player && ca == cb
    } else if key is Esc {
        &&& filters_cleared(cb, ca)
        &&& v == showing(u, cb.samples.deep_view())
        &&& r is Nothing
        &&& same_player
    } else {
        ca == cb && normal_key_effect(before, after, key, r)
    }
}

/// What a key other than Esc does in normal mode while the help is hidden.
pub open spec fn normal_key_effect<S, A, O>(
    before: App<S, A, O>,
    after: App<S, A, O>,
    key: Key,
    r: UiCommand,
) -> bool {
    let u = before.ui();
    let v = after.ui();
    let same_player = after.player == before.player;
    match key {
        Key::Char(c) => if c == 'q' {
            v == UiView { should_quit: true, ..u } && r is Nothing && same_player
        } else if c == '/' {
            v == UiView { input_mode: InputMode::Search, search_input: Seq::empty(), ..u }
                && r is Nothing && same_player
        } else if c == 'c' {
            v == UiView { input_mode: InputMode::Category, category_input: Seq::empty(), ..u }
                && r is Nothing && same_player
        } else if c == 'r' {
            v == u && r is Sync && same_player
        } else if c == 'e' {
            &&& v == u
            &&& same_player
            &&& match selected_of(u) {
                Some(s) => r matches UiCommand::Toggle { id, name } && id@ == uuid_text(s.id)
                    && name@ == s.name,
                None => r is Nothing,
            }
        } else if c == ' ' {
            &&& same_player
            &&& match selected_of(u) {
                Some(s) => if before.player is Some {
                    &&& v == u
                    &&& (r matches UiCommand::Play { url, name } && url@ == audio_url(
                        before.api.base_url@,
                        s.path,
                    ) && name@ == s.name)
                } else {
                    v == with_message(u, "No audio player available"@) && r is Nothing
                },
                None => v == u && r is Nothing,
            }
        } else if c == 'l' {
            &&& r is Nothing
            &&& match before.player {
                Some(p) => {
                    &&& v == with_message(u, loop_text(flipped(p.playback_mode)))
                    &&& (after.player matches Some(q) && q.playback_mode == flipped(p.playback_mode)
                        && q.output == p.output && q.currently_playing == p.currently_playing)
                },
                None => after.player is None && v == u,
            }
        } else if c == 'j' {
            v == moved(u, 1) && r is Nothing && same_player
        } else if c == 'k' {
            v == moved(u, -1) && r is Nothing && same_player
        } else if c == '1' {
            v == UiView { selected_tab: 0, ..u } && r is Nothing && same_player
        } else if c == '2' {
            v == UiView { selected_tab: 1, ..u } && r is Nothing && same_player
        } else if c == '?' {
            v == UiView { show_help: !u.show_help, ..u } && r is Nothing && same_player
        } else {
            v == u && r is Nothing && same_player
        },
        Key::Tab => v == UiView { selected_tab: ((u.selected_tab + 1) % 2) as usize, ..u }
            && r is Nothing && same_player,
        Key::Down => v == moved(u, 1) && r is Nothing && same_player,
        Key::Up => v == moved(u, -1) && r is Nothing && same_player,
        _ => v == u && r is Nothing && same_player,
    }
}

/// What a key press does while the search text is edited, with the
/// client's configuration going from `cb` to `ca`: Enter sets the search to
/// the typed text and lists the samples it finds; Esc only leaves the popup.
pub open spec fn search_key_done<S, A, O>(
    before: App<S, A, O>,
    after: App<S, A, O>,
    cb: ClientConfig,
    ca: ClientConfig,
    key: Key,
    r: UiCommand,
) -> bool {
    let u = before.ui();
    let v = after.ui();
    &&& after.player == before.player
    &&& r is Nothing
    &&& (key is Enter ==> search_set(cb, ca, u.search_input))
    &&& (!(key is Enter) ==> ca == cb)
    &&& match key {
        Key::Enter => {
            let w = UiView { input_mode: InputMode::Normal, ..showing(u, listing(ca)) };
            if u.search_input.len() == 0 {
                v == w
            } else {
                v == with_message(w, "Search: "@ + u.search_input)
            }
        },
        Key::Esc => v == UiView { input_mode: InputMode::Normal, ..u },
        Key::Char(c) => v == UiView { search_input: u.search_input.push(c), ..u } && r is Nothing,
        Key::Backspace => v == UiView {
            search_input: if u.search_input.len() > 0 {
                u.search_input.drop_last()
            } else {
                u.search_input
            },
            ..u
        } && r is Nothing,
        _ => v == u && r is Nothing,
    }
}

/// What a key press does while a category is typed.
pub open spec fn category_key_done<S, A, O>(
    before: App<S, A, O>,
    after: App<S, A, O>,
    key: Key,
    r: UiCommand,
) -> bool {
    let u = before.ui();
    let v = after.ui();
    &&& after.player == before.player
    &&& match key {
        Key::Enter => {
            &&& v == UiView { input_mode: InputMode::Normal, ..u }
            &&& if u.category_input.len() > 0 && selected_of(u) is Some {
                r matches UiCommand::AddCategory { id, category, name } && id@ == uuid_text(
                    selected_of(u)->0.id,
                ) && category@ == u.category_input && name@ == selected_of(u)->0.name
            } else {
                r is Nothing
            }
        },
        Key::Esc => v == UiView { input_mode: InputMode::Normal, ..u } && r is Nothing,
        Key::Char(c) => v == UiView { category_input: u.category_input.push(c), ..u }
            && r is Nothing,
        Key::Backspace => v == UiView {
            category_input: if u.category_input.len() > 0 {
                u.category_input.drop_last()
            } else {
                u.category_input
            },
            ..u
        } && r is Nothing,
        _ => v == u && r is Nothing,
    }
}

} // verus!
