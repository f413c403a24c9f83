//! The texts that the terminal client draws: the rows of the sample list, the
//! fields of the preview and the status lines. Numbers of seconds and beats
//! per minute arrive already written out, each in the form its place needs.
use vstd::prelude::*;
use crate::model::{PlaybackMode, Sample, SampleView};
use crate::client::joined;
use crate::ui::App;
use crate::player::AudioPlayer;
use crate::text::{concat2, concat3, decimal, decimal_string, owned, push_char};

verus! {

broadcast use vstd::seq_lib::group_seq_properties;

/// `n` spaces.
pub open spec fn spaces(n: nat) -> Seq<char> {
    Seq::new(n, |i: int| ' ')
}

/// `s` followed by spaces up to `width` characters (`{:<width}`).
pub open spec fn pad_right(s: Seq<char>, width: nat) -> Seq<char> {
    if s.len() >= width {
        s
    } else {
        s + spaces((width - s.len()) as nat)
    }
}

/// `s` preceded by spaces up to `width` characters (`{:>width}`).
pub open spec fn pad_left(s: Seq<char>, width: nat) -> Seq<char> {
    if s.len() >= width {
        s
    } else {
        spaces((width - s.len()) as nat) + s
    }
}

/// The text given, or `default` where there is none.
pub open spec fn or_text(t: Option<Seq<char>>, default: Seq<char>) -> Seq<char> {
    match t {
        Some(x) => x,
        None => default,
    }
}

/// The mark of an enabled or a disabled sample.
pub open spec fn enabled_mark(enabled: bool) -> Seq<char> {
    if enabled {
        " ●"@
    } else {
        " ○"@
    }
}

/// A sample's categories after its name in the list: nothing, or the
/// categories in brackets, separated by commas.
pub open spec fn category_suffix(cats: Seq<Seq<char>>) -> Seq<char> {
    if cats.len() == 0 {
        Seq::empty()
    } else {
        " ["@ + joined(cats, ", "@) + "]"@
    }
}

/// The row of sample `s` in the list, with its duration text `dur` and tempo
/// text `bpm` where it has them: the mark, the name padded to 30 characters,
/// the duration right-aligned in 6, the tempo (or `--`) right-aligned in 5,
/// then the categories.
pub open spec fn row_text(s: SampleView, dur: Option<Seq<char>>, bpm: Option<Seq<char>>) -> Seq<
    char,
> {
    enabled_mark(s.enabled) + " "@ + pad_right(s.name, 30) + " "@ + pad_left(
        or_text(dur, Seq::empty()),
        6,
    ) + " "@ + pad_left(or_text(bpm, "--"@), 5) + category_suffix(s.categories)
}

/// The labelled fields of the preview of sample `s`, in order, with its
/// duration text `dur` and tempo text `bpm` where it has them.
pub open spec fn preview_text(s: SampleView, dur: Option<Seq<char>>, bpm: Option<Seq<char>>) -> Seq<
    (Seq<char>, Seq<char>),
> {
    seq![
        ("Name: "@, s.name),
        ("Path: "@, s.path),
        ("Format: "@, s.metadata.format),
        ("Duration: "@, or_text(dur, "Unknown"@)),
        ("Sample Rate: "@, decimal(s.metadata.sample_rate as nat) + " Hz"@),
        ("Channels: "@, decimal(s.metadata.channels as nat)),
        ("Bit Depth: "@, match s.metadata.bit_depth {
            Some(b) => decimal(b as nat),
            None => "Unknown"@,
        }),
        ("BPM: "@, or_text(bpm, "Not analyzed"@)),
        ("Enabled: "@, if s.enabled {
            "Yes"@
        } else {
            "No"@
        }),
        ("Categories: "@, if s.categories.len() == 0 {
            "None"@
        } else {
            joined(s.categories, ", "@)
        }),
    ]
}

/// The preview's lines for the tags of sample `s`: each key followed by
/// `: ` as the label, and its value.
pub open spec fn tag_text(s: SampleView) -> Seq<(Seq<char>, Seq<char>)> {
    s.metadata.tags.map_values(|t: (Seq<char>, Seq<char>)| (t.0 + ": "@, t.1))
}

/// `parts` joined with `sep` between neighbours.
pub fn join_texts(parts: &Vec<String>, sep: &str) -> (r: String)
    ensures
        r@ == joined(parts.deep_view(), sep@),
{
    if parts.len() == 0 {
        return String::new();
    }
    let mut out = parts[0].clone();
    let mut i: usize = 1;
    assert(parts.deep_view().take(1) =~= seq![parts.deep_view()[0]]);
    while i < parts.len()
        invariant
            1 <= i <= parts@.len(),
            out@ == joined(parts.deep_view().take(i as int), sep@),
        decreases parts.len() - i,
    {
        let next = concat3(out.as_str(), sep, parts[i].as_str());
        out = next;
        assert(parts.deep_view().take(i + 1).drop_last() =~= parts.deep_view().take(i as int));
        i = i + 1;
    }
    assert(parts.deep_view().take(i as int) =~= parts.deep_view());
    out
}

/// Appends spaces to `s` up to `width` characters.
fn pad_right_text(s: &str, width: usize) -> (r: String)
    ensures
        r@ == pad_right(s@, width as nat),
{
    let mut out = owned(s);
    let len = s.unicode_len();
    let mut n = len;
    while n < width
        invariant
            len == s@.len(),
            len <= n,
            n <= len || n <= width,
            out@ == s@ + spaces((n - len) as nat),
        decreases width - n,
    {
        push_char(&mut out, ' ');
        n = n + 1;
        assert(out@ =~= s@ + spaces((n - len) as nat));
    }
    if len >= width {
        assert(out@ =~= s@);
    }
    out
}

/// Puts spaces before `s` up to `width` characters.
fn pad_left_text(s: &str, width: usize) -> (r: String)
    ensures
        r@ == pad_left(s@, width as nat),
{
    let mut pad = String::new();
    let len = s.unicode_len();
    let mut n = len;
    while n < width
        invariant
            len == s@.len(),
            len <= n,
            n <= len || n <= width,
            pad@ == spaces((n - len) as nat),
        decreases width - n,
    {
        push_char(&mut pad, ' ');
        n = n + 1;
        assert(pad@ =~= spaces((n - len) as nat));
    }
    if len >= width {
        assert(pad@ =~= Seq::<char>::empty());
    }
    let r = concat2(pad.as_str(), s);
    assert(len >= width ==> r@ =~= s@);
    r
}

/// The text of an optional value, or `default`.
fn text_or(t: Option<&str>, default: &str) -> (r: String)
    ensures
        r@ == or_text(t.deep_view(), default@),
{
    match t {
        Some(x) => owned(x),
        None => owned(default),
    }
}

/// The row of `sample` in the sample list; `duration_text` and `bpm_text`
/// are its duration and tempo written out, where it has them.
pub fn list_row(sample: &Sample, duration_text: Option<&str>, bpm_text: Option<&str>) -> (r: String)
    requires
        duration_text is Some <==> sample.duration_secs_bits is Some,
        bpm_text is Some <==> sample.bpm_bits is Some,
    ensures
        r@ == row_text(sample@, duration_text.deep_view(), bpm_text.deep_view()),
{
    let mark = if sample.enabled {
        " ●"
    } else {
        " ○"
    };
    let name = pad_right_text(sample.name.as_str(), 30);
    let dur_raw = text_or(duration_text, "");
    let dur = pad_left_text(dur_raw.as_str(), 6);
    let bpm_raw = text_or(bpm_text, "--");
    let bpm = pad_left_text(bpm_raw.as_str(), 5);
    let cats = if sample.categories.len() == 0 {
        String::new()
    } else {
        let j = join_texts(&sample.categories, ", ");
        concat3(" [", j.as_str(), "]")
    };
    let a = concat3(mark, " ", name.as_str());
    let b = concat3(a.as_str(), " ", dur.as_str());
    let c = concat3(b.as_str(), " ", bpm.as_str());
    let r = concat2(c.as_str(), cats.as_str());
    proof {
        assert(Seq::<char>::empty() =~= ""@) by {
            reveal_strlit("");
        }
    }
    assert(r@ =~= row_text(sample@, duration_text.deep_view(), bpm_text.deep_view()));
    r
}

/// The labelled fields of the preview of `sample`; `duration_text` and
/// `bpm_text` are its duration and tempo written out, where it has them.
pub fn preview_fields(sample: &Sample, duration_text: Option<&str>, bpm_text: Option<&str>) -> (r: Vec<
    (String, String),
>)
    requires
        duration_text is Some <==> sample.duration_secs_bits is Some,
        bpm_text is Some <==> sample.bpm_bits is Some,
    ensures
        r.deep_view() == preview_text(sample@, duration_text.deep_view(), bpm_text.deep_view()),
{
    let m = &sample.metadata;
    let mut r: Vec<(String, String)> = Vec::new();
    r.push((owned("Name: "), sample.name.clone()));
    r.push((owned("Path: "), sample.path.clone()));
    r.push((owned("Format: "), m.format.clone()));
    r.push((owned("Duration: "), text_or(duration_text, "Unknown")));
    let rate = decimal_string(m.sample_rate as u64);
    r.push((owned("Sample Rate: "), concat2(rate.as_str(), " Hz")));
    r.push((owned("Channels: "), decimal_string(m.channels as u64)));
    let depth = match m.bit_depth {
        Some(b) => decimal_string(b as u64),
        None => owned("Unknown"),
    };
    r.push((owned("Bit Depth: "), depth));
    r.push((owned("BPM: "), text_or(bpm_text, "Not analyzed")));
    r.push((owned("Enabled: "), owned(if sample.enabled { "Yes" } else { "No" })));
    let cats = if sample.categories.len() == 0 {
        owned("None")
    } else {
        join_texts(&sample.categories, ", ")
    };
    r.push((owned("Categories: "), cats));
    assert(r.deep_view() =~= preview_text(
        sample@,
        duration_text.deep_view(),
        bpm_text.deep_view(),
    ));
    r
}

/// The preview's lines for the tags of `sample`, in order: the key and `: `,
/// then the value.
pub fn tag_fields(sample: &Sample) -> (r: Vec<(String, String)>)
    ensures
        r.deep_view() == tag_text(sample@),
{
    let tags = &sample.metadata.tags;
    let mut r: Vec<(String, String)> = Vec::new();
    let mut i: usize = 0;
    while i < tags.len()
        invariant
            i <= tags@.len(),
            r.deep_view() == tag_text(sample@).take(i as int),
            tags.deep_view() == sample@.metadata.tags,
        decreases tags.len() - i,
    {
        let label = concat2(tags[i].0.as_str(), ": ");
        let value = tags[i].1.clone();
        let ghost entry = (label@, value@);
        assert(tag_text(sample@)[i as int] == entry);
        let ghost prev = r.deep_view();
        r.push((label, value));
        assert(r.deep_view() =~= prev.push(entry));
        assert(tag_text(sample@).take(i + 1) =~= tag_text(sample@).take(i as int).push(entry));
        i = i + 1;
        assert(r.deep_view() =~= tag_text(sample@).take(i as int));
    }
    assert(tag_text(sample@).take(i as int) =~= tag_text(sample@));
    r
}

/// How the client stands with the server, as the status line shows it.
#[derive(PartialEq, Eq, Structural, Clone, Copy, Debug)]
pub enum Connection {
    Syncing,
    Connected,
    Disconnected,
}

/// The connection shown while loading, else by whether the server answered.
pub open spec fn connection_of(loading: bool, connected: bool) -> Connection {
    if loading {
        Connection::Syncing
    } else if connected {
        Connection::Connected
    } else {
        Connection::Disconnected
    }
}

/// The word for a connection state.
pub open spec fn connection_text(c: Connection) -> Seq<char> {
    match c {
        Connection::Syncing => "syncing..."@,
        Connection::Connected => "connected"@,
        Connection::Disconnected => "disconnected"@,
    }
}

/// The counts at the start of the status line.
pub open spec fn counts_text(total: nat, enabled: nat) -> Seq<char> {
    decimal(total) + " samples | "@ + decimal(enabled) + " enabled | "@
}

/// The player's line of the status: whether there is a player, what it
/// plays (while `playing`) and in which mode.
pub open spec fn player_text<O>(player: Option<AudioPlayer<O>>, playing: bool) -> Seq<char> {
    match player {
        None => "No player"@,
        Some(p) => if playing {
            "Playing: "@ + or_text(p.currently_playing.deep_view(), "unknown"@) + match p.playback_mode {
                PlaybackMode::Once => Seq::<char>::empty(),
                PlaybackMode::Loop => " [LOOP]"@,
            }
        } else {
            "Player ready ["@ + match p.playback_mode {
                PlaybackMode::Once => "ONCE"@,
                PlaybackMode::Loop => "LOOP"@,
            } + "]"@
        },
    }
}

impl<S, A, O> App<S, A, O> {
    /// How the client stands with the server.
    pub fn connection(&self) -> (r: Connection)
        ensures
            r == connection_of(self.loading, self.server_connected),
    {
        if self.loading {
            Connection::Syncing
        } else if self.server_connected {
            Connection::Connected
        } else {
            Connection::Disconnected
        }
    }

    /// The title of the sample list, with the number of listed samples.
    pub fn list_title(&self) -> (r: String)
        ensures
            r@ == "Samples ("@ + decimal(self.filtered_samples@.len()) + ") [j/k:nav e:toggle space:play l:loop]"@,
    {
        let n = decimal_string(self.filtered_samples.len() as u64);
        concat3("Samples (", n.as_str(), ") [j/k:nav e:toggle space:play l:loop]")
    }

    /// The texts of the status box: the counts of listed and enabled
    /// samples, the connection, and the player's line; `playing` is whether
    /// the player's output is still sounding.
    pub fn status_lines(&self, playing: bool) -> (r: (String, String, String))
        ensures
            r.0@ == counts_text(
                self.filtered_samples@.len(),
                self.filtered_samples.deep_view().filter(|s: SampleView| s.enabled).len(),
            ),
            r.1@ == connection_text(connection_of(self.loading, self.server_connected)),
            r.2@ == player_text(self.player, playing),
    {
        let (total, enabled) = self.status_counts();
        let t = decimal_string(total as u64);
        let e = decimal_string(enabled as u64);
        let a = concat3(t.as_str(), " samples | ", e.as_str());
        let counts = concat2(a.as_str(), " enabled | ");
        let conn = owned(
            match self.connection() {
                Connection::Syncing => "syncing...",
                Connection::Connected => "connected",
                Connection::Disconnected => "disconnected",
            },
        );
        let player = match &self.player {
            None => owned("No player"),
            Some(p) => if playing {
                let name = text_or(p.currently_playing(), "unknown");
                let mode = match p.get_playback_mode() {
                    PlaybackMode::Once => "",
                    PlaybackMode::Loop => " [LOOP]",
                };
                proof {
                    assert(Seq::<char>::empty() =~= ""@) by {
                        reveal_strlit("");
                    }
                }
                concat3("Playing: ", name.as_str(), mode)
            } else {
                let mode = match p.get_playback_mode() {
                    PlaybackMode::Once => "ONCE",
                    PlaybackMode::Loop => "LOOP",
                };
                concat3("Player ready [", mode, "]")
            },
        };
        (counts, conn, player)
    }
}

} // verus!
