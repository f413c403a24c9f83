//! The data that the server keeps and the client caches: samples, scan
//! directories, the two configurations and the answer envelope.
use vstd::prelude::*;
use crate::text::{owned, text_eq};

verus! {

/// Categories that the client suggests when one is added to a sample.
pub fn default_categories() -> (r: Vec<&'static str>)
    ensures
        r.deep_view() == seq![
            "drums"@,
            "bass"@,
            "synth"@,
            "vocal"@,
            "fx"@,
            "percussion"@,
            "melody"@,
            "ambient"@,
            "noise"@,
        ],
{
    vec!["drums", "bass", "synth", "vocal", "fx", "percussion", "melody", "ambient", "noise"]
}

/// The file extensions (lower case) of the audio formats that are scanned.
pub open spec fn supported_extension(ext: Seq<char>) -> bool {
    ||| ext == "wav"@
    ||| ext == "mp3"@
    ||| ext == "flac"@
    ||| ext == "ogg"@
    ||| ext == "aac"@
    ||| ext == "m4a"@
}

/// Whether `ext` (already in lower case) names a supported audio format.
pub fn is_supported_extension(ext: &str) -> (r: bool)
    ensures
        r == supported_extension(ext@),
{
    text_eq(ext, "wav") || text_eq(ext, "mp3") || text_eq(ext, "flac") || text_eq(ext, "ogg")
        || text_eq(ext, "aac") || text_eq(ext, "m4a")
}

/// Strings copied one by one, keeping their characters.
pub fn clone_strings(v: &Vec<String>) -> (r: Vec<String>)
    ensures
        r.deep_view() == v.deep_view(),
{
    let mut r: Vec<String> = Vec::new();
    let mut i: usize = 0;
    while i < v.len()
        invariant
            i <= v@.len(),
            r@.len() == i,
            forall|k: int| 0 <= k < i ==> #[trigger] r@[k]@ == v@[k]@,
        decreases v.len() - i,
    {
        r.push(v[i].clone());
        i = i + 1;
    }
    assert(r.deep_view() =~= v.deep_view());
    r
}

/// Pairs of strings copied one by one, keeping their characters.
pub fn clone_pairs(v: &Vec<(String, String)>) -> (r: Vec<(String, String)>)
    ensures
        r.deep_view() == v.deep_view(),
{
    let mut r: Vec<(String, String)> = Vec::new();
    let mut i: usize = 0;
    while i < v.len()
        invariant
            i <= v@.len(),
            r@.len() == i,
            forall|k: int| 0 <= k < i ==> #[trigger] r@[k].deep_view() == v@[k].deep_view(),
        decreases v.len() - i,
    {
        let a = v[i].0.clone();
        let b = v[i].1.clone();
        r.push((a, b));
        i = i + 1;
    }
    assert(r.deep_view() =~= v.deep_view());
    r
}

/// What an audio file's container reports about its first playable track.
pub struct SampleMetadata {
    /// The file extension in upper case (such as `WAV`), empty if there is none.
    pub format: String,
    pub sample_rate: u32,
    pub channels: u16,
    pub bit_depth: Option<u16>,
    /// Textual tags as (key, value) pairs; a key occurs at most once.
    pub tags: Vec<(String, String)>,
}

/// The mathematical value of a `SampleMetadata`.
pub struct MetadataView {
    pub format: Seq<char>,
    pub sample_rate: u32,
    pub channels: u16,
    pub bit_depth: Option<u16>,
    pub tags: Seq<(Seq<char>, Seq<char>)>,
}

impl View for SampleMetadata {
    type V = MetadataView;

    open spec fn view(&self) -> MetadataView {
        MetadataView {
            format: self.format@,
            sample_rate: self.sample_rate,
            channels: self.channels,
            bit_depth: self.bit_depth,
            tags: self.tags.deep_view(),
        }
    }
}

impl SampleMetadata {
    /// A copy with the same value.
    pub fn duplicate(&self) -> (r: Self)
        ensures
            r@ == self@,
    {
        SampleMetadata {
            format: self.format.clone(),
            sample_rate: self.sample_rate,
            channels: self.channels,
            bit_depth: self.bit_depth,
            tags: clone_pairs(&self.tags),
        }
    }

    /// Metadata with an empty format, zero rate and channels and no tags.
    pub fn empty() -> (r: Self)
        ensures
            r@.format.len() == 0,
            r@.sample_rate == 0,
            r@.channels == 0,
            r@.bit_depth is None,
            r@.tags.len() == 0,
    {
        SampleMetadata {
            format: String::new(),
            sample_rate: 0,
            channels: 0,
            bit_depth: None,
            tags: Vec::new(),
        }
    }
}

/// One audio file known to the library.
pub struct Sample {
    /// The sample's UUID as a 128-bit number.
    pub id: u128,
    pub name: String,
    pub path: String,
    /// The duration in seconds, as the bit pattern of an `f64`.
    pub duration_secs_bits: Option<u64>,
    /// The tempo in beats per minute, as the bit pattern of an `f64`.
    pub bpm_bits: Option<u64>,
    pub categories: Vec<String>,
    pub enabled: bool,
    pub metadata: SampleMetadata,
    /// Seconds since the Unix epoch at which the file was last modified.
    pub last_modified: u64,
}

/// The mathematical value of a `Sample`.
pub struct SampleView {
    pub id: u128,
    pub name: Seq<char>,
    pub path: Seq<char>,
    pub duration_secs_bits: Option<u64>,
    pub bpm_bits: Option<u64>,
    pub categories: Seq<Seq<char>>,
    pub enabled: bool,
    pub metadata: MetadataView,
    pub last_modified: u64,
}

impl View for Sample {
    type V = SampleView;

    open spec fn view(&self) -> SampleView {
        SampleView {
            id: self.id,
            name: self.name@,
            path: self.path@,
            duration_secs_bits: self.duration_secs_bits,
            bpm_bits: self.bpm_bits,
            categories: self.categories.deep_view(),
            enabled: self.enabled,
            metadata: self.metadata@,
            last_modified: self.last_modified,
        }
    }
}

impl DeepView for Sample {
    type V = SampleView;

    open spec fn deep_view(&self) -> SampleView {
        self@
    }
}

impl Sample {
    /// A copy with the same value.
    pub fn duplicate(&self) -> (r: Self)
        ensures
            r@ == self@,
    {
        Sample {
            id: self.id,
            name: self.name.clone(),
            path: self.path.clone(),
            duration_secs_bits: self.duration_secs_bits,
            bpm_bits: self.bpm_bits,
            categories: clone_strings(&self.categories),
            enabled: self.enabled,
            metadata: self.metadata.duplicate(),
            last_modified: self.last_modified,
        }
    }
}

/// Copies every sample of `v`, keeping their values and order.
pub fn clone_samples(v: &Vec<Sample>) -> (r: Vec<Sample>)
    ensures
        r.deep_view() == v.deep_view(),
{
    let mut r: Vec<Sample> = Vec::new();
    let mut i: usize = 0;
    while i < v.len()
        invariant
            i <= v@.len(),
            r@.len() == i,
            forall|k: int| 0 <= k < i ==> #[trigger] r@[k]@ == v@[k]@,
        decreases v.len() - i,
    {
        r.push(v[i].duplicate());
        i = i + 1;
    }
    assert(r.deep_view() =~= v.deep_view());
    r
}

/// A directory that the server scans for samples.
pub struct ScanDir {
    /// The directory's UUID as a 128-bit number.
    pub id: u128,
    pub path: String,
    pub label: String,
    /// Seconds since the Unix epoch at which the directory was added.
    pub added_at: u64,
}

/// The mathematical value of a `ScanDir`.
pub struct ScanDirView {
    pub id: u128,
    pub path: Seq<char>,
    pub label: Seq<char>,
    pub added_at: u64,
}

impl View for ScanDir {
    type V = ScanDirView;

    open spec fn view(&self) -> ScanDirView {
        ScanDirView { id: self.id, path: self.path@, label: self.label@, added_at: self.added_at }
    }
}

impl DeepView for ScanDir {
    type V = ScanDirView;

    open spec fn deep_view(&self) -> ScanDirView {
        self@
    }
}

impl ScanDir {
    /// A copy with the same value.
    pub fn duplicate(&self) -> (r: Self)
        ensures
            r@ == self@,
    {
        ScanDir {
            id: self.id,
            path: self.path.clone(),
            label: self.label.clone(),
            added_at: self.added_at,
        }
    }
}

/// How the client's player repeats a sample.
#[derive(PartialEq, Eq, Structural, Clone, Copy, Debug)]
pub enum PlaybackMode {
    Once,
    Loop,
}

/// The order in which the client lists samples.
#[derive(PartialEq, Eq, Structural, Clone, Copy, Debug)]
pub enum SortBy {
    Name,
    Bpm,
    Duration,
    Category,
}

/// Everything the server persists.
pub struct ServerConfig {
    pub scan_dirs: Vec<ScanDir>,
    pub port: u16,
    pub strudel_port: u16,
    pub samples: Vec<Sample>,
    /// Seconds since the Unix epoch of the last rescan.
    pub last_scan: Option<u64>,
}

impl Default for ServerConfig {
    fn default() -> (r: Self)
        ensures
            r.scan_dirs@.len() == 0,
            r.port == 8080,
            r.strudel_port == 8081,
            r.samples@.len() == 0,
            r.last_scan is None,
    {
        ServerConfig {
            scan_dirs: Vec::new(),
            port: 8080,
            strudel_port: 8081,
            samples: Vec::new(),
            last_scan: None,
        }
    }
}

/// Everything the client persists.
pub struct ClientConfig {
    pub server_url: String,
    pub playback_mode: PlaybackMode,
    pub samples: Vec<Sample>,
    /// Seconds since the Unix epoch of the last sync with the server.
    pub last_sync: Option<u64>,
    pub search: String,
    pub selected_category: Option<String>,
    pub sort_by: SortBy,
}

impl Default for ClientConfig {
    fn default() -> (r: Self)
        ensures
            r.server_url@ == "http://localhost:8080"@,
            r.playback_mode == PlaybackMode::Once,
            r.samples@.len() == 0,
            r.last_sync is None,
            r.search@.len() == 0,
            r.selected_category is None,
            r.sort_by == SortBy::Name,
    {
        ClientConfig {
            server_url: owned("http://localhost:8080"),
            playback_mode: PlaybackMode::Once,
            samples: Vec::new(),
            last_sync: None,
            search: String::new(),
            selected_category: None,
            sort_by: SortBy::Name,
        }
    }
}

/// The envelope in which the server answers every request.
pub struct ApiResponse<T> {
    pub success: bool,
    pub data: Option<T>,
    pub error: Option<String>,
}

impl<T> ApiResponse<T> {
    /// A successful answer carrying `data`.
    pub fn ok(data: T) -> (r: Self)
        ensures
            r.success,
            r.data == Some(data),
            r.error is None,
    {
        ApiResponse { success: true, data: Some(data), error: None }
    }

    /// A failed answer carrying the message `msg`.
    pub fn err(msg: String) -> (r: Self)
        ensures
            !r.success,
            r.data is None,
            r.error == Some(msg),
    {
        ApiResponse { success: false, data: None, error: Some(msg) }
    }

    /// How the client reads an answer: the data (or `default` where a
    /// successful answer carries none), or the error message (or
    /// "Unknown error" where a failed answer carries none).
    pub fn into_result(self, default: T) -> (r: Result<T, String>)
        ensures
            self.success ==> (r is Ok && r->Ok_0 == match self.data {
                Some(d) => d,
                None => default,
            }),
            !self.success ==> (r is Err && r->Err_0@ == match self.error {
                Some(e) => e@,
                None => "Unknown error"@,
            }),
    {
        if self.success {
            match self.data {
                Some(d) => Ok(d),
                None => Ok(default),
            }
        } else {
            match self.error {
                Some(e) => Err(e),
                None => Err(owned("Unknown error")),
            }
        }
    }
}

/// The sample map that Strudel loads: sample name to the URL of its file.
pub struct StrudelConfig {
    /// (name, url) pairs; a name occurs at most once.
    pub samples: Vec<(String, String)>,
}

} // verus!
