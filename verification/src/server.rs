//! The sample server's logic: what each request does to the configuration
//! and how it is answered.
use vstd::prelude::*;
use crate::model::{
    ApiResponse, Sample, SampleView, ScanDir, ScanDirView, ServerConfig, StrudelConfig,
    clone_samples,
};
use crate::library::{
    filtered, index_of_id, toggled, with_category, without_category, filter_samples,
    find_sample, lemma_index_of_id,
};
use crate::ids::{is_random_uuid, parse_id, random_id, uuid_parse};
use crate::pairs::{keys_unique, pairs_map, upsert};
use crate::paths::{file_name_or_empty, path_file_name};
use crate::scan::{incremental_scan, scan_results, scan_added, scan_updated, scan_removed};
use crate::text::{concat2, concat3, decimal, decimal_string, owned};

verus! {

broadcast use vstd::seq_lib::group_seq_properties;

/// The server's command line: the HTTP port, the port that Strudel URLs name,
/// and where the configuration is kept.
pub struct Args {
    pub port: u16,
    pub strudel_port: u16,
    pub config: Option<String>,
}

/// The criteria of a sample listing.
pub struct SampleQuery {
    pub search: Option<String>,
    pub category: Option<String>,
    pub enabled: Option<bool>,
}

/// The body of a request that adds or removes a category.
pub struct CategoryRequest {
    pub category: String,
}

/// The body of a request that adds a scan directory.
pub struct ScanDirRequest {
    pub path: String,
    pub label: String,
}

/// `b` differs from `a` at most in its samples.
pub open spec fn same_but_samples(a: ServerConfig, b: ServerConfig) -> bool {
    &&& b.scan_dirs.deep_view() == a.scan_dirs.deep_view()
    &&& b.port == a.port
    &&& b.strudel_port == a.strudel_port
    &&& b.last_scan == a.last_scan
}

/// `b` differs from `a` at most in its scan directories.
pub open spec fn same_but_scan_dirs(a: ServerConfig, b: ServerConfig) -> bool {
    &&& b.samples.deep_view() == a.samples.deep_view()
    &&& b.port == a.port
    &&& b.strudel_port == a.strudel_port
    &&& b.last_scan == a.last_scan
}

/// The URL under which Strudel fetches the file of a sample at `path`.
pub open spec fn sample_url(port: u16, path: Seq<char>) -> Seq<char> {
    "http://localhost:"@ + decimal(port as nat) + "/samples/"@ + match path_file_name(path) {
        Some(n) => n,
        None => Seq::<char>::empty(),
    }
}

/// The (name, url) entries of the enabled samples, in their order.
pub open spec fn strudel_entries(s: Seq<SampleView>, port: u16) -> Seq<(Seq<char>, Seq<char>)>
    decreases s.len(),
{
    if s.len() == 0 {
        Seq::empty()
    } else if s.last().enabled {
        strudel_entries(s.drop_last(), port).push((s.last().name, sample_url(port, s.last().path)))
    } else {
        strudel_entries(s.drop_last(), port)
    }
}

/// The answer to a request naming a sample that does not exist.
pub open spec fn not_found_text() -> Seq<char> {
    "Sample not found"@
}

fn not_found() -> (r: String)
    ensures
        r@ == not_found_text(),
{
    owned("Sample not found")
}

impl ScanDir {
    /// A new scan directory with a fresh random id.
    pub fn new(path: String, label: String, added_at: u64) -> (r: Self)
        ensures
            is_random_uuid(r.id),
            r@.path == path@,
            r@.label == label@,
            r@.added_at == added_at,
    {
        ScanDir { id: random_id(), path, label, added_at }
    }
}

/// The scan directories of `v` other than those with id `id`, in order.
pub fn scan_dirs_without(v: &Vec<ScanDir>, id: u128) -> (r: Vec<ScanDir>)
    ensures
        r.deep_view() == v.deep_view().filter(|d: ScanDirView| d.id != id),
{
    let ghost pred = |d: ScanDirView| d.id != id;
    let ghost all = v.deep_view();
    let mut r: Vec<ScanDir> = Vec::new();
    let mut i: usize = 0;
    assert(all.take(0) =~= Seq::<ScanDirView>::empty());
    while i < v.len()
        invariant
            all == v.deep_view(),
            i <= all.len(),
            r.deep_view() == all.take(i as int).filter(pred),
            pred == (|d: ScanDirView| d.id != id),
        decreases v.len() - i,
    {
        let ghost before = r.deep_view();
        assert(all.take(i + 1) =~= all.take(i as int).push(all[i as int]));
        proof {
            all.take(i as int).lemma_filter_push(all[i as int], pred);
        }
        if v[i].id != id {
            r.push(v[i].duplicate());
            assert(r.deep_view() =~= before.push(all[i as int]));
        } else {
            assert(r.deep_view() =~= before);
        }
        i = i + 1;
    }
    assert(all.take(i as int) =~= all);
    r
}

/// Copies every scan directory of `v`.
pub fn clone_scan_dirs(v: &Vec<ScanDir>) -> (r: Vec<ScanDir>)
    ensures
        r.deep_view() == v.deep_view(),
{
    let mut r: Vec<ScanDir> = Vec::new();
    let mut i: usize = 0;
    while i < v.len()
        invariant
            i <= v@.len(),
            r@.len() == i,
            forall|k: int| 0 <= k < i ==> #[trigger] r@[k]@ == v@[k]@,
        decreases v.len() - i,
    {
        r.push(v[i].duplicate());
        i = i + 1;
    }
    assert(r.deep_view() =~= v.deep_view());
    r
}

impl ServerConfig {
    /// Copies of all samples.
    pub fn get_samples(&self) -> (r: Vec<Sample>)
        ensures
            r.deep_view() == self.samples.deep_view(),
    {
        clone_samples(&self.samples)
    }

    /// Copies of the samples that match every criterion given: the enabled
    /// flag, a category, and a search text found in the name or path, case
    /// ignored.
    pub fn filter_samples(
        &self,
        search: Option<&str>,
        category: Option<&str>,
        enabled: Option<bool>,
    ) -> (r: Vec<Sample>)
        ensures
            r.deep_view() == filtered(
                self.samples.deep_view(),
                search.deep_view(),
                category.deep_view(),
                enabled,
            ),
    {
        filter_samples(&self.samples, search, category, enabled)
    }

    /// Flips the enabled flag of the first sample with id `id` and returns the
    /// new flag; `None`, with nothing changed, where there is no such sample.
    pub fn toggle_sample(&mut self, id: u128) -> (r: Option<bool>)
        ensures
            same_but_samples(*old(self), *final(self)),
            ({
                let s = old(self).samples.deep_view();
                let i = index_of_id(s, id);
                if i < 0 {
                    r is None && final(self).samples.deep_view() == s
                } else {
                    r == Some(!s[i].enabled) && final(self).samples.deep_view() == s.update(
                        i,
                        toggled(s[i]),
                    )
                }
            }),
    {
        crate::library::toggle_sample(&mut self.samples, id)
    }

    /// Adds `category` to the first sample with id `id` unless it has it;
    /// `false`, with nothing changed, where there is no such sample.
    pub fn add_category(&mut self, id: u128, category: String) -> (r: bool)
        ensures
            same_but_samples(*old(self), *final(self)),
            ({
                let s = old(self).samples.deep_view();
                let i = index_of_id(s, id);
                if i < 0 {
                    !r && final(self).samples.deep_view() == s
                } else {
                    r && final(self).samples.deep_view() == s.update(
                        i,
                        with_category(s[i], category@),
                    )
                }
            }),
    {
        crate::library::add_category(&mut self.samples, id, category)
    }

    /// Removes `category` from the first sample with id `id`; `false`, with
    /// nothing changed, where there is no such sample.
    pub fn remove_category(&mut self, id: u128, category: &str) -> (r: bool)
        ensures
            same_but_samples(*old(self), *final(self)),
            ({
                let s = old(self).samples.deep_view();
                let i = index_of_id(s, id);
                if i < 0 {
                    !r && final(self).samples.deep_view() == s
                } else {
                    r && final(self).samples.deep_view() == s.update(
                        i,
                        without_category(s[i], category@),
                    )
                }
            }),
    {
        crate::library::remove_category(&mut self.samples, id, category)
    }

    /// Adds a scan directory with a fresh random id, added at `added_at`.
    pub fn add_scan_dir(&mut self, path: String, label: String, added_at: u64)
        ensures
            same_but_scan_dirs(*old(self), *final(self)),
            final(self).scan_dirs@.len() == old(self).scan_dirs@.len() + 1,
            final(self).scan_dirs.deep_view().drop_last() == old(self).scan_dirs.deep_view(),
            is_random_uuid(final(self).scan_dirs.deep_view().last().id),
            final(self).scan_dirs.deep_view().last().path == path@,
            final(self).scan_dirs.deep_view().last().label == label@,
            final(self).scan_dirs.deep_view().last().added_at == added_at,
    {
        let d = ScanDir::new(path, label, added_at);
        let ghost before = self.scan_dirs.deep_view();
        let ghost dv = d@;
        self.scan_dirs.push(d);
        assert(self.scan_dirs.deep_view() =~= before.push(dv));
    }

    /// Removes every scan directory with id `id`.
    pub fn remove_scan_dir(&mut self, id: u128)
        ensures
            same_but_scan_dirs(*old(self), *final(self)),
            final(self).scan_dirs.deep_view() == old(self).scan_dirs.deep_view().filter(
                |d: ScanDirView| d.id != id,
            ),
    {
        let kept = scan_dirs_without(&self.scan_dirs, id);
        self.scan_dirs = kept;
    }

    /// Merges the samples that a scan of the directories found (see
    /// `incremental_scan`) and records the scan time `now`; returns the new,
    /// the refreshed and the vanished samples.
    pub fn rescan(&mut self, scanned: Vec<Sample>, now: u64) -> (r: (
        Vec<Sample>,
        Vec<Sample>,
        Vec<Sample>,
    ))
        ensures
            final(self).scan_dirs.deep_view() == old(self).scan_dirs.deep_view(),
            final(self).port == old(self).port,
            final(self).strudel_port == old(self).strudel_port,
            final(self).last_scan == Some(now),
            final(self).samples.deep_view() == scan_results(
                old(self).samples.deep_view(),
                scanned.deep_view(),
            ),
            r.0.deep_view() == scan_added(
                old(self).samples.deep_view(),
                scanned.deep_view(),
                scanned.deep_view().len() as int,
            ),
            r.1.deep_view() == scan_updated(
                old(self).samples.deep_view(),
                scanned.deep_view(),
                scanned.deep_view().len() as int,
            ),
            r.2.deep_view() == scan_removed(
                old(self).samples.deep_view(),
                scanned.deep_view(),
                old(self).samples.deep_view().len() as int,
            ),
    {
        let r = incremental_scan(&mut self.samples, scanned);
        self.last_scan = Some(now);
        r
    }

    /// The path of the first sample with id `id`.
    pub fn sample_path(&self, id: u128) -> (r: Option<String>)
        ensures
            ({
                let s = self.samples.deep_view();
                let i = index_of_id(s, id);
                if i < 0 {
                    r is None
                } else {
                    r is Some && r->0@ == s[i].path
                }
            }),
    {
        proof {
            lemma_index_of_id(self.samples.deep_view(), id);
        }
        match find_sample(&self.samples, id) {
            Some(i) => Some(self.samples[i].path.clone()),
            None => None,
        }
    }

    /// Records the tempo (as `f64` bits) of the first sample with id `id`;
    /// `false`, with nothing changed, where there is no such sample.
    pub fn set_sample_bpm(&mut self, id: u128, bpm_bits: u64) -> (r: bool)
        ensures
            same_but_samples(*old(self), *final(self)),
            ({
                let s = old(self).samples.deep_view();
                let i = index_of_id(s, id);
                if i < 0 {
                    !r && final(self).samples.deep_view() == s
                } else {
                    r && final(self).samples.deep_view() == s.update(
                        i,
                        SampleView { bpm_bits: Some(bpm_bits), ..s[i] },
                    )
                }
            }),
    {
        crate::library::set_bpm(&mut self.samples, id, bpm_bits)
    }

    /// The Strudel sample map: every enabled sample's name mapped to the URL
    /// of its file on the Strudel port; where names repeat, the last enabled
    /// sample with that name wins.
    pub fn generate_strudel_config(&self) -> (r: StrudelConfig)
        ensures
            keys_unique(r.samples.deep_view()),
            pairs_map(r.samples.deep_view()) == pairs_map(
                strudel_entries(self.samples.deep_view(), self.strudel_port),
            ),
    {
        let ghost all = self.samples.deep_view();
        let port_text = decimal_string(self.strudel_port as u64);
        let mut out: Vec<(String, String)> = Vec::new();
        let mut i: usize = 0;
        assert(all.take(0) =~= Seq::<SampleView>::empty());
        while i < self.samples.len()
            invariant
                all == self.samples.deep_view(),
                i <= all.len(),
                port_text@ == decimal(self.strudel_port as nat),
                keys_unique(out.deep_view()),
                pairs_map(out.deep_view()) == pairs_map(
                    strudel_entries(all.take(i as int), self.strudel_port),
                ),
            decreases self.samples.len() - i,
        {
            let s = &self.samples[i];
            assert(all.take(i + 1).drop_last() =~= all.take(i as int));
            if s.enabled {
                let file = file_name_or_empty(s.path.as_str());
                let head = concat3("http://localhost:", port_text.as_str(), "/samples/");
                let url = concat2(head.as_str(), file.as_str());
                let ghost e = strudel_entries(all.take(i as int), self.strudel_port);
                assert(strudel_entries(all.take(i + 1), self.strudel_port) =~= e.push(
                    (s.name@, url@),
                ));
                assert(pairs_map(e.push((s.name@, url@))) == pairs_map(e).insert(s.name@, url@))
                    by {
                    assert(e.push((s.name@, url@)).drop_last() =~= e);
                }
                upsert(&mut out, s.name.clone(), url);
            }
            i = i + 1;
        }
        assert(all.take(i as int) =~= all);
        StrudelConfig { samples: out }
    }
}

// ---------------------------------------------------------------------------
// Answers
/// The samples that match a listing query.
pub fn list_samples(config: &ServerConfig, query: &SampleQuery) -> (r: ApiResponse<Vec<Sample>>)
    ensures
        r.success,
        r.error is None,
        r.data is Some,
        r.data->0.deep_view() == filtered(
            config.samples.deep_view(),
            query.search.deep_view(),
            query.category.deep_view(),
            query.enabled,
        ),
{
    let search: Option<&str> = match &query.search {
        Some(s) => Some(s.as_str()),
        None => None,
    };
    let category: Option<&str> = match &query.category {
        Some(c) => Some(c.as_str()),
        None => None,
    };
    ApiResponse::ok(config.filter_samples(search, category, query.enabled))
}

/// The answer to a request for one sample: the parse error of the id, the
/// first sample with that id, or "Sample not found".
pub fn get_sample(config: &ServerConfig, id: &str) -> (r: ApiResponse<Sample>)
    ensures
        match uuid_parse(id@) {
            Err(m) => !r.success && r.data is None && r.error is Some && r.error->0@ == m,
            Ok(u) => {
                let s = config.samples.deep_view();
                let i = index_of_id(s, u);
                if i < 0 {
                    !r.success && r.data is None && r.error is Some && r.error->0@
                        == not_found_text()
                } else {
                    r.success && r.error is None && r.data is Some && r.data->0@ == s[i]
                }
            },
        },
{
    match parse_id(id) {
        Err(e) => ApiResponse::err(e),
        Ok(u) => {
            proof {
                lemma_index_of_id(config.samples.deep_view(), u);
            }
            match find_sample(&config.samples, u) {
                Some(i) => ApiResponse::ok(config.samples[i].duplicate()),
                None => ApiResponse::err(not_found()),
            }
        },
    }
}

/// Toggles the sample named by the text `id` and answers with its new flag,
/// the parse error of the id, or "Sample not found". Succeeds exactly when the
/// configuration changed.
pub fn toggle_sample(config: &mut ServerConfig, id: &str) -> (r: ApiResponse<bool>)
    ensures
        same_but_samples(*old(config), *final(config)),
        match uuid_parse(id@) {
            Err(m) => !r.success && r.error is Some && r.error->0@ == m
                && final(config).samples.deep_view() == old(config).samples.deep_view(),
            Ok(u) => {
                let s = old(config).samples.deep_view();
                let i = index_of_id(s, u);
                if i < 0 {
                    !r.success && r.error is Some && r.error->0@ == not_found_text()
                        && final(config).samples.deep_view() == s
                } else {
                    r.success && r.data == Some(!s[i].enabled)
                        && final(config).samples.deep_view() == s.update(i, toggled(s[i]))
                }
            },
        },
{
    match parse_id(id) {
        Err(e) => ApiResponse::err(e),
        Ok(u) => match config.toggle_sample(u) {
            Some(en) => ApiResponse::ok(en),
            None => ApiResponse::err(not_found()),
        },
    }
}

/// Adds the request's category to the sample named by the text `id` and
/// answers `true`, or the parse error of the id, or "Sample not found".
pub fn add_category(config: &mut ServerConfig, id: &str, req: CategoryRequest) -> (r: ApiResponse<
    bool,
>)
    ensures
        same_but_samples(*old(config), *final(config)),
        match uuid_parse(id@) {
            Err(m) => !r.success && r.error is Some && r.error->0@ == m
                && final(config).samples.deep_view() == old(config).samples.deep_view(),
            Ok(u) => {
                let s = old(config).samples.deep_view();
                let i = index_of_id(s, u);
                if i < 0 {
                    !r.success && r.error is Some && r.error->0@ == not_found_text()
                        && final(config).samples.deep_view() == s
                } else {
                    r.success && r.data == Some(true) && final(config).samples.deep_view()
                        == s.update(i, with_category(s[i], req.category@))
                }
            },
        },
{
    match parse_id(id) {
        Err(e) => ApiResponse::err(e),
        Ok(u) => if config.add_category(u, req.category) {
            ApiResponse::ok(true)
        } else {
            ApiResponse::err(not_found())
        },
    }
}

/// Removes the request's category from the sample named by the text `id` and
/// answers `true`, or the parse error of the id, or "Sample not found".
pub fn remove_category(config: &mut ServerConfig, id: &str, req: &CategoryRequest) -> (r:
    ApiResponse<bool>)
    ensures
        same_but_samples(*old(config), *final(config)),
        match uuid_parse(id@) {
            Err(m) => !r.success && r.error is Some && r.error->0@ == m
                && final(config).samples.deep_view() == old(config).samples.deep_view(),
            Ok(u) => {
                let s = old(config).samples.deep_view();
                let i = index_of_id(s, u);
                if i < 0 {
                    !r.success && r.error is Some && r.error->0@ == not_found_text()
                        && final(config).samples.deep_view() == s
                } else {
                    r.success && r.data == Some(true) && final(config).samples.deep_view()
                        == s.update(i, without_category(s[i], req.category@))
                }
            },
        },
{
    match parse_id(id) {
        Err(e) => ApiResponse::err(e),
        Ok(u) => if config.remove_category(u, req.category.as_str()) {
            ApiResponse::ok(true)
        } else {
            ApiResponse::err(not_found())
        },
    }
}

/// Copies of the scan directories.
pub fn list_scan_dirs(config: &ServerConfig) -> (r: ApiResponse<Vec<ScanDir>>)
    ensures
        r.success,
        r.error is None,
        r.data is Some,
        r.data->0.deep_view() == config.scan_dirs.deep_view(),
{
    ApiResponse::ok(clone_scan_dirs(&config.scan_dirs))
}

/// Adds the requested scan directory, added at `added_at`, and answers `true`.
pub fn add_scan_dir(config: &mut ServerConfig, req: ScanDirRequest, added_at: u64) -> (r:
    ApiResponse<bool>)
    ensures
        r.success,
        r.data == Some(true),
        same_but_scan_dirs(*old(config), *final(config)),
        final(config).scan_dirs.deep_view().drop_last() == old(config).scan_dirs.deep_view(),
        final(config).scan_dirs@.len() == old(config).scan_dirs@.len() + 1,
        final(config).scan_dirs.deep_view().last().path == req.path@,
        final(config).scan_dirs.deep_view().last().label == req.label@,
        final(config).scan_dirs.deep_view().last().added_at == added_at,
        is_random_uuid(final(config).scan_dirs.deep_view().last().id),
{
    config.add_scan_dir(req.path, req.label, added_at);
    ApiResponse::ok(true)
}

/// Removes the scan directories with the id in the text `id` and answers
/// `true`, or the parse error of the id.
pub fn remove_scan_dir(config: &mut ServerConfig, id: &str) -> (r: ApiResponse<bool>)
    ensures
        same_but_scan_dirs(*old(config), *final(config)),
        match uuid_parse(id@) {
            Err(m) => !r.success && r.error is Some && r.error->0@ == m
                && final(config).scan_dirs.deep_view() == old(config).scan_dirs.deep_view(),
            Ok(u) => r.success && r.data == Some(true) && final(config).scan_dirs.deep_view()
                == old(config).scan_dirs.deep_view().filter(|d: ScanDirView| d.id != u),
        },
{
    match parse_id(id) {
        Err(e) => ApiResponse::err(e),
        Ok(u) => {
            config.remove_scan_dir(u);
            ApiResponse::ok(true)
        },
    }
}

/// The answer to a tempo analysis, once the analysis ran (`bpm_bits` is its
/// result as `f64` bits): the tempo, recorded on the first sample with id
/// `id`; or "Failed to analyze BPM" where the analysis gave nothing.
pub fn record_bpm(config: &mut ServerConfig, id: u128, bpm_bits: Option<u64>) -> (r: ApiResponse<
    u64,
>)
    ensures
        same_but_samples(*old(config), *final(config)),
        match bpm_bits {
            None => !r.success && r.error is Some && r.error->0@ == "Failed to analyze BPM"@
                && final(config).samples.deep_view() == old(config).samples.deep_view(),
            Some(b) => {
                let s = old(config).samples.deep_view();
                let i = index_of_id(s, id);
                &&& r.success && r.data == Some(b)
                &&& (i < 0 ==> final(config).samples.deep_view() == s)
                &&& (i >= 0 ==> final(config).samples.deep_view() == s.update(
                    i,
                    SampleView { bpm_bits: Some(b), ..s[i] },
                ))
            },
        },
{
    match bpm_bits {
        None => ApiResponse::err(owned("Failed to analyze BPM")),
        Some(b) => {
            config.set_sample_bpm(id, b);
            ApiResponse::ok(b)
        },
    }
}

/// The first step of a tempo analysis request: the id and the path of the
/// sample to analyze, or the answer to give at once (the parse error of the
/// id, or "Failed to analyze BPM" where no sample has it).
pub fn analysis_target(config: &ServerConfig, id: &str) -> (r: Result<(u128, String), ApiResponse<u64>>)
    ensures
        match uuid_parse(id@) {
            Err(m) => r is Err && !r->Err_0.success && r->Err_0.error is Some && r->Err_0.error->0@ == m,
            Ok(u) => {
                let s = config.samples.deep_view();
                let i = index_of_id(s, u);
                if i < 0 {
                    r is Err && !r->Err_0.success && r->Err_0.error is Some
                        && r->Err_0.error->0@ == "Failed to analyze BPM"@
                } else {
                    r is Ok && r->Ok_0.0 == u && r->Ok_0.1@ == s[i].path
                }
            },
        },
{
    match parse_id(id) {
        Err(e) => Err(ApiResponse::err(e)),
        Ok(u) => match config.sample_path(u) {
            Some(p) => Ok((u, p)),
            None => Err(ApiResponse::err(owned("Failed to analyze BPM"))),
        },
    }
}

} // verus!
