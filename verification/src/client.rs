//! The terminal client's logic: its cached view of the library and the URLs
//! of the server's endpoints.
use vstd::prelude::*;
use crate::model::{ClientConfig, Sample};
use crate::library::{filtered, all_categories, strictly_sorted, category_set};
use crate::paths::{file_name_or_empty, path_file_name};
use crate::text::{concat2, concat3, owned};

verus! {

broadcast use vstd::seq_lib::group_seq_properties;

/// The client's command line: the server's URL and where its configuration is
/// kept.
pub struct Args {
    pub server: String,
    pub config: Option<String>,
}

/// The search that the client's search text stands for: none when it is empty.
pub open spec fn search_criterion(search: Seq<char>) -> Option<Seq<char>> {
    if search.len() == 0 {
        None
    } else {
        Some(search)
    }
}

impl ClientConfig {
    /// Copies of the cached samples that have the selected category (if one
    /// is selected) and contain the search text in name or path, case ignored
    /// (if it is not empty).
    pub fn get_filtered_samples(&self) -> (r: Vec<Sample>)
        ensures
            r.deep_view() == filtered(
                self.samples.deep_view(),
                search_criterion(self.search@),
                self.selected_category.deep_view(),
                None,
            ),
    {
        let search: Option<&str> = if self.search.as_str().is_empty() {
            None
        } else {
            Some(self.search.as_str())
        };
        let category: Option<&str> = match &self.selected_category {
            Some(c) => Some(c.as_str()),
            None => None,
        };
        assert(search.deep_view() == search_criterion(self.search@));
        crate::library::filter_samples(&self.samples, search, category, None)
    }

    /// Every category of the cached samples, once each, sorted.
    pub fn get_all_categories(&self) -> (r: Vec<String>)
        ensures
            strictly_sorted(r.deep_view()),
            r.deep_view().to_set() == category_set(self.samples.deep_view()),
    {
        all_categories(&self.samples)
    }

    /// Replaces the cached samples with those fetched at time `now`.
    pub fn set_samples(&mut self, samples: Vec<Sample>, now: u64)
        ensures
            final(self).samples.deep_view() == samples.deep_view(),
            final(self).last_sync == Some(now),
            final(self).server_url@ == old(self).server_url@,
            final(self).playback_mode == old(self).playback_mode,
            final(self).search@ == old(self).search@,
            final(self).selected_category.deep_view() == old(self).selected_category.deep_view(),
            final(self).sort_by == old(self).sort_by,
    {
        self.samples = samples;
        self.last_sync = Some(now);
    }

    /// Sets the search text.
    pub fn set_search(&mut self, search: String)
        ensures
            final(self).search@ == search@,
            final(self).samples.deep_view() == old(self).samples.deep_view(),
            final(self).selected_category.deep_view() == old(self).selected_category.deep_view(),
            final(self).last_sync == old(self).last_sync,
            final(self).server_url@ == old(self).server_url@,
            final(self).playback_mode == old(self).playback_mode,
            final(self).sort_by == old(self).sort_by,
    {
        self.search = search;
    }

    /// Selects a category, or none.
    pub fn set_category(&mut self, category: Option<String>)
        ensures
            final(self).selected_category.deep_view() == category.deep_view(),
            final(self).samples.deep_view() == old(self).samples.deep_view(),
            final(self).search@ == old(self).search@,
            final(self).last_sync == old(self).last_sync,
            final(self).server_url@ == old(self).server_url@,
            final(self).playback_mode == old(self).playback_mode,
            final(self).sort_by == old(self).sort_by,
    {
        self.selected_category = category;
    }

    /// The server's URL.
    pub fn get_server_url(&self) -> (r: String)
        ensures
            r@ == self.server_url@,
    {
        self.server_url.clone()
    }
}

// ---------------------------------------------------------------------------
// Endpoint URLs
/// `parts` joined with `sep` between neighbours.
pub open spec fn joined(parts: Seq<Seq<char>>, sep: Seq<char>) -> Seq<char>
    decreases parts.len(),
{
    if parts.len() == 0 {
        Seq::empty()
    } else if parts.len() == 1 {
        parts[0]
    } else {
        joined(parts.drop_last(), sep) + sep + parts.last()
    }
}

/// The text of a boolean as `Display` writes it.
pub open spec fn bool_text(b: bool) -> Seq<char> {
    if b {
        "true"@
    } else {
        "false"@
    }
}

/// The query parameters of a sample listing, in order: search, category,
/// enabled, each only where given (the values are not encoded).
pub open spec fn listing_params(
    search: Option<Seq<char>>,
    category: Option<Seq<char>>,
    enabled: Option<bool>,
) -> Seq<Seq<char>> {
    let a = match search {
        Some(s) => seq!["search="@ + s],
        None => Seq::empty(),
    };
    let b = match category {
        Some(c) => seq!["category="@ + c],
        None => Seq::empty(),
    };
    let c = match enabled {
        Some(e) => seq!["enabled="@ + bool_text(e)],
        None => Seq::empty(),
    };
    a + b + c
}

/// The URL of a sample listing under the server at `base`.
pub open spec fn listing_url(
    base: Seq<char>,
    search: Option<Seq<char>>,
    category: Option<Seq<char>>,
    enabled: Option<bool>,
) -> Seq<char> {
    let params = listing_params(search, category, enabled);
    if params.len() == 0 {
        base + "/api/samples"@
    } else {
        base + "/api/samples"@ + "?"@ + joined(params, "&"@)
    }
}

/// A client of the sample server at `base_url`, talking through `client`.
pub struct ApiClient<C> {
    pub client: C,
    pub base_url: String,
}

impl<C> ApiClient<C> {
    /// A client of the server at `base_url`.
    pub fn new(client: C, base_url: String) -> (r: Self)
        ensures
            r.client == client,
            r.base_url@ == base_url@,
    {
        ApiClient { client, base_url }
    }

    /// Points the client at another server.
    pub fn update_base_url(&mut self, url: String)
        ensures
            final(self).base_url@ == url@,
            final(self).client == old(self).client,
    {
        self.base_url = url;
    }

    /// The URL that lists the samples matching the given criteria.
    pub fn samples_url(&self, search: Option<&str>, category: Option<&str>, enabled: Option<bool>) -> (r:
        String)
        ensures
            r@ == listing_url(self.base_url@, search.deep_view(), category.deep_view(), enabled),
    {
        let mut params: Vec<String> = Vec::new();
        if let Some(s) = search {
            params.push(concat2("search=", s));
        }
        if let Some(c) = category {
            params.push(concat2("category=", c));
        }
        if let Some(e) = enabled {
            params.push(concat2("enabled=", if e { "true" } else { "false" }));
        }
        let ghost want = listing_params(search.deep_view(), category.deep_view(), enabled);
        assert(params.deep_view() =~= want);
        let url = concat2(self.base_url.as_str(), "/api/samples");
        if params.len() == 0 {
            return url;
        }
        let mut query = params[0].clone();
        let mut i: usize = 1;
        assert(params.deep_view().take(1) =~= seq![params.deep_view()[0]]);
        while i < params.len()
            invariant
                1 <= i <= params@.len(),
                query@ == joined(params.deep_view().take(i as int), "&"@),
            decreases params.len() - i,
        {
            let ghost before = query@;
            let next = concat3(query.as_str(), "&", params[i].as_str());
            query = next;
            assert(params.deep_view().take(i + 1).drop_last() =~= params.deep_view().take(
                i as int,
            ));
            i = i + 1;
        }
        assert(params.deep_view().take(i as int) =~= params.deep_view());
        concat3(url.as_str(), "?", query.as_str())
    }

    /// The URL that toggles the sample with id text `id`.
    pub fn toggle_url(&self, id: &str) -> (r: String)
        ensures
            r@ == self.base_url@ + "/api/samples/"@ + id@ + "/toggle"@,
    {
        let a = concat3(self.base_url.as_str(), "/api/samples/", id);
        concat2(a.as_str(), "/toggle")
    }

    /// The URL that adds or removes a category of the sample with id text `id`.
    pub fn category_url(&self, id: &str) -> (r: String)
        ensures
            r@ == self.base_url@ + "/api/samples/"@ + id@ + "/category"@,
    {
        let a = concat3(self.base_url.as_str(), "/api/samples/", id);
        concat2(a.as_str(), "/category")
    }

    /// The URL that analyzes the tempo of the sample with id text `id`.
    pub fn analyze_url(&self, id: &str) -> (r: String)
        ensures
            r@ == self.base_url@ + "/api/samples/"@ + id@ + "/analyze"@,
    {
        let a = concat3(self.base_url.as_str(), "/api/samples/", id);
        concat2(a.as_str(), "/analyze")
    }

    /// The URL of the scan directories.
    pub fn scan_dirs_url(&self) -> (r: String)
        ensures
            r@ == self.base_url@ + "/api/scan-dirs"@,
    {
        concat2(self.base_url.as_str(), "/api/scan-dirs")
    }

    /// The URL of the scan directory with id text `id`.
    pub fn scan_dir_url(&self, id: &str) -> (r: String)
        ensures
            r@ == self.base_url@ + "/api/scan-dirs/"@ + id@,
    {
        concat3(self.base_url.as_str(), "/api/scan-dirs/", id)
    }

    /// The URL that starts a rescan.
    pub fn rescan_url(&self) -> (r: String)
        ensures
            r@ == self.base_url@ + "/api/rescan"@,
    {
        concat2(self.base_url.as_str(), "/api/rescan")
    }

    /// The URL of the Strudel sample map.
    pub fn strudel_url(&self) -> (r: String)
        ensures
            r@ == self.base_url@ + "/api/strudel.json"@,
    {
        concat2(self.base_url.as_str(), "/api/strudel.json")
    }

    /// The URL under which the server serves the file of the sample at
    /// `sample_path`: its file name under `/samples/`.
    pub fn get_audio_url(&self, sample_path: &str) -> (r: String)
        ensures
            r@ == self.base_url@ + "/samples/"@ + match path_file_name(sample_path@) {
                Some(n) => n,
                None => Seq::<char>::empty(),
            },
    {
        let file = file_name_or_empty(sample_path);
        concat3(self.base_url.as_str(), "/samples/", file.as_str())
    }
}

} // verus!
