//! Turning scanned files into samples, and merging a fresh scan into the
//! known samples.
use vstd::prelude::*;
use crate::model::{Sample, SampleView, SampleMetadata, MetadataView};
use crate::ids::{random_id, is_random_uuid};
use crate::paths::{file_stem, extension, path_file_stem, path_extension};
use crate::pairs::{keys_unique, pairs_map, collect_pairs};
use crate::text::{to_uppercase, uppercase, text_eq};

verus! {

broadcast use vstd::seq_lib::group_seq_properties;

/// The format that a path's extension gives: upper case, or empty where the
/// path has none.
pub open spec fn format_of_path(path: Seq<char>) -> Seq<char> {
    match path_extension(path) {
        Some(e) => uppercase(e),
        None => Seq::<char>::empty(),
    }
}

/// The name that a path gives a sample: its file stem, or empty.
pub open spec fn name_of_path(path: Seq<char>) -> Seq<char> {
    match path_file_stem(path) {
        Some(n) => n,
        None => Seq::<char>::empty(),
    }
}

fn format_from_path(path: &str) -> (r: String)
    ensures
        r@ == format_of_path(path@),
{
    match extension(path) {
        Some(e) => to_uppercase(e.as_str()),
        None => String::new(),
    }
}

impl SampleMetadata {
    /// The metadata of a file at `path` from what its first playable track
    /// reports: a missing rate or channel count is 0, the channel count and
    /// bits per sample are cut to 16 bits, and a tag given twice keeps its
    /// last value.
    pub fn from_track(
        path: &str,
        sample_rate: Option<u32>,
        channel_count: Option<usize>,
        bits_per_sample: Option<u32>,
        tags: Vec<(String, String)>,
    ) -> (r: Self)
        ensures
            r@.format == format_of_path(path@),
            r@.sample_rate == match sample_rate {
                Some(x) => x,
                None => 0u32,
            },
            r@.channels == match channel_count {
                Some(c) => c as u16,
                None => 0u16,
            },
            r@.bit_depth == match bits_per_sample {
                Some(b) => Some(b as u16),
                None => None,
            },
            keys_unique(r@.tags),
            pairs_map(r@.tags) == pairs_map(tags.deep_view()),
    {
        let sr = match sample_rate {
            Some(x) => x,
            None => 0,
        };
        let ch: u16 = match channel_count {
            Some(c) => c as u16,
            None => 0,
        };
        let bd: Option<u16> = match bits_per_sample {
            Some(b) => Some(b as u16),
            None => None,
        };
        SampleMetadata {
            format: format_from_path(path),
            sample_rate: sr,
            channels: ch,
            bit_depth: bd,
            tags: collect_pairs(tags),
        }
    }
}

impl Sample {
    /// A new sample for the file at `path`: a fresh random id, the file stem
    /// as name, the upper-case extension as format, not enabled, with no
    /// categories, tempo, duration or track details.
    pub fn new(path: String) -> (r: Self)
        ensures
            is_random_uuid(r.id),
            r@.name == name_of_path(path@),
            r@.path == path@,
            r@.duration_secs_bits is None,
            r@.bpm_bits is None,
            r@.categories.len() == 0,
            !r@.enabled,
            r@.metadata == (MetadataView {
                format: format_of_path(path@),
                sample_rate: 0,
                channels: 0,
                bit_depth: None,
                tags: Seq::empty(),
            }),
            r@.last_modified == 0,
    {
        let name = match file_stem(path.as_str()) {
            Some(n) => n,
            None => String::new(),
        };
        let format = format_from_path(path.as_str());
        let r = Sample {
            id: random_id(),
            name,
            path,
            duration_secs_bits: None,
            bpm_bits: None,
            categories: Vec::new(),
            enabled: false,
            metadata: SampleMetadata {
                format,
                sample_rate: 0,
                channels: 0,
                bit_depth: None,
                tags: Vec::new(),
            },
            last_modified: 0,
        };
        assert(r@.metadata.tags =~= Seq::empty());
        assert(r@.categories =~= Seq::empty());
        r
    }

    /// A sample for a file found by a scan: as `Sample::new`, with the file's
    /// modification time, and the track metadata and duration where they
    /// could be read.
    pub fn from_scan(
        path: String,
        last_modified: u64,
        metadata: Option<SampleMetadata>,
        duration_secs_bits: Option<u64>,
    ) -> (r: Self)
        ensures
            is_random_uuid(r.id),
            r@.name == name_of_path(path@),
            r@.path == path@,
            r@.duration_secs_bits == duration_secs_bits,
            r@.bpm_bits is None,
            r@.categories.len() == 0,
            !r@.enabled,
            r@.metadata == match metadata {
                Some(m) => m@,
                None => MetadataView {
                    format: format_of_path(path@),
                    sample_rate: 0,
                    channels: 0,
                    bit_depth: None,
                    tags: Seq::empty(),
                },
            },
            r@.last_modified == last_modified,
    {
        let mut s = Sample::new(path);
        s.last_modified = last_modified;
        if let Some(m) = metadata {
            s.metadata = m;
        }
        if let Some(d) = duration_secs_bits {
            s.duration_secs_bits = Some(d);
        }
        s
    }
}

// ---------------------------------------------------------------------------
// Merging a scan
/// The index of the last sample of `ex` at path `p`, or -1 if there is none.
pub open spec fn last_with_path(ex: Seq<SampleView>, p: Seq<char>) -> int
    decreases ex.len(),
{
    if ex.len() == 0 {
        -1
    } else if ex.last().path == p {
        ex.len() - 1
    } else {
        last_with_path(ex.drop_last(), p)
    }
}

/// An earlier sample of `nw` has the same path as sample `j`.
pub open spec fn seen_before(nw: Seq<SampleView>, j: int) -> bool {
    exists|k: int| 0 <= k < j && #[trigger] nw[k].path == nw[j].path
}

/// Some sample of `nw` is at path `p`.
pub open spec fn path_among(nw: Seq<SampleView>, p: Seq<char>) -> bool {
    exists|k: int| 0 <= k < nw.len() && #[trigger] nw[k].path == p
}

/// Scanned sample `j` is the first at its path and a known sample is there:
/// it takes the place of the last known sample at that path.
pub open spec fn claims_old(ex: Seq<SampleView>, nw: Seq<SampleView>, j: int) -> bool {
    !seen_before(nw, j) && last_with_path(ex, nw[j].path) >= 0
}

/// The known sample that scanned sample `j` takes the place of.
pub open spec fn old_for(ex: Seq<SampleView>, nw: Seq<SampleView>, j: int) -> SampleView {
    ex[last_with_path(ex, nw[j].path)]
}

/// Scanned sample `j` replaces a known one and its file changed since.
pub open spec fn is_update(ex: Seq<SampleView>, nw: Seq<SampleView>, j: int) -> bool {
    claims_old(ex, nw, j) && nw[j].last_modified > old_for(ex, nw, j).last_modified
}

/// The rescanned sample `new` keeping the id, enabled flag, categories and
/// tempo of the known sample `old`.
pub open spec fn refreshed(old: SampleView, new: SampleView) -> SampleView {
    SampleView {
        id: old.id,
        enabled: old.enabled,
        categories: old.categories,
        bpm_bits: old.bpm_bits,
        ..new
    }
}

/// What stands at position `j` of the samples after the merge.
pub open spec fn scan_result(ex: Seq<SampleView>, nw: Seq<SampleView>, j: int) -> SampleView {
    if claims_old(ex, nw, j) {
        if is_update(ex, nw, j) {
            refreshed(old_for(ex, nw, j), nw[j])
        } else {
            old_for(ex, nw, j)
        }
    } else {
        nw[j]
    }
}

/// The samples after the merge: one per scanned sample, in scan order.
pub open spec fn scan_results(ex: Seq<SampleView>, nw: Seq<SampleView>) -> Seq<SampleView> {
    Seq::new(nw.len(), |j: int| scan_result(ex, nw, j))
}

/// The scanned samples among the first `k` that are new to the library.
pub open spec fn scan_added(ex: Seq<SampleView>, nw: Seq<SampleView>, k: int) -> Seq<SampleView>
    decreases k,
{
    if k <= 0 {
        Seq::empty()
    } else if !claims_old(ex, nw, k - 1) {
        scan_added(ex, nw, k - 1).push(nw[k - 1])
    } else {
        scan_added(ex, nw, k - 1)
    }
}

/// The refreshed samples among the first `k` scanned ones whose file changed.
pub open spec fn scan_updated(ex: Seq<SampleView>, nw: Seq<SampleView>, k: int) -> Seq<SampleView>
    decreases k,
{
    if k <= 0 {
        Seq::empty()
    } else if is_update(ex, nw, k - 1) {
        scan_updated(ex, nw, k - 1).push(refreshed(old_for(ex, nw, k - 1), nw[k - 1]))
    } else {
        scan_updated(ex, nw, k - 1)
    }
}

/// Known sample `i` is the last at its path and no scanned sample is there.
pub open spec fn is_removed(ex: Seq<SampleView>, nw: Seq<SampleView>, i: int) -> bool {
    last_with_path(ex, ex[i].path) == i && !path_among(nw, ex[i].path)
}

/// The known samples among the first `k` that the scan no longer finds.
pub open spec fn scan_removed(ex: Seq<SampleView>, nw: Seq<SampleView>, k: int) -> Seq<SampleView>
    decreases k,
{
    if k <= 0 {
        Seq::empty()
    } else if is_removed(ex, nw, k - 1) {
        scan_removed(ex, nw, k - 1).push(ex[k - 1])
    } else {
        scan_removed(ex, nw, k - 1)
    }
}

/// `last_with_path` is the last index at the path, or -1 where there is none.
pub proof fn lemma_last_with_path(ex: Seq<SampleView>, p: Seq<char>)
    ensures
        -1 <= last_with_path(ex, p) < ex.len(),
        last_with_path(ex, p) >= 0 ==> ex[last_with_path(ex, p)].path == p,
        forall|k: int| last_with_path(ex, p) < k < ex.len() ==> #[trigger] ex[k].path != p,
    decreases ex.len(),
{
    if ex.len() > 0 && ex.last().path != p {
        let d = ex.drop_last();
        lemma_last_with_path(d, p);
        assert forall|k: int| last_with_path(ex, p) < k < ex.len() implies #[trigger] ex[k].path
            != p by {
            if k < ex.len() - 1 {
                assert(ex[k] == d[k]);
            }
        }
    }
}

/// Whether a sample after index `i` has the path of sample `i`.
fn path_later(v: &Vec<Sample>, i: usize) -> (r: bool)
    requires
        i < v@.len(),
    ensures
        r == (last_with_path(v.deep_view(), v.deep_view()[i as int].path) != i),
{
    proof {
        lemma_last_with_path(v.deep_view(), v.deep_view()[i as int].path);
    }
    assert(i < v.len());
    let mut k = i + 1;
    while k < v.len()
        invariant
            i < k <= v@.len(),
            forall|m: int| i < m < k ==> #[trigger] v.deep_view()[m].path != v.deep_view()[i as int].path,
        decreases v.len() - k,
    {
        if text_eq(v[k].path.as_str(), v[i].path.as_str()) {
            assert(v.deep_view()[k as int].path == v.deep_view()[i as int].path);
            proof {
                lemma_last_with_path(v.deep_view(), v.deep_view()[i as int].path);
            }
            return true;
        }
        assert(v.deep_view()[k as int].path != v.deep_view()[i as int].path);
        k = k + 1;
    }
    false
}

/// Merges a fresh scan into the known samples. Each scanned sample takes its
/// place in order: the first scanned sample at a path where a sample is known
/// replaces the last known one there — refreshed (keeping id, enabled flag,
/// categories and tempo) if its file is newer, else unchanged; any other
/// scanned sample is new. Returns the new samples, the refreshed ones, and the
/// known ones whose path was not scanned again (in their order).
pub fn incremental_scan(existing: &mut Vec<Sample>, new_samples: Vec<Sample>) -> (r: (
    Vec<Sample>,
    Vec<Sample>,
    Vec<Sample>,
))
    ensures
        final(existing).deep_view() == scan_results(
            old(existing).deep_view(),
            new_samples.deep_view(),
        ),
        r.0.deep_view() == scan_added(
            old(existing).deep_view(),
            new_samples.deep_view(),
            new_samples.deep_view().len() as int,
        ),
        r.1.deep_view() == scan_updated(
            old(existing).deep_view(),
            new_samples.deep_view(),
            new_samples.deep_view().len() as int,
        ),
        r.2.deep_view() == scan_removed(
            old(existing).deep_view(),
            new_samples.deep_view(),
            old(existing).deep_view().len() as int,
        ),
{
    let mut known: Vec<Sample> = Vec::new();
    std::mem::swap(existing, &mut known);
    let ghost ex = known.deep_view();
    let ghost nw = new_samples.deep_view();
    assert(ex == old(existing).deep_view());
    // alive[i]: known sample i is the last at its path and its path has not
    // been scanned yet
    let mut alive: Vec<bool> = Vec::new();
    let mut i: usize = 0;
    while i < known.len()
        invariant
            ex == known.deep_view(),
            i <= ex.len(),
            alive@.len() == i,
            forall|m: int| 0 <= m < i ==> #[trigger] alive@[m] == (last_with_path(ex, ex[m].path) == m),
        decreases known.len() - i,
    {
        let later = path_later(&known, i);
        alive.push(!later);
        i = i + 1;
    }
    assert(existing.deep_view() =~= Seq::<SampleView>::empty());
    let mut added: Vec<Sample> = Vec::new();
    let mut updated: Vec<Sample> = Vec::new();
    let mut j: usize = 0;
    while j < new_samples.len()
        invariant
            ex == known.deep_view(),
            nw == new_samples.deep_view(),
            j <= nw.len(),
            alive@.len() == ex.len(),
            forall|m: int|
                0 <= m < ex.len() ==> #[trigger] alive@[m] == (last_with_path(ex, ex[m].path) == m
                    && !path_among(nw.take(j as int), ex[m].path)),
            existing.deep_view() == Seq::new(j as nat, |q: int| scan_result(ex, nw, q)),
            added.deep_view() == scan_added(ex, nw, j as int),
            updated.deep_view() == scan_updated(ex, nw, j as int),
        decreases new_samples.len() - j,
    {
        let ns = &new_samples[j];
        let ghost p = nw[j as int].path;
        proof {
            lemma_last_with_path(ex, p);
        }
        // look for the live known sample at this path
        let mut k: usize = 0;
        while k < known.len() && !(alive[k] && text_eq(known[k].path.as_str(), ns.path.as_str()))
            invariant
                ex == known.deep_view(),
                nw == new_samples.deep_view(),
                j < nw.len(),
                p == nw[j as int].path,
                alive@.len() == ex.len(),
                k <= ex.len(),
                ns@ == nw[j as int],
                forall|m: int| 0 <= m < k ==> !(#[trigger] alive@[m] && ex[m].path == p),
            decreases known.len() - k,
        {
            assert(ex[k as int].path == known@[k as int].path@);
            k = k + 1;
        }
        let ghost r = last_with_path(ex, p);
        proof {
            // seen_before(nw, j) is path_among(nw.take(j), p)
            if seen_before(nw, j as int) {
                let w = choose|w: int| 0 <= w < j && #[trigger] nw[w].path == nw[j as int].path;
                assert(nw.take(j as int)[w].path == p);
            }
            if path_among(nw.take(j as int), p) {
                let w = choose|w: int| 0 <= w < nw.take(j as int).len() && #[trigger] nw.take(
                    j as int,
                )[w].path == p;
                assert(nw[w].path == nw[j as int].path);
            }
            assert(seen_before(nw, j as int) == path_among(nw.take(j as int), p));
            if k < known.len() {
                assert(alive@[k as int] && ex[k as int].path == p);
                lemma_last_with_path(ex, ex[k as int].path);
                assert(r == k);
                assert(claims_old(ex, nw, j as int));
            } else if claims_old(ex, nw, j as int) {
                lemma_last_with_path(ex, ex[r].path);
                assert(alive@[r]);
                assert(false);
            }
        }
        let ghost before_alive = alive@;
        let ghost before_existing = existing.deep_view();
        assert(ns@ == nw[j as int]);
        if k < known.len() {
            alive.set(k, false);
            if ns.last_modified > known[k].last_modified {
                let mut s = ns.duplicate();
                s.id = known[k].id;
                s.enabled = known[k].enabled;
                s.categories = crate::model::clone_strings(&known[k].categories);
                s.bpm_bits = known[k].bpm_bits;
                assert(s@ == refreshed(ex[k as int], nw[j as int]));
                assert(s@ == scan_result(ex, nw, j as int));
                updated.push(s.duplicate());
                existing.push(s);
                assert(updated.deep_view() =~= scan_updated(ex, nw, j + 1));
            } else {
                let s = known[k].duplicate();
                assert(s@ == scan_result(ex, nw, j as int));
                existing.push(s);
            }
            assert(added.deep_view() =~= scan_added(ex, nw, j + 1));
        } else {
            let s = ns.duplicate();
            assert(s@ == scan_result(ex, nw, j as int));
            added.push(ns.duplicate());
            existing.push(s);
            assert(added.deep_view() =~= scan_added(ex, nw, j + 1));
        }
        assert(existing.deep_view() =~= before_existing.push(scan_result(ex, nw, j as int)));
        proof {
            assert(nw.take(j + 1) =~= nw.take(j as int).push(nw[j as int]));
            assert forall|m: int| 0 <= m < ex.len() implies #[trigger] alive@[m] == (
            last_with_path(ex, ex[m].path) == m && !path_among(nw.take(j + 1), ex[m].path)) by {
                let t = nw.take(j + 1);
                if path_among(t, ex[m].path) && !path_among(nw.take(j as int), ex[m].path) {
                    let w = choose|w: int| 0 <= w < t.len() && #[trigger] t[w].path == ex[m].path;
                    if w < j {
                        assert(nw.take(j as int)[w].path == ex[m].path);
                    }
                    assert(ex[m].path == p);
                    if last_with_path(ex, ex[m].path) == m {
                        assert(before_alive[m]);
                        assert(k == m);
                    }
                }
                if path_among(nw.take(j as int), ex[m].path) {
                    let w = choose|w: int|
                        0 <= w < nw.take(j as int).len() && #[trigger] nw.take(j as int)[w].path
                            == ex[m].path;
                    assert(t[w].path == ex[m].path);
                }
                if m == k && k < ex.len() {
                    assert(t[j as int].path == ex[m].path);
                }
            }
            assert(existing.deep_view() =~= Seq::new(
                (j + 1) as nat,
                |q: int| scan_result(ex, nw, q),
            ));
        }
        j = j + 1;
    }
    let mut removed: Vec<Sample> = Vec::new();
    let mut m: usize = 0;
    assert(nw.take(j as int) =~= nw);
    while m < known.len()
        invariant
            ex == known.deep_view(),
            nw == new_samples.deep_view(),
            m <= ex.len(),
            alive@.len() == ex.len(),
            forall|q: int|
                0 <= q < ex.len() ==> #[trigger] alive@[q] == (last_with_path(ex, ex[q].path) == q
                    && !path_among(nw, ex[q].path)),
            removed.deep_view() == scan_removed(ex, nw, m as int),
        decreases known.len() - m,
    {
        if alive[m] {
            removed.push(known[m].duplicate());
        }
        m = m + 1;
    }
    assert(existing.deep_view() =~= scan_results(ex, nw));
    (added, updated, removed)
}

} // verus!
