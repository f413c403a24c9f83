//! Properties of the library that span several operations or calls.
use vstd::prelude::*;
use crate::model::SampleView;
use crate::library::{
    other_than, index_of_id, lemma_index_of_id, toggled, with_category, without_category, filtered,
    matches_filter, strictly_sorted,
};
use crate::scan::{
    scan_results, scan_result, scan_added, scan_updated, scan_removed, claims_old, is_update,
    is_removed, old_for, seen_before, last_with_path, lemma_last_with_path, path_among, refreshed,
};
use crate::server::{strudel_entries, sample_url};
use crate::pairs::pairs_map;
use crate::player::flipped;
use crate::model::PlaybackMode;
use crate::ui::{UiView, moved, kept_index, App, InputMode, Key, UiCommand, normal_key_done};
use crate::render::{preview_text, row_text, pad_right, pad_left};
use crate::ids::{uuid_text, hyphenated_value, hex_digit, nibble, nibble_index, is_hyphen_position};
use crate::text::{text_lt, lemma_text_lt_irreflexive, lowercase, has_substring};

verus! {

broadcast use vstd::seq_lib::group_seq_properties;

// ---------------------------------------------------------------------------
// Editing samples
/// Edits that keep every id keep the position of the first sample with an id.
pub proof fn lemma_index_of_id_same_ids(s: Seq<SampleView>, t: Seq<SampleView>, id: u128)
    requires
        s.len() == t.len(),
        forall|k: int| 0 <= k < s.len() ==> #[trigger] s[k].id == t[k].id,
    ensures
        index_of_id(s, id) == index_of_id(t, id),
{
    lemma_index_of_id(s, id);
    lemma_index_of_id(t, id);
    let a = index_of_id(s, id);
    let b = index_of_id(t, id);
    if a >= 0 && b >= 0 {
        assert(!(a < b) && !(b < a)) by {
            if a < b {
                assert(t[a].id == s[a].id);
            }
            if b < a {
                assert(s[b].id == t[b].id);
            }
        }
    } else if a >= 0 {
        assert(t[a].id == s[a].id);
    } else if b >= 0 {
        assert(s[b].id == t[b].id);
    }
}

/// Toggling the same sample twice gives back the samples as they were.
pub proof fn law_toggle_twice_restores(s: Seq<SampleView>, id: u128)
    ensures
        ({
            let i = index_of_id(s, id);
            let t = s.update(i, toggled(s[i]));
            i >= 0 ==> (index_of_id(t, id) == i && t.update(i, toggled(t[i])) == s)
        }),
{
    let i = index_of_id(s, id);
    lemma_index_of_id(s, id);
    if i >= 0 {
        let t = s.update(i, toggled(s[i]));
        lemma_index_of_id_same_ids(s, t, id);
        assert(t.update(i, toggled(t[i])) =~= s);
    }
}

/// Toggling flips the enabled flag of the toggled sample and nothing else.
pub proof fn law_toggle_flips_only_the_flag(x: SampleView)
    ensures
        toggled(x).enabled == !x.enabled,
        toggled(x).id == x.id,
        toggled(x).path == x.path,
        toggled(x).categories == x.categories,
{
}

/// After a category is added the sample has it; adding it again changes
/// nothing; and a sample whose categories hold none twice still holds none twice.
pub proof fn law_add_category(x: SampleView, c: Seq<char>)
    ensures
        with_category(x, c).categories.contains(c),
        with_category(with_category(x, c), c) == with_category(x, c),
        x.categories.no_duplicates() ==> with_category(x, c).categories.no_duplicates(),
        forall|d: Seq<char>| #[trigger] x.categories.contains(d) ==> with_category(
            x,
            c,
        ).categories.contains(d),
{
    if !x.categories.contains(c) {
        assert(x.categories.push(c)[x.categories.len() as int] == c);
        assert forall|d: Seq<char>| #[trigger] x.categories.contains(d) implies with_category(
            x,
            c,
        ).categories.contains(d) by {
            let k = choose|k: int| 0 <= k < x.categories.len() && x.categories[k] == d;
            assert(x.categories.push(c)[k] == d);
        }
    }
}

/// After a category is removed the sample does not have it, and every other
/// category it had stays.
pub proof fn law_remove_category(x: SampleView, c: Seq<char>)
    ensures
        !without_category(x, c).categories.contains(c),
        forall|d: Seq<char>|
            #[trigger] x.categories.contains(d) && d != c ==> without_category(
                x,
                c,
            ).categories.contains(d),
        without_category(with_category(x, c), c).categories == without_category(x, c).categories,
{
    let p = other_than(c);
    if without_category(x, c).categories.contains(c) {
        let k = choose|k: int|
            0 <= k < x.categories.filter(p).len() && x.categories.filter(p)[k] == c;
        x.categories.lemma_filter_pred(p, k);
    }
    assert forall|d: Seq<char>| #[trigger] x.categories.contains(d) && d != c implies without_category(
        x,
        c,
    ).categories.contains(d) by {
        let k = choose|k: int| 0 <= k < x.categories.len() && x.categories[k] == d;
        x.categories.lemma_filter_contains(p, k);
    }
    if !x.categories.contains(c) {
        x.categories.lemma_filter_push(c, p);
        assert(with_category(x, c).categories == x.categories.push(c));
        assert(x.categories.push(c).filter(p) == x.categories.filter(p));
    }
}

// ---------------------------------------------------------------------------
// Filtering
/// With no criterion, every sample is listed, in order.
pub proof fn law_filter_without_criteria_lists_all(s: Seq<SampleView>)
    ensures
        filtered(s, None, None, None) == s,
    decreases s.len(),
{
    let p = |x: SampleView| matches_filter(x, None, None, None);
    if s.len() > 0 {
        law_filter_without_criteria_lists_all(s.drop_last());
        s.drop_last().lemma_filter_push(s.last(), p);
        assert(s.drop_last().push(s.last()) =~= s);
    } else {
        reveal(Seq::filter);
    }
}

/// Every listed sample matches the criteria, and every sample that matches
/// them is listed.
pub proof fn law_filter_is_exact(
    s: Seq<SampleView>,
    search: Option<Seq<char>>,
    category: Option<Seq<char>>,
    enabled: Option<bool>,
)
    ensures
        forall|k: int|
            0 <= k < filtered(s, search, category, enabled).len() ==> matches_filter(
                #[trigger] filtered(s, search, category, enabled)[k],
                search,
                category,
                enabled,
            ),
        forall|k: int|
            0 <= k < s.len() && matches_filter(#[trigger] s[k], search, category, enabled)
                ==> filtered(s, search, category, enabled).contains(s[k]),
        filtered(s, search, category, enabled).len() <= s.len(),
{
    let p = |x: SampleView| matches_filter(x, search, category, enabled);
    assert forall|k: int|
        0 <= k < filtered(s, search, category, enabled).len() implies matches_filter(
        #[trigger] filtered(s, search, category, enabled)[k],
        search,
        category,
        enabled,
    ) by {
        s.lemma_filter_pred(p, k);
    }
    assert forall|k: int|
        0 <= k < s.len() && matches_filter(#[trigger] s[k], search, category, enabled) implies filtered(
        s,
        search,
        category,
        enabled,
    ).contains(s[k]) by {
        s.lemma_filter_contains(p, k);
    }
    s.lemma_filter_len(p);
}

/// Filtering by one predicate and then another keeps what both keep.
pub proof fn lemma_filter_twice(
    s: Seq<SampleView>,
    p: spec_fn(SampleView) -> bool,
    r: spec_fn(SampleView) -> bool,
    both: spec_fn(SampleView) -> bool,
)
    requires
        forall|x: SampleView| #[trigger] both(x) == (p(x) && r(x)),
    ensures
        s.filter(p).filter(r) == s.filter(both),
    decreases s.len(),
{
    if s.len() == 0 {
        reveal(Seq::filter);
        assert(s.filter(p) =~= s);
    } else {
        let d = s.drop_last();
        let x = s.last();
        lemma_filter_twice(d, p, r, both);
        assert(d.push(x) =~= s);
        d.lemma_filter_push(x, p);
        d.lemma_filter_push(x, both);
        d.filter(p).lemma_filter_push(x, r);
    }
}

/// An empty search text lists every sample, in order (the lower case of the
/// empty text is empty, and every text contains it).
pub proof fn law_filter_empty_search_lists_all(s: Seq<SampleView>)
    ensures
        filtered(s, Some(Seq::<char>::empty()), None, None) == s,
    decreases s.len(),
{
    let p = |x: SampleView| matches_filter(x, Some(Seq::<char>::empty()), None, None);
    if s.len() > 0 {
        law_filter_empty_search_lists_all(s.drop_last());
        let x = s.last();
        assert(lowercase(x.name).subrange(0, 0 + lowercase(Seq::<char>::empty()).len() as int)
            =~= lowercase(Seq::<char>::empty()));
        assert(p(x));
        s.drop_last().lemma_filter_push(x, p);
        assert(s.drop_last().push(x) =~= s);
    } else {
        reveal(Seq::filter);
    }
}

/// Two search texts with the same lower case list the same samples.
pub proof fn law_filter_search_ignores_case(
    s: Seq<SampleView>,
    q1: Seq<char>,
    q2: Seq<char>,
    category: Option<Seq<char>>,
    enabled: Option<bool>,
)
    requires
        lowercase(q1) == lowercase(q2),
    ensures
        filtered(s, Some(q1), category, enabled) == filtered(s, Some(q2), category, enabled),
{
    assert((|x: SampleView| matches_filter(x, Some(q1), category, enabled)) =~= (|x: SampleView|
        matches_filter(x, Some(q2), category, enabled)));
}

/// Each criterion narrows the listing: the samples listed under all criteria
/// are those listed with one criterion left out, filtered by that criterion
/// alone; so they form a subsequence of that listing, in the same order.
pub proof fn law_filter_narrows(
    s: Seq<SampleView>,
    search: Option<Seq<char>>,
    category: Option<Seq<char>>,
    enabled: Option<bool>,
)
    ensures
        filtered(s, search, category, enabled) == filtered(
            filtered(s, None, category, enabled),
            search,
            None,
            None,
        ),
        filtered(s, search, category, enabled) == filtered(
            filtered(s, search, None, enabled),
            None,
            category,
            None,
        ),
        filtered(s, search, category, enabled) == filtered(
            filtered(s, search, category, None),
            None,
            None,
            enabled,
        ),
{
    let all = |x: SampleView| matches_filter(x, search, category, enabled);
    lemma_filter_twice(
        s,
        |x: SampleView| matches_filter(x, None, category, enabled),
        |x: SampleView| matches_filter(x, search, None, None),
        all,
    );
    lemma_filter_twice(
        s,
        |x: SampleView| matches_filter(x, search, None, enabled),
        |x: SampleView| matches_filter(x, None, category, None),
        all,
    );
    lemma_filter_twice(
        s,
        |x: SampleView| matches_filter(x, search, category, None),
        |x: SampleView| matches_filter(x, None, None, enabled),
        all,
    );
}

// ---------------------------------------------------------------------------
// Categories
/// A strictly sorted list holds no string twice.
pub proof fn law_sorted_categories_are_distinct(v: Seq<Seq<char>>)
    requires
        strictly_sorted(v),
    ensures
        v.no_duplicates(),
{
    assert forall|i: int, j: int| 0 <= i < v.len() && 0 <= j < v.len() && i != j implies v[i]
        != v[j] by {
        lemma_text_lt_irreflexive(v[i]);
        if i < j {
            assert(text_lt(v[i], v[j]));
        } else {
            assert(text_lt(v[j], v[i]));
        }
    }
}

// ---------------------------------------------------------------------------
// Rescans
/// After a merge, the samples stand at exactly the scanned paths, in scan order.
pub proof fn law_scan_keeps_scanned_paths(ex: Seq<SampleView>, nw: Seq<SampleView>)
    ensures
        scan_results(ex, nw).len() == nw.len(),
        forall|j: int| 0 <= j < nw.len() ==> #[trigger] scan_results(ex, nw)[j].path == nw[j].path,
{
    assert forall|j: int| 0 <= j < nw.len() implies #[trigger] scan_results(ex, nw)[j].path
        == nw[j].path by {
        lemma_last_with_path(ex, nw[j].path);
    }
}

/// A sample that replaces a known one keeps the known one's id, enabled flag,
/// categories and tempo.
pub proof fn law_scan_keeps_user_data(ex: Seq<SampleView>, nw: Seq<SampleView>, j: int)
    requires
        0 <= j < nw.len(),
        claims_old(ex, nw, j),
    ensures
        scan_results(ex, nw)[j].id == old_for(ex, nw, j).id,
        scan_results(ex, nw)[j].enabled == old_for(ex, nw, j).enabled,
        scan_results(ex, nw)[j].categories == old_for(ex, nw, j).categories,
        scan_results(ex, nw)[j].bpm_bits == old_for(ex, nw, j).bpm_bits,
{
}

/// Scanning again, where the scan finds the same files at the same paths with
/// the same modification times (whatever fresh ids and details the new scan
/// gives them), changes nothing: no sample is new, refreshed or gone, and the
/// samples stay as they are, ids included. (The scan lists each path once.)
pub proof fn law_rescan_is_stable(ex: Seq<SampleView>, nw: Seq<SampleView>, again: Seq<SampleView>)
    requires
        forall|j: int| 0 <= j < nw.len() ==> !#[trigger] seen_before(nw, j),
        again.len() == nw.len(),
        forall|j: int|
            0 <= j < nw.len() ==> #[trigger] again[j].path == nw[j].path && again[j].last_modified
                == nw[j].last_modified,
    ensures
        scan_results(scan_results(ex, nw), again) == scan_results(ex, nw),
        scan_added(scan_results(ex, nw), again, again.len() as int) == Seq::<SampleView>::empty(),
        scan_updated(scan_results(ex, nw), again, again.len() as int) == Seq::<SampleView>::empty(),
        scan_removed(scan_results(ex, nw), again, nw.len() as int) == Seq::<SampleView>::empty(),
{
    let ex2 = scan_results(ex, nw);
    law_scan_keeps_scanned_paths(ex, nw);
    assert forall|j: int| 0 <= j < again.len() implies !#[trigger] seen_before(again, j) by {
        if seen_before(again, j) {
            let k = choose|k: int| 0 <= k < j && #[trigger] again[k].path == again[j].path;
            assert(again[k].path == nw[k].path);
            assert(again[j].path == nw[j].path);
            assert(nw[k].path == nw[j].path);
            assert(seen_before(nw, j));
        }
    }
    // paths of ex2 are those of the scan, each once: sample j is the last at its path
    assert forall|j: int| 0 <= j < again.len() implies last_with_path(ex2, #[trigger] again[j].path)
        == j by {
        assert(again[j].path == nw[j].path);
        lemma_last_with_path(ex2, nw[j].path);
        let r = last_with_path(ex2, nw[j].path);
        assert(ex2[j].path == nw[j].path);
        if r > j {
            assert(nw[r].path == nw[j].path);
            assert(seen_before(nw, r));
        } else if r < j {
            assert(false);
        }
    }
    assert forall|j: int| 0 <= j < again.len() implies #[trigger] scan_result(ex2, again, j)
        == ex2[j] by {
        assert(again[j].path == nw[j].path && again[j].last_modified == nw[j].last_modified);
        assert(last_with_path(ex2, again[j].path) == j);
        assert(claims_old(ex2, again, j));
        lemma_last_with_path(ex, nw[j].path);
        if claims_old(ex, nw, j) {
            if is_update(ex, nw, j) {
                assert(ex2[j] == refreshed(old_for(ex, nw, j), nw[j]));
            }
        }
        assert(ex2[j].last_modified >= nw[j].last_modified);
        assert(!is_update(ex2, again, j));
    }
    assert(scan_results(ex2, again) =~= ex2);
    assert forall|k: int| 0 <= k <= again.len() implies #[trigger] scan_added(ex2, again, k)
        == Seq::<SampleView>::empty() && scan_updated(ex2, again, k) == Seq::<SampleView>::empty() by {
        lemma_stable_prefix(ex2, again, k);
    }
    assert forall|j: int| 0 <= j < again.len() implies #[trigger] ex2[j].path == again[j].path by {
        assert(again[j].path == nw[j].path);
    }
    assert forall|k: int| 0 <= k <= again.len() implies #[trigger] scan_removed(ex2, again, k)
        == Seq::<SampleView>::empty() by {
        lemma_nothing_removed(ex2, again, k);
    }
}

proof fn lemma_stable_prefix(ex2: Seq<SampleView>, nw: Seq<SampleView>, k: int)
    requires
        0 <= k <= nw.len(),
        ex2.len() == nw.len(),
        forall|j: int| 0 <= j < nw.len() ==> !#[trigger] seen_before(nw, j),
        forall|j: int| 0 <= j < nw.len() ==> last_with_path(ex2, #[trigger] nw[j].path) == j,
        forall|j: int| 0 <= j < nw.len() ==> #[trigger] scan_result(ex2, nw, j) == ex2[j],
    ensures
        scan_added(ex2, nw, k) == Seq::<SampleView>::empty(),
        scan_updated(ex2, nw, k) == Seq::<SampleView>::empty(),
    decreases k,
{
    if k > 0 {
        lemma_stable_prefix(ex2, nw, k - 1);
        assert(last_with_path(ex2, nw[k - 1].path) == k - 1);
        assert(claims_old(ex2, nw, k - 1));
        assert(scan_result(ex2, nw, k - 1) == ex2[k - 1]);
        if is_update(ex2, nw, k - 1) {
            assert(old_for(ex2, nw, k - 1) == ex2[k - 1]);
        }
    }
}

proof fn lemma_nothing_removed(ex2: Seq<SampleView>, nw: Seq<SampleView>, k: int)
    requires
        0 <= k <= nw.len(),
        ex2.len() == nw.len(),
        forall|j: int| 0 <= j < nw.len() ==> #[trigger] ex2[j].path == nw[j].path,
    ensures
        scan_removed(ex2, nw, k) == Seq::<SampleView>::empty(),
    decreases k,
{
    if k > 0 {
        lemma_nothing_removed(ex2, nw, k - 1);
        assert(ex2[k - 1].path == nw[k - 1].path);
        assert(path_among(nw, ex2[k - 1].path));
    }
}

// ---------------------------------------------------------------------------
// The Strudel map
/// The Strudel map names exactly the enabled samples.
pub proof fn law_strudel_names_enabled_samples(s: Seq<SampleView>, port: u16)
    ensures
        forall|n: Seq<char>|
            #[trigger] pairs_map(strudel_entries(s, port)).dom().contains(n) <==> exists|i: int|
                0 <= i < s.len() && s[i].enabled && s[i].name == n,
    decreases s.len(),
{
    if s.len() > 0 {
        let d = s.drop_last();
        law_strudel_names_enabled_samples(d, port);
        assert forall|n: Seq<char>|
            #[trigger] pairs_map(strudel_entries(s, port)).dom().contains(n) <==> exists|i: int|
                0 <= i < s.len() && s[i].enabled && s[i].name == n by {
            let e = strudel_entries(d, port);
            if s.last().enabled {
                assert(e.push((s.last().name, sample_url(port, s.last().path))).drop_last() =~= e);
            }
            if pairs_map(strudel_entries(s, port)).dom().contains(n) {
                if s.last().enabled && n == s.last().name {
                    assert(s[s.len() - 1].name == n);
                } else {
                    assert(pairs_map(e).dom().contains(n));
                    let i = choose|i: int| 0 <= i < d.len() && d[i].enabled && d[i].name == n;
                    assert(s[i] == d[i]);
                }
            }
            if exists|i: int| 0 <= i < s.len() && s[i].enabled && s[i].name == n {
                let i = choose|i: int| 0 <= i < s.len() && s[i].enabled && s[i].name == n;
                if i < s.len() - 1 {
                    assert(s[i] == d[i]);
                    assert(pairs_map(e).dom().contains(n));
                }
            }
        }
    } else {
        assert(pairs_map(strudel_entries(s, port)).dom() =~= Set::<Seq<char>>::empty());
    }
}

/// Each name maps to the URL of the last enabled sample with that name.
pub proof fn law_strudel_last_name_wins(s: Seq<SampleView>, port: u16, i: int)
    requires
        0 <= i < s.len(),
        s[i].enabled,
        forall|k: int| i < k < s.len() ==> !(#[trigger] s[k].enabled && s[k].name == s[i].name),
    ensures
        pairs_map(strudel_entries(s, port))[s[i].name] == sample_url(port, s[i].path),
    decreases s.len(),
{
    let d = s.drop_last();
    let e = strudel_entries(d, port);
    if s.last().enabled {
        assert(e.push((s.last().name, sample_url(port, s.last().path))).drop_last() =~= e);
    }
    if i < s.len() - 1 {
        assert forall|k: int| i < k < d.len() implies !(#[trigger] d[k].enabled && d[k].name
            == d[i].name) by {
            assert(d[k] == s[k]);
        }
        assert(d[i] == s[i]);
        law_strudel_last_name_wins(d, port, i);
        assert(!(s[s.len() - 1].enabled && s[s.len() - 1].name == s[i].name));
    }
}

// ---------------------------------------------------------------------------
// Player and interface
/// Switching the loop mode twice gives back the mode.
pub proof fn law_toggle_loop_twice(m: PlaybackMode)
    ensures
        flipped(flipped(m)) == m,
        flipped(m) != m,
{
}

/// Moving the selection keeps it on a listed sample.
pub proof fn law_selection_stays_in_range(u: UiView, delta: int)
    requires
        u.filtered_samples.len() > 0,
    ensures
        moved(u, delta).selected_index < u.filtered_samples.len(),
{
}

/// A new list keeps the selection on a listed sample, if there is any.
pub proof fn law_refilter_keeps_selection_in_range(idx: usize, len: nat)
    requires
        len <= usize::MAX,
    ensures
        len > 0 ==> kept_index(idx, len) < len,
        len == 0 ==> kept_index(idx, len) == 0,
        idx < len ==> kept_index(idx, len) == idx,
{
}

// ---------------------------------------------------------------------------
// Identifiers
proof fn lemma_hex_digit_injective(x: u128, y: u128)
    requires
        x < 16,
        y < 16,
        hex_digit(x) == hex_digit(y),
    ensures
        x == y,
{
}

proof fn lemma_nibble_bound(u: u128, n: int)
    ensures
        nibble(u, n) < 16,
{
    let s = (124 - 4 * n) as u128;
    assert((u >> s) & 0xf < 16) by (bit_vector);
}

/// The top digit of a UUID is all that is left after shifting out the rest.
proof fn lemma_top_nibble(u: u128)
    by (bit_vector)
    ensures
        (u >> 124u128) & 0xf == u >> 124u128,
{
}

/// Two numbers that agree above bit `s + 4` and on the four bits from `s`
/// agree above bit `s`.
proof fn lemma_one_more_nibble(u: u128, v: u128, s: u128)
    by (bit_vector)
    requires
        s <= 120,
        u >> ((s + 4) as u128) == v >> ((s + 4) as u128),
        (u >> s) & 0xf == (v >> s) & 0xf,
    ensures
        u >> s == v >> s,
{
}

/// Two numbers whose first `n` hexadecimal digits agree agree above bit
/// `128 - 4 * n`.
proof fn lemma_same_leading_nibbles(u: u128, v: u128, n: int)
    requires
        1 <= n <= 32,
        forall|m: int| 0 <= m < n ==> #[trigger] nibble(u, m) == nibble(v, m),
    ensures
        u >> ((128 - 4 * n) as u128) == v >> ((128 - 4 * n) as u128),
    decreases n,
{
    if n == 1 {
        assert(nibble(u, 0) == nibble(v, 0));
        lemma_top_nibble(u);
        lemma_top_nibble(v);
    } else {
        lemma_same_leading_nibbles(u, v, n - 1);
        assert(nibble(u, n - 1) == nibble(v, n - 1));
        let s = (128 - 4 * n) as u128;
        assert(((s + 4) as u128) == ((128 - 4 * (n - 1)) as u128));
        lemma_one_more_nibble(u, v, s);
    }
}

/// A number is itself shifted by nothing.
proof fn lemma_shift_zero(u: u128)
    by (bit_vector)
    ensures
        u >> 0u128 == u,
{
}

/// The position in the hyphenated text of hexadecimal digit `n`.
spec fn digit_position(n: int) -> int {
    if n < 8 {
        n
    } else if n < 12 {
        n + 1
    } else if n < 16 {
        n + 2
    } else if n < 20 {
        n + 3
    } else {
        n + 4
    }
}

proof fn lemma_same_digit(u: u128, v: u128, n: int)
    requires
        0 <= n < 32,
        uuid_text(u) == uuid_text(v),
    ensures
        nibble(u, n) == nibble(v, n),
{
    let i = digit_position(n);
    assert(!is_hyphen_position(i) && nibble_index(i) == n);
    assert(uuid_text(u)[i] == uuid_text(v)[i]);
    assert(uuid_text(u)[i] == hex_digit(nibble(u, n)));
    assert(uuid_text(v)[i] == hex_digit(nibble(v, n)));
    lemma_nibble_bound(u, n);
    lemma_nibble_bound(v, n);
    lemma_hex_digit_injective(nibble(u, n), nibble(v, n));
}

/// Two UUIDs with the same hyphenated text are the same.
pub proof fn law_uuid_text_injective(u: u128, v: u128)
    requires
        uuid_text(u) == uuid_text(v),
    ensures
        u == v,
{
    assert forall|n: int| 0 <= n < 32 implies nibble(u, n) == nibble(v, n) by {
        lemma_same_digit(u, v, n);
    }
    lemma_same_leading_nibbles(u, v, 32);
    lemma_shift_zero(u);
    lemma_shift_zero(v);
}

/// The id text that the client sends names the same id once the server reads
/// it: the hyphenated text of `u` is read back as `u`.
pub proof fn law_id_text_reads_back(u: u128)
    ensures
        hyphenated_value(uuid_text(u)) == Some(u),
{
    let s = uuid_text(u);
    assert(exists|w: u128| uuid_text(w) == s);
    let w = choose|w: u128| uuid_text(w) == s;
    law_uuid_text_injective(w, u);
}

// ---------------------------------------------------------------------------
// What a rescan keeps and what it takes from the scan
/// `r` is the scanned sample `new` that took the place of the known sample
/// `old`: the id, enabled flag, categories and tempo are the known ones;
/// name, path, duration, track metadata and modification time are the
/// scanned ones.
pub open spec fn takes_scan_keeps_user_data(r: SampleView, old: SampleView, new: SampleView) -> bool {
    &&& r.id == old.id
    &&& r.enabled == old.enabled
    &&& r.categories == old.categories
    &&& r.bpm_bits == old.bpm_bits
    &&& r.name == new.name
    &&& r.path == new.path
    &&& r.duration_secs_bits == new.duration_secs_bits
    &&& r.metadata == new.metadata
    &&& r.last_modified == new.last_modified
}

/// Scanned sample `j` is the first of the scan at its path, known sample `i`
/// is the last known one at that path, and the scanned file is newer.
pub open spec fn newer_file_for(ex: Seq<SampleView>, nw: Seq<SampleView>, j: int, i: int) -> bool {
    &&& 0 <= j < nw.len()
    &&& 0 <= i < ex.len()
    &&& ex[i].path == nw[j].path
    &&& (forall|k: int| i < k < ex.len() ==> #[trigger] ex[k].path != nw[j].path)
    &&& (forall|k: int| 0 <= k < j ==> #[trigger] nw[k].path != nw[j].path)
    &&& nw[j].last_modified > ex[i].last_modified
}

proof fn lemma_newer_file_is_update(ex: Seq<SampleView>, nw: Seq<SampleView>, j: int, i: int)
    requires
        newer_file_for(ex, nw, j, i),
    ensures
        is_update(ex, nw, j),
        old_for(ex, nw, j) == ex[i],
{
    let p = nw[j].path;
    lemma_last_with_path(ex, p);
    let l = last_with_path(ex, p);
    if l < i {
        assert(ex[i].path != p);
    }
    if l > i {
        assert(ex[l].path != p);
    }
    assert(l == i);
    if seen_before(nw, j) {
        let w = choose|w: int| 0 <= w < j && #[trigger] nw[w].path == nw[j].path;
        assert(nw[w].path != nw[j].path);
    }
}

proof fn lemma_update_is_newer_file(ex: Seq<SampleView>, nw: Seq<SampleView>, j: int)
    requires
        0 <= j < nw.len(),
        is_update(ex, nw, j),
    ensures
        newer_file_for(ex, nw, j, last_with_path(ex, nw[j].path)),
{
    lemma_last_with_path(ex, nw[j].path);
    assert forall|k: int| 0 <= k < j implies #[trigger] nw[k].path != nw[j].path by {
        if nw[k].path == nw[j].path {
            assert(seen_before(nw, j));
        }
    }
}

/// After a rescan, a scanned sample whose file is newer than that of the
/// known sample it replaces stands in its place in scan order carrying all
/// that the scan read (name, path, duration, track metadata, modification
/// time) and only the id, enabled flag, categories and tempo of the known
/// sample.
pub proof fn law_rescan_takes_what_was_read(ex: Seq<SampleView>, nw: Seq<SampleView>, j: int, i: int)
    requires
        newer_file_for(ex, nw, j, i),
    ensures
        scan_results(ex, nw).len() == nw.len(),
        takes_scan_keeps_user_data(scan_results(ex, nw)[j], ex[i], nw[j]),
{
    lemma_newer_file_is_update(ex, nw, j, i);
}

/// Every sample that a rescan reports as refreshed is a scanned sample whose
/// file is newer than the known one it replaced, carrying all that the scan
/// read and only the id, enabled flag, categories and tempo of the known one.
pub proof fn law_rescan_reports_what_was_read(ex: Seq<SampleView>, nw: Seq<SampleView>, n: int)
    requires
        0 <= n <= nw.len(),
    ensures
        forall|k: int|
            0 <= k < scan_updated(ex, nw, n).len() ==> exists|j: int, i: int|
                newer_file_for(ex, nw, j, i) && takes_scan_keeps_user_data(
                    #[trigger] scan_updated(ex, nw, n)[k],
                    ex[i],
                    nw[j],
                ),
    decreases n,
{
    if n > 0 {
        law_rescan_reports_what_was_read(ex, nw, n - 1);
        let prev = scan_updated(ex, nw, n - 1);
        let cur = scan_updated(ex, nw, n);
        if is_update(ex, nw, n - 1) {
            lemma_update_is_newer_file(ex, nw, n - 1);
            let i = last_with_path(ex, nw[n - 1].path);
            assert forall|k: int| 0 <= k < cur.len() implies exists|j: int, i: int|
                newer_file_for(ex, nw, j, i) && takes_scan_keeps_user_data(
                    #[trigger] cur[k],
                    ex[i],
                    nw[j],
                ) by {
                if k < prev.len() {
                    assert(cur[k] == prev[k]);
                } else {
                    assert(newer_file_for(ex, nw, n - 1, i) && takes_scan_keeps_user_data(
                        cur[k],
                        ex[i],
                        nw[n - 1],
                    ));
                }
            }
        }
    }
}

// ---------------------------------------------------------------------------
// What a search looks at
/// A search looks at name and path only: two samples with the same name,
/// path and enabled flag are listed alike for any search text and enabled
/// criterion, whatever their categories, ids, tempo or metadata.
pub proof fn law_search_ignores_categories(
    x: SampleView,
    y: SampleView,
    q: Seq<char>,
    enabled: Option<bool>,
)
    requires
        x.name == y.name,
        x.path == y.path,
        x.enabled == y.enabled,
    ensures
        matches_filter(x, Some(q), None, enabled) == matches_filter(y, Some(q), None, enabled),
{
}

/// A search for `q` lists exactly the samples whose name or path contains
/// `q`, both compared in lower case: every listed sample does, and every
/// sample that does (and passes the enabled criterion) is listed.
pub proof fn law_search_lists_name_or_path_matches(
    s: Seq<SampleView>,
    q: Seq<char>,
    enabled: Option<bool>,
)
    ensures
        forall|k: int|
            0 <= k < filtered(s, Some(q), None, enabled).len() ==> {
                let x = #[trigger] filtered(s, Some(q), None, enabled)[k];
                has_substring(lowercase(x.name), lowercase(q)) || has_substring(
                    lowercase(x.path),
                    lowercase(q),
                )
            },
        forall|k: int|
            0 <= k < s.len() && (enabled matches Some(en) ==> s[k].enabled == en) && (
            has_substring(lowercase(s[k].name), lowercase(q)) || has_substring(
                lowercase(s[k].path),
                lowercase(q),
            )) ==> filtered(s, Some(q), None, enabled).contains(#[trigger] s[k]),
        forall|k: int|
            0 <= k < s.len() && !has_substring(lowercase(s[k].name), lowercase(q))
                && !has_substring(lowercase(s[k].path), lowercase(q)) ==> !filtered(
                s,
                Some(q),
                None,
                enabled,
            ).contains(#[trigger] s[k]),
{
    law_filter_is_exact(s, Some(q), None, enabled);
    let f = filtered(s, Some(q), None, enabled);
    assert forall|k: int|
        0 <= k < s.len() && !has_substring(lowercase(s[k].name), lowercase(q))
            && !has_substring(lowercase(s[k].path), lowercase(q)) implies !f.contains(
        #[trigger] s[k],
    ) by {
        if f.contains(s[k]) {
            let m = choose|m: int| 0 <= m < f.len() && f[m] == s[k];
            assert(matches_filter(f[m], Some(q), None, enabled));
        }
    }
}

// ---------------------------------------------------------------------------
// Keys that open an editor
/// In normal mode with the help hidden, `/` opens the search with an empty
/// input, whatever it held before, asks for nothing and leaves the client's
/// configuration as it was.
pub proof fn law_slash_opens_an_empty_search<S, A, O>(
    before: App<S, A, O>,
    after: App<S, A, O>,
    cb: crate::model::ClientConfig,
    ca: crate::model::ClientConfig,
    r: UiCommand,
)
    requires
        !before.show_help,
        normal_key_done(before, after, cb, ca, Key::Char('/'), r),
    ensures
        after.input_mode == InputMode::Search,
        after.search_input@.len() == 0,
        after.category_input@ == before.category_input@,
        after.filtered_samples.deep_view() == before.filtered_samples.deep_view(),
        r is Nothing,
        ca == cb,
{
}

/// In normal mode with the help hidden, `c` opens the category input empty,
/// whatever it held before, and asks for nothing.
pub proof fn law_c_opens_an_empty_category<S, A, O>(
    before: App<S, A, O>,
    after: App<S, A, O>,
    cb: crate::model::ClientConfig,
    ca: crate::model::ClientConfig,
    r: UiCommand,
)
    requires
        !before.show_help,
        normal_key_done(before, after, cb, ca, Key::Char('c'), r),
    ensures
        after.input_mode == InputMode::Category,
        after.category_input@.len() == 0,
        after.search_input@ == before.search_input@,
        r is Nothing,
        ca == cb,
{
}

// ---------------------------------------------------------------------------
// The preview
/// The preview shows the sample's name, path and format, and the duration
/// and tempo texts it is given; "Unknown" and "Not analyzed" stand only where
/// no text is given.
pub proof fn law_preview_shows_what_is_known(
    s: SampleView,
    dur: Option<Seq<char>>,
    bpm: Option<Seq<char>>,
)
    ensures
        preview_text(s, dur, bpm).len() == 10,
        preview_text(s, dur, bpm)[0].1 == s.name,
        preview_text(s, dur, bpm)[1].1 == s.path,
        preview_text(s, dur, bpm)[2].1 == s.metadata.format,
        preview_text(s, dur, bpm)[3].0 == "Duration: "@,
        dur matches Some(d) ==> preview_text(s, dur, bpm)[3].1 == d,
        dur is None ==> preview_text(s, dur, bpm)[3].1 == "Unknown"@,
        preview_text(s, dur, bpm)[7].0 == "BPM: "@,
        bpm matches Some(b) ==> preview_text(s, dur, bpm)[7].1 == b,
        bpm is None ==> preview_text(s, dur, bpm)[7].1 == "Not analyzed"@,
        preview_text(s, dur, bpm)[8].1 == (if s.enabled {
            "Yes"@
        } else {
            "No"@
        }),
{
}

/// A text contains whatever a part of it contains.
proof fn lemma_substring_extends(a: Seq<char>, y: Seq<char>, b: Seq<char>, x: Seq<char>)
    requires
        has_substring(y, x),
    ensures
        has_substring(a + y, x),
        has_substring(y + b, x),
{
    let i = choose|i: int|
        0 <= i && i + x.len() <= y.len() && #[trigger] y.subrange(i, i + x.len()) == x;
    assert((a + y).subrange(a.len() + i, a.len() + i + x.len()) =~= y.subrange(i, i + x.len()));
    assert((y + b).subrange(i, i + x.len()) =~= y.subrange(i, i + x.len()));
}

/// Padding keeps the text it pads.
proof fn lemma_padding_keeps(x: Seq<char>, w: nat)
    ensures
        has_substring(pad_right(x, w), x),
        has_substring(pad_left(x, w), x),
{
    let r = pad_right(x, w);
    let l = pad_left(x, w);
    let z: int = 0;
    assert(r.subrange(z, z + x.len()) =~= x);
    let i = l.len() - x.len();
    assert(l.subrange(i, i + x.len()) =~= x);
}

/// Each column of a row contains its text: the mark and a space, the name
/// padded to 30, a space, the duration padded to 6, a space, the tempo padded
/// to 5, then the categories.
proof fn lemma_row_columns(s: SampleView, dur: Option<Seq<char>>, bpm: Option<Seq<char>>, x: Seq<char>)
    requires
        has_substring(pad_right(s.name, 30), x) || has_substring(
            pad_left(crate::render::or_text(dur, Seq::empty()), 6),
            x,
        ) || has_substring(pad_left(crate::render::or_text(bpm, "--"@), 5), x),
    ensures
        has_substring(row_text(s, dur, bpm), x),
{
    let m = crate::render::enabled_mark(s.enabled) + " "@;
    let pn = pad_right(s.name, 30);
    let pd = pad_left(crate::render::or_text(dur, Seq::empty()), 6);
    let pb = pad_left(crate::render::or_text(bpm, "--"@), 5);
    let c = crate::render::category_suffix(s.categories);
    let sp = " "@;
    let e = Seq::<char>::empty();
    if has_substring(pn, x) {
        lemma_substring_extends(m, pn, e, x);
        lemma_substring_extends(e, m + pn, sp, x);
        lemma_substring_extends(e, m + pn + sp, pd, x);
    } else if has_substring(pd, x) {
        lemma_substring_extends(m + pn + sp, pd, e, x);
    }
    if has_substring(pn, x) || has_substring(pd, x) {
        lemma_substring_extends(e, m + pn + sp + pd, sp, x);
        lemma_substring_extends(e, m + pn + sp + pd + sp, pb, x);
    } else {
        lemma_substring_extends(m + pn + sp + pd + sp, pb, e, x);
    }
    lemma_substring_extends(e, m + pn + sp + pd + sp + pb, c, x);
}

/// A row of the sample list begins with the enabled mark and shows the
/// sample's name, its duration text where it has one, and its tempo text (or
/// `--` where it has none).
pub proof fn law_row_shows_name_and_numbers(
    s: SampleView,
    dur: Option<Seq<char>>,
    bpm: Option<Seq<char>>,
)
    ensures
        row_text(s, dur, bpm)[1] == (if s.enabled {
            '●'
        } else {
            '○'
        }),
        has_substring(row_text(s, dur, bpm), s.name),
        dur matches Some(d) ==> has_substring(row_text(s, dur, bpm), d),
        bpm matches Some(b) ==> has_substring(row_text(s, dur, bpm), b),
        bpm is None ==> has_substring(row_text(s, dur, bpm), "--"@),
{
    reveal_strlit(" ●");
    reveal_strlit(" ○");
    lemma_padding_keeps(s.name, 30);
    lemma_row_columns(s, dur, bpm, s.name);
    let d = crate::render::or_text(dur, Seq::empty());
    let b = crate::render::or_text(bpm, "--"@);
    lemma_padding_keeps(d, 6);
    lemma_padding_keeps(b, 5);
    lemma_row_columns(s, dur, bpm, d);
    lemma_row_columns(s, dur, bpm, b);
}
} // verus!
