//! Queries and edits on a list of samples: filtering, lookup by id, the
//! enabled flag, categories, and the sorted list of all categories.
use vstd::prelude::*;
use crate::model::{Sample, SampleView};
use crate::text::{
    has_substring, lowercase, str_contains, text_eq, text_lt, lower, str_lt,
    lemma_text_lt_irreflexive, lemma_text_lt_transitive, lemma_text_lt_total,
};

verus! {

broadcast use vstd::seq_lib::group_seq_properties;

// ---------------------------------------------------------------------------
// Filtering
/// The sample's name or path contains `q`, both compared in lower case.
pub open spec fn matches_search(s: SampleView, q: Seq<char>) -> bool {
    has_substring(lowercase(s.name), lowercase(q)) || has_substring(lowercase(s.path), lowercase(q))
}

/// The sample passes every criterion that is given.
pub open spec fn matches_filter(
    s: SampleView,
    search: Option<Seq<char>>,
    category: Option<Seq<char>>,
    enabled: Option<bool>,
) -> bool {
    &&& (enabled matches Some(en) ==> s.enabled == en)
    &&& (category matches Some(c) ==> s.categories.contains(c))
    &&& (search matches Some(q) ==> matches_search(s, q))
}

/// The samples of `s` that pass the criteria, in their order.
pub open spec fn filtered(
    s: Seq<SampleView>,
    search: Option<Seq<char>>,
    category: Option<Seq<char>>,
    enabled: Option<bool>,
) -> Seq<SampleView> {
    s.filter(|x: SampleView| matches_filter(x, search, category, enabled))
}

/// Whether `cats` holds `c`.
pub fn has_category(cats: &Vec<String>, c: &str) -> (r: bool)
    ensures
        r == cats.deep_view().contains(c@),
{
    let mut i: usize = 0;
    while i < cats.len()
        invariant
            i <= cats@.len(),
            forall|k: int| 0 <= k < i ==> cats@[k]@ != c@,
        decreases cats.len() - i,
    {
        if text_eq(cats[i].as_str(), c) {
            assert(cats.deep_view()[i as int] == c@);
            return true;
        }
        i = i + 1;
    }
    assert(!cats.deep_view().contains(c@)) by {
        if cats.deep_view().contains(c@) {
            let k = choose|k: int| 0 <= k < cats.deep_view().len() && cats.deep_view()[k] == c@;
            assert(cats@[k]@ == c@);
        }
    }
    false
}

/// Whether the sample's name or path contains `q`, ignoring case.
pub fn sample_matches_search(s: &Sample, q: &str) -> (r: bool)
    ensures
        r == matches_search(s@, q@),
        r == (has_substring(lowercase(s@.name), lowercase(q@)) || has_substring(
            lowercase(s@.path),
            lowercase(q@),
        )),
{
    let lq = lower(q);
    let ln = lower(s.name.as_str());
    if str_contains(ln.as_str(), lq.as_str()) {
        return true;
    }
    let lp = lower(s.path.as_str());
    str_contains(lp.as_str(), lq.as_str())
}

/// Whether the sample passes every criterion that is given.
pub fn sample_matches(
    s: &Sample,
    search: Option<&str>,
    category: Option<&str>,
    enabled: Option<bool>,
) -> (r: bool)
    ensures
        r == matches_filter(s@, search.deep_view(), category.deep_view(), enabled),
{
    if let Some(en) = enabled {
        if s.enabled != en {
            return false;
        }
    }
    if let Some(cat) = category {
        if !has_category(&s.categories, cat) {
            return false;
        }
    }
    if let Some(q) = search {
        if !sample_matches_search(s, q) {
            return false;
        }
    }
    true
}

/// Copies of the samples that pass the criteria, in their order.
pub fn filter_samples(
    samples: &Vec<Sample>,
    search: Option<&str>,
    category: Option<&str>,
    enabled: Option<bool>,
) -> (r: Vec<Sample>)
    ensures
        r.deep_view() == filtered(
            samples.deep_view(),
            search.deep_view(),
            category.deep_view(),
            enabled,
        ),
{
    let ghost pred = |x: SampleView|
        matches_filter(x, search.deep_view(), category.deep_view(), enabled);
    let ghost all = samples.deep_view();
    let mut r: Vec<Sample> = Vec::new();
    let mut i: usize = 0;
    assert(all.take(0) =~= Seq::<SampleView>::empty());
    while i < samples.len()
        invariant
            all == samples.deep_view(),
            i <= all.len(),
            r.deep_view() == all.take(i as int).filter(pred),
            pred == (|x: SampleView|
                matches_filter(x, search.deep_view(), category.deep_view(), enabled)),
        decreases samples.len() - i,
    {
        let ghost before = r.deep_view();
        assert(all.take(i + 1) =~= all.take(i as int).push(all[i as int]));
        proof { all.take(i as int).lemma_filter_push(all[i as int], pred); }
        if sample_matches(&samples[i], search, category, enabled) {
            r.push(samples[i].duplicate());
            assert(r.deep_view() =~= before.push(all[i as int]));
        } else {
            assert(r.deep_view() =~= before);
        }
        i = i + 1;
    }
    assert(all.take(i as int) =~= all);
    r
}

// ---------------------------------------------------------------------------
// Lookup by id
/// The index of the first sample with id `id`, or -1 if there is none.
pub open spec fn index_of_id(s: Seq<SampleView>, id: u128) -> int
    decreases s.len(),
{
    if s.len() == 0 {
        -1
    } else if s[0].id == id {
        0
    } else {
        let r = index_of_id(s.drop_first(), id);
        if r < 0 {
            -1
        } else {
            r + 1
        }
    }
}

/// `index_of_id` is the first index holding `id`, or -1 where no sample has it.
pub proof fn lemma_index_of_id(s: Seq<SampleView>, id: u128)
    ensures
        -1 <= index_of_id(s, id) < s.len(),
        index_of_id(s, id) >= 0 ==> s[index_of_id(s, id)].id == id,
        forall|k: int| 0 <= k < s.len() && (index_of_id(s, id) < 0 || k < index_of_id(s, id))
            ==> #[trigger] s[k].id != id,
    decreases s.len(),
{
    if s.len() > 0 && s[0].id != id {
        lemma_index_of_id(s.drop_first(), id);
        assert forall|k: int|
            0 <= k < s.len() && (index_of_id(s, id) < 0 || k < index_of_id(s, id)) implies #[trigger] s[k].id
            != id by {
            if k > 0 {
                assert(s[k] == s.drop_first()[k - 1]);
            }
        }
    }
}

/// The position of the first sample with id `id`.
pub fn find_sample(samples: &Vec<Sample>, id: u128) -> (r: Option<usize>)
    ensures
        match r {
            Some(i) => i as int == index_of_id(samples.deep_view(), id),
            None => index_of_id(samples.deep_view(), id) < 0,
        },
{
    proof {
        lemma_index_of_id(samples.deep_view(), id);
    }
    let mut i: usize = 0;
    while i < samples.len()
        invariant
            i <= samples@.len(),
            forall|k: int| 0 <= k < i ==> samples@[k].id != id,
            -1 <= index_of_id(samples.deep_view(), id) < samples.deep_view().len(),
            index_of_id(samples.deep_view(), id) >= 0 ==> samples.deep_view()[index_of_id(
                samples.deep_view(),
                id,
            )].id == id,
            forall|k: int|
                0 <= k < samples.deep_view().len() && (index_of_id(samples.deep_view(), id) < 0
                    || k < index_of_id(samples.deep_view(), id)) ==> #[trigger] samples.deep_view()[k].id
                    != id,
        decreases samples.len() - i,
    {
        if samples[i].id == id {
            assert(samples.deep_view()[i as int].id == id);
            return Some(i);
        }
        assert(samples.deep_view()[i as int].id != id);
        i = i + 1;
    }
    proof {
        if index_of_id(samples.deep_view(), id) >= 0 {
            let j = index_of_id(samples.deep_view(), id);
            assert(samples@[j].id == samples.deep_view()[j].id);
        }
    }
    None
}

// ---------------------------------------------------------------------------
// Editing one sample
/// `s` with its enabled flag flipped.
pub open spec fn toggled(s: SampleView) -> SampleView {
    SampleView { enabled: !s.enabled, ..s }
}

/// `s` with category `c` added at the end, unless it already has it.
pub open spec fn with_category(s: SampleView, c: Seq<char>) -> SampleView {
    if s.categories.contains(c) {
        s
    } else {
        SampleView { categories: s.categories.push(c), ..s }
    }
}

/// Holds of the strings other than `c`.
pub open spec fn other_than(c: Seq<char>) -> spec_fn(Seq<char>) -> bool {
    |x: Seq<char>| x != c
}

/// `s` without any occurrence of category `c`.
pub open spec fn without_category(s: SampleView, c: Seq<char>) -> SampleView {
    SampleView { categories: s.categories.filter(other_than(c)), ..s }
}

/// Flips the enabled flag of the first sample with id `id` and returns its new
/// value; `None`, with nothing changed, where no sample has that id.
pub fn toggle_sample(samples: &mut Vec<Sample>, id: u128) -> (r: Option<bool>)
    ensures
        ({
            let i = index_of_id(old(samples).deep_view(), id);
            if i < 0 {
                r is None && final(samples).deep_view() == old(samples).deep_view()
            } else {
                &&& r == Some(!old(samples).deep_view()[i].enabled)
                &&& final(samples).deep_view() == old(samples).deep_view().update(
                    i,
                    toggled(old(samples).deep_view()[i]),
                )
            }
        }),
{
    proof {
        lemma_index_of_id(old(samples).deep_view(), id);
    }
    match find_sample(samples, id) {
        None => None,
        Some(i) => {
            let ghost before = samples.deep_view();
            let en = !samples[i].enabled;
            samples[i].enabled = en;
            assert(samples.deep_view() =~= before.update(i as int, toggled(before[i as int])));
            Some(en)
        },
    }
}

/// Adds category `category` to the first sample with id `id`, unless that
/// sample has it already; `false`, with nothing changed, where no sample has
/// that id.
pub fn add_category(samples: &mut Vec<Sample>, id: u128, category: String) -> (r: bool)
    ensures
        ({
            let i = index_of_id(old(samples).deep_view(), id);
            if i < 0 {
                !r && final(samples).deep_view() == old(samples).deep_view()
            } else {
                &&& r
                &&& final(samples).deep_view() == old(samples).deep_view().update(
                    i,
                    with_category(old(samples).deep_view()[i], category@),
                )
            }
        }),
{
    proof {
        lemma_index_of_id(old(samples).deep_view(), id);
    }
    match find_sample(samples, id) {
        None => false,
        Some(i) => {
            let ghost before = samples.deep_view();
            if !has_category(&samples[i].categories, category.as_str()) {
                let ghost cats = samples@[i as int].categories;
                samples[i].categories.push(category);
                assert(samples@[i as int].categories.deep_view() =~= cats.deep_view().push(
                    category@,
                ));
            }
            assert(samples.deep_view() =~= before.update(
                i as int,
                with_category(before[i as int], category@),
            ));
            true
        },
    }
}

/// The strings of `v` other than `c`, in their order.
pub fn strings_without(v: &Vec<String>, c: &str) -> (r: Vec<String>)
    ensures
        r.deep_view() == v.deep_view().filter(other_than(c@)),
{
    let ghost pred = other_than(c@);
    let ghost all = v.deep_view();
    let mut r: Vec<String> = Vec::new();
    let mut i: usize = 0;
    assert(all.take(0) =~= Seq::<Seq<char>>::empty());
    while i < v.len()
        invariant
            all == v.deep_view(),
            i <= all.len(),
            r.deep_view() == all.take(i as int).filter(pred),
            pred == other_than(c@),
        decreases v.len() - i,
    {
        let ghost before = r.deep_view();
        assert(all.take(i + 1) =~= all.take(i as int).push(all[i as int]));
        proof { all.take(i as int).lemma_filter_push(all[i as int], pred); }
        if !text_eq(v[i].as_str(), c) {
            r.push(v[i].clone());
            assert(r.deep_view() =~= before.push(all[i as int]));
        } else {
            assert(r.deep_view() =~= before);
        }
        i = i + 1;
    }
    assert(all.take(i as int) =~= all);
    r
}

/// Removes category `category` from the first sample with id `id`; `false`,
/// with nothing changed, where no sample has that id.
pub fn remove_category(samples: &mut Vec<Sample>, id: u128, category: &str) -> (r: bool)
    ensures
        ({
            let i = index_of_id(old(samples).deep_view(), id);
            if i < 0 {
                !r && final(samples).deep_view() == old(samples).deep_view()
            } else {
                &&& r
                &&& final(samples).deep_view() == old(samples).deep_view().update(
                    i,
                    without_category(old(samples).deep_view()[i], category@),
                )
            }
        }),
{
    proof {
        lemma_index_of_id(old(samples).deep_view(), id);
    }
    match find_sample(samples, id) {
        None => false,
        Some(i) => {
            let ghost before = samples.deep_view();
            let kept = strings_without(&samples[i].categories, category);
            samples[i].categories = kept;
            assert(samples.deep_view() =~= before.update(
                i as int,
                without_category(before[i as int], category@),
            ));
            true
        },
    }
}

/// Sets the tempo (as `f64` bits) of the first sample with id `id`; `false`,
/// with nothing changed, where no sample has that id.
pub fn set_bpm(samples: &mut Vec<Sample>, id: u128, bpm_bits: u64) -> (r: bool)
    ensures
        ({
            let i = index_of_id(old(samples).deep_view(), id);
            if i < 0 {
                !r && final(samples).deep_view() == old(samples).deep_view()
            } else {
                &&& r
                &&& final(samples).deep_view() == old(samples).deep_view().update(
                    i,
                    SampleView { bpm_bits: Some(bpm_bits), ..old(samples).deep_view()[i] },
                )
            }
        }),
{
    proof {
        lemma_index_of_id(old(samples).deep_view(), id);
    }
    match find_sample(samples, id) {
        None => false,
        Some(i) => {
            let ghost before = samples.deep_view();
            samples[i].bpm_bits = Some(bpm_bits);
            assert(samples.deep_view() =~= before.update(
                i as int,
                SampleView { bpm_bits: Some(bpm_bits), ..before[i as int] },
            ));
            true
        },
    }
}

// ---------------------------------------------------------------------------
// All categories
/// `v` is in strictly increasing lexicographic order (so it holds no string twice).
pub open spec fn strictly_sorted(v: Seq<Seq<char>>) -> bool {
    forall|i: int, j: int| 0 <= i < j < v.len() ==> text_lt(#[trigger] v[i], #[trigger] v[j])
}

/// Every category that some sample of `s` has.
pub open spec fn category_set(s: Seq<SampleView>) -> Set<Seq<char>> {
    Set::new(|c: Seq<char>| exists|i: int| 0 <= i < s.len() && #[trigger] s[i].categories.contains(c))
}

/// Inserts `c` into the strictly sorted `v` at its place, unless `v` holds it.
pub fn insert_sorted(v: &mut Vec<String>, c: &String)
    requires
        strictly_sorted(old(v).deep_view()),
    ensures
        strictly_sorted(final(v).deep_view()),
        final(v).deep_view().to_set() == old(v).deep_view().to_set().insert(c@),
{
    let ghost before = v.deep_view();
    let mut i: usize = 0;
    while i < v.len() && str_lt(v[i].as_str(), c.as_str())
        invariant
            before == v.deep_view(),
            i <= before.len(),
            forall|k: int| 0 <= k < i ==> text_lt(#[trigger] before[k], c@),
        decreases v.len() - i,
    {
        assert(before[i as int] == v@[i as int]@);
        i = i + 1;
    }
    if i < v.len() && text_eq(v[i].as_str(), c.as_str()) {
        assert(before[i as int] == c@);
        assert(before.to_set().insert(c@) =~= before.to_set());
        return;
    }
    // here c comes strictly before v[i], if there is one
    proof {
        if i < before.len() {
            assert(before[i as int] == v@[i as int]@);
            assert(!text_lt(before[i as int], c@));
            assert(before[i as int] != c@);
            lemma_text_lt_total(before[i as int], c@);
        }
    }
    v.insert(i, c.clone());
    let ghost after = v.deep_view();
    assert(after =~= before.take(i as int).push(c@) + before.skip(i as int));
    assert forall|a: int, b: int| 0 <= a < b < after.len() implies text_lt(
        #[trigger] after[a],
        #[trigger] after[b],
    ) by {
        if b < i {
            assert(after[a] == before[a] && after[b] == before[b]);
        } else if b == i {
            assert(after[a] == before[a]);
        } else if a < i {
            assert(after[a] == before[a] && after[b] == before[b - 1]);
            assert(text_lt(before[a], c@));
            assert(text_lt(c@, before[i as int]));
            if b - 1 > i {
                lemma_text_lt_transitive(c@, before[i as int], before[b - 1]);
            }
            lemma_text_lt_transitive(before[a], c@, before[b - 1]);
        } else if a == i {
            assert(after[b] == before[b - 1]);
            if b - 1 > i {
                lemma_text_lt_transitive(c@, before[i as int], before[b - 1]);
            }
        } else {
            assert(after[a] == before[a - 1] && after[b] == before[b - 1]);
        }
    }
    assert forall|x: Seq<char>| after.to_set().contains(x) <==> before.to_set().insert(
        c@,
    ).contains(x) by {
        if after.contains(x) {
            let k = choose|k: int| 0 <= k < after.len() && after[k] == x;
            if k < i {
                assert(before[k] == x);
            } else if k > i {
                assert(before[k - 1] == x);
            }
        }
        if before.contains(x) {
            let k = choose|k: int| 0 <= k < before.len() && before[k] == x;
            if k < i {
                assert(after[k] == x);
            } else {
                assert(after[k + 1] == x);
            }
        }
        if x == c@ {
            assert(after[i as int] == x);
        }
    }
    assert(after.to_set() =~= before.to_set().insert(c@));
}

/// Every category of every sample, each once, in lexicographic order.
pub fn all_categories(samples: &Vec<Sample>) -> (r: Vec<String>)
    ensures
        strictly_sorted(r.deep_view()),
        r.deep_view().to_set() == category_set(samples.deep_view()),
{
    let ghost all = samples.deep_view();
    let mut r: Vec<String> = Vec::new();
    let mut i: usize = 0;
    assert(r.deep_view().to_set() =~= category_set(all.take(0)));
    while i < samples.len()
        invariant
            all == samples.deep_view(),
            i <= all.len(),
            strictly_sorted(r.deep_view()),
            r.deep_view().to_set() == category_set(all.take(i as int)),
        decreases samples.len() - i,
    {
        let cats = &samples[i].categories;
        let ghost cv = cats.deep_view();
        assert(cv == all[i as int].categories);
        let mut j: usize = 0;
        while j < cats.len()
            invariant
                all == samples.deep_view(),
                i < all.len(),
                cv == cats.deep_view(),
                cv == all[i as int].categories,
                j <= cv.len(),
                strictly_sorted(r.deep_view()),
                r.deep_view().to_set() == category_set(all.take(i as int)).union(
                    cv.take(j as int).to_set(),
                ),
            decreases cats.len() - j,
        {
            let ghost prev = r.deep_view().to_set();
            insert_sorted(&mut r, &cats[j]);
            assert(cv.take(j + 1) =~= cv.take(j as int).push(cv[j as int]));
            assert(cv.take(j + 1).to_set() =~= cv.take(j as int).to_set().insert(cv[j as int]));
            assert(r.deep_view().to_set() =~= category_set(all.take(i as int)).union(
                cv.take(j + 1).to_set(),
            ));
            j = j + 1;
        }
        assert(cv.take(j as int) =~= cv);
        assert forall|c: Seq<char>|
            category_set(all.take(i + 1)).contains(c) <==> #[trigger] category_set(
                all.take(i as int),
            ).union(cv.to_set()).contains(c) by {
            if category_set(all.take(i + 1)).contains(c) {
                let k = choose|k: int|
                    0 <= k < all.take(i + 1).len() && #[trigger] all.take(
                        i + 1,
                    )[k].categories.contains(c);
                if k < i {
                    assert(all.take(i as int)[k] == all.take(i + 1)[k]);
                    assert(category_set(all.take(i as int)).contains(c));
                } else {
                    assert(cv.contains(c));
                }
            }
            if category_set(all.take(i as int)).contains(c) {
                let k = choose|k: int|
                    0 <= k < all.take(i as int).len() && #[trigger] all.take(
                        i as int,
                    )[k].categories.contains(c);
                assert(all.take(i + 1)[k] == all.take(i as int)[k]);
                assert(all.take(i + 1)[k].categories.contains(c));
            }
            if cv.to_set().contains(c) {
                assert(all.take(i + 1)[i as int].categories.contains(c));
            }
        }
        assert(category_set(all.take(i + 1)) =~= category_set(all.take(i as int)).union(
            cv.to_set(),
        ));
        i = i + 1;
    }
    assert(all.take(i as int) =~= all);
    r
}

} // verus!
