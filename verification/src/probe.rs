//! What an audio file's container reports about it, as symphonia's probe
//! lists it: the details of each track and the text tags. From that report
//! come the file's metadata and length, taken from its first track that
//! names a codec.
use vstd::prelude::*;
use crate::model::{SampleMetadata, MetadataView};
use crate::pairs::{keys_unique, pairs_map};
use crate::scan::format_of_path;

verus! {

broadcast use vstd::seq_lib::group_seq_properties;

/// Track `i` is the first of `ts` that names a codec.
pub open spec fn is_first_playable(
    ts: Seq<(bool, Option<u32>, Option<usize>, Option<u32>, Option<u64>)>,
    i: int,
) -> bool {
    &&& 0 <= i < ts.len()
    &&& ts[i].0
    &&& forall|j: int| 0 <= j < i ==> !#[trigger] ts[j].0
}

/// Some track of `ts` names a codec.
pub open spec fn has_playable(ts: Seq<(bool, Option<u32>, Option<usize>, Option<u32>, Option<u64>)>) -> bool {
    exists|i: int| 0 <= i < ts.len() && #[trigger] ts[i].0
}

/// The tags whose value is a string, as (key, value) pairs, in order.
pub open spec fn string_tags(tags: Seq<(Seq<char>, Option<Seq<char>>)>) -> Seq<(Seq<char>, Seq<char>)>
    decreases tags.len(),
{
    if tags.len() == 0 {
        Seq::empty()
    } else {
        let rest = string_tags(tags.drop_last());
        match tags.last().1 {
            Some(v) => rest.push((tags.last().0, v)),
            None => rest,
        }
    }
}

/// The string tags of the container's current metadata: none where it has
/// no metadata.
pub open spec fn tags_found(t: Option<Seq<(Seq<char>, Option<Seq<char>>)>>) -> Seq<
    (Seq<char>, Seq<char>),
> {
    match t {
        Some(tags) => string_tags(tags),
        None => Seq::empty(),
    }
}

/// `m` is the metadata of the file at `path` whose first playable track
/// reports `t` and whose string tags are `tags`: the format from the path's
/// extension, a missing rate or channel count as 0, the channel count and the
/// bits per sample cut to 16 bits, and the tags with the last value of each key.
pub open spec fn track_metadata(
    m: MetadataView,
    path: Seq<char>,
    t: (bool, Option<u32>, Option<usize>, Option<u32>, Option<u64>),
    tags: Seq<(Seq<char>, Seq<char>)>,
) -> bool {
    &&& m.format == format_of_path(path)
    &&& m.sample_rate == match t.1 {
        Some(x) => x,
        None => 0u32,
    }
    &&& m.channels == match t.2 {
        Some(c) => c as u16,
        None => 0u16,
    }
    &&& m.bit_depth == match t.3 {
        Some(b) => Some(b as u16),
        None => None,
    }
    &&& keys_unique(m.tags)
    &&& pairs_map(m.tags) == pairs_map(tags)
}

/// The index of the first track that names a codec, if any.
pub fn first_playable(ts: &Vec<(bool, Option<u32>, Option<usize>, Option<u32>, Option<u64>)>) -> (r: Option<
    usize,
>)
    ensures
        match r {
            Some(i) => is_first_playable(ts@, i as int),
            None => !has_playable(ts@),
        },
{
    let mut i: usize = 0;
    while i < ts.len()
        invariant
            i <= ts@.len(),
            forall|j: int| 0 <= j < i ==> !#[trigger] ts@[j].0,
        decreases ts.len() - i,
    {
        if ts[i].0 {
            return Some(i);
        }
        i = i + 1;
    }
    None
}

/// The (key, value) pairs of the tags whose value is a string, in order.
fn keep_string_tags(tags: Vec<(String, Option<String>)>) -> (r: Vec<(String, String)>)
    ensures
        r.deep_view() == string_tags(tags.deep_view()),
{
    let mut r: Vec<(String, String)> = Vec::new();
    let mut i: usize = 0;
    while i < tags.len()
        invariant
            i <= tags@.len(),
            r.deep_view() == string_tags(tags.deep_view().take(i as int)),
        decreases tags.len() - i,
    {
        assert(tags.deep_view().take(i + 1).drop_last() =~= tags.deep_view().take(i as int));
        let ghost prev = r.deep_view();
        match &tags[i].1 {
            Some(v) => {
                r.push((tags[i].0.clone(), v.clone()));
                assert(r.deep_view() =~= prev.push((tags.deep_view()[i as int].0, v@)));
            },
            None => {},
        }
        i = i + 1;
    }
    assert(tags.deep_view().take(i as int) =~= tags.deep_view());
    r
}

/// The metadata of the audio file at `path` whose container lists `tracks`
/// (for each: whether it names a codec, its sample rate, channel count, bits
/// per sample and number of frames) and, where it has metadata, the tags
/// `tags` (each key, with its value where that is a string); taken from its
/// first track that names a codec, none where no track does.
pub fn metadata_from_probe(
    path: &str,
    tracks: &Vec<(bool, Option<u32>, Option<usize>, Option<u32>, Option<u64>)>,
    tags: Option<Vec<(String, Option<String>)>>,
) -> (r: Option<SampleMetadata>)
    ensures
        has_playable(tracks@) ==> r is Some && forall|i: int| #[trigger]
            is_first_playable(tracks@, i) ==> track_metadata(
                r->0@,
                path@,
                tracks@[i],
                tags_found(tags.deep_view()),
            ),
        !has_playable(tracks@) ==> r is None,
{
    let i = match first_playable(tracks) {
        Some(i) => i,
        None => return None,
    };
    let found = match tags {
        Some(tags) => keep_string_tags(tags),
        None => Vec::new(),
    };
    assert(found.deep_view() =~= tags_found(tags.deep_view()));
    let (_, rate, channels, bits, _) = tracks[i];
    let m = SampleMetadata::from_track(path, rate, channels, bits, found);
    proof {
        lemma_first_playable_unique(tracks@, i as int);
    }
    Some(m)
}

/// The number of frames and the sample rate of the first track of `tracks`
/// that names a codec, where it reports both; none where no track names one.
pub fn length_from_probe(tracks: &Vec<(bool, Option<u32>, Option<usize>, Option<u32>, Option<u64>)>) -> (r:
    Option<(u64, u32)>)
    ensures
        has_playable(tracks@) ==> forall|i: int| #[trigger]
            is_first_playable(tracks@, i) ==> r == match (tracks@[i].4, tracks@[i].1) {
                (Some(n), Some(rate)) => Some((n, rate)),
                _ => None,
            },
        !has_playable(tracks@) ==> r is None,
{
    let i = match first_playable(tracks) {
        Some(i) => i,
        None => return None,
    };
    proof {
        lemma_first_playable_unique(tracks@, i as int);
    }
    match (tracks[i].4, tracks[i].1) {
        (Some(n), Some(rate)) => Some((n, rate)),
        _ => None,
    }
}

/// Only one track is the first that names a codec.
proof fn lemma_first_playable_unique(
    ts: Seq<(bool, Option<u32>, Option<usize>, Option<u32>, Option<u64>)>,
    i: int,
)
    requires
        is_first_playable(ts, i),
    ensures
        forall|j: int| #[trigger] is_first_playable(ts, j) ==> j == i,
{
    assert forall|j: int| #[trigger] is_first_playable(ts, j) implies j == i by {
        if j < i {
            assert(!ts[j].0);
        } else if i < j {
            assert(!ts[i].0);
        }
    }
}

} // verus!
