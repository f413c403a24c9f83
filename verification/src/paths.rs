//! File names, stems and extensions of paths held as text.
use vstd::prelude::*;
use crate::text::{string_from_chars, chars_of, lowercase, lower};
use crate::model::{supported_extension, is_supported_extension};

verus! {

/// The pieces of `path` between `/` separators, in order, empty ones
/// included.
pub open spec fn slash_pieces(path: Seq<char>) -> Seq<Seq<char>>
    decreases path.len(),
{
    if path.len() == 0 {
        seq![Seq::empty()]
    } else {
        let rest = slash_pieces(path.drop_last());
        if path.last() == '/' {
            rest.push(Seq::empty())
        } else {
            rest.update(rest.len() - 1, rest.last().push(path.last()))
        }
    }
}

/// The pieces of `path` that are components: neither empty nor `.`.
pub open spec fn path_components(path: Seq<char>) -> Seq<Seq<char>> {
    slash_pieces(path).filter(|p: Seq<char>| p.len() > 0 && p != seq!['.'])
}

/// What `std::path::Path::file_name` gives for a path on Unix: its last
/// component, with repeated separators and `.` ignored; nothing where there is
/// none (an empty path, a root, `.`) or where it is `..`.
pub open spec fn path_file_name(path: Seq<char>) -> Option<Seq<char>> {
    let c = path_components(path);
    if c.len() == 0 || c.last() == seq!['.', '.'] {
        None
    } else {
        Some(c.last())
    }
}

/// Calls `std::path::Path::file_name` and turns the component into a `String`
/// (lossless: the component of a `str` is valid UTF-8). On Unix, where `/` is
/// the only separator, `Path::components` skips repeated separators and
/// every `.` (a leading one as `CurDir`), and `file_name` gives the last
/// component where it is a normal one, not the root, `.` or `..`: that is
/// `path_file_name`.
#[verifier::external_body]
pub(crate) fn file_name(path: &str) -> (r: Option<String>)
    ensures
        r.deep_view() == path_file_name(path@),
{
    std::path::Path::new(path).file_name().map(|f| f.to_string_lossy().to_string())
}

/// The index of the last `.` in `s`, or -1 if there is none.
pub open spec fn last_dot(s: Seq<char>) -> int
    decreases s.len(),
{
    if s.len() == 0 {
        -1
    } else if s.last() == '.' {
        s.len() - 1
    } else {
        last_dot(s.drop_last())
    }
}

/// The stem of a file name as `std::path` documents it: the whole name where
/// it has no `.` other than a leading one, else the part before the last `.`.
pub open spec fn stem_of_name(n: Seq<char>) -> Seq<char> {
    if last_dot(n) <= 0 {
        n
    } else {
        n.take(last_dot(n))
    }
}

/// The extension of a file name as `std::path` documents it: none where the
/// name has no `.` other than a leading one, else the part after the last `.`.
pub open spec fn extension_of_name(n: Seq<char>) -> Option<Seq<char>> {
    if last_dot(n) <= 0 {
        None
    } else {
        Some(n.skip(last_dot(n) + 1))
    }
}

/// `Path::file_stem` of a path.
pub open spec fn path_file_stem(path: Seq<char>) -> Option<Seq<char>> {
    match path_file_name(path) {
        Some(n) => Some(stem_of_name(n)),
        None => None,
    }
}

/// `Path::extension` of a path.
pub open spec fn path_extension(path: Seq<char>) -> Option<Seq<char>> {
    match path_file_name(path) {
        Some(n) => extension_of_name(n),
        None => None,
    }
}

proof fn lemma_last_dot(s: Seq<char>)
    ensures
        -1 <= last_dot(s) < s.len(),
        last_dot(s) >= 0 ==> s[last_dot(s)] == '.',
        forall|k: int| last_dot(s) < k < s.len() ==> s[k] != '.',
    decreases s.len(),
{
    if s.len() > 0 && s.last() != '.' {
        lemma_last_dot(s.drop_last());
        assert forall|k: int| last_dot(s) < k < s.len() implies s[k] != '.' by {
            if k < s.len() - 1 {
                assert(s[k] == s.drop_last()[k]);
            }
        }
    }
}

fn find_last_dot(v: &Vec<char>) -> (r: usize)
    ensures
        r as int == last_dot(v@) + 1,
{
    let mut i: usize = v.len();
    assert(v@.take(v@.len() as int) =~= v@);
    while i > 0 && v[i - 1] != '.'
        invariant
            i <= v@.len(),
            last_dot(v@) == last_dot(v@.take(i as int)),
        decreases i,
    {
        assert(v@.take(i - 1) =~= v@.take(i as int).drop_last());
        i = i - 1;
    }
    if i > 0 {
        assert(v@.take(i as int).last() == '.');
    }
    assert(v@.take(v@.len() as int) =~= v@);
    i
}

fn chars_range(v: &Vec<char>, from: usize, to: usize) -> (r: Vec<char>)
    requires
        from <= to <= v@.len(),
    ensures
        r@ == v@.subrange(from as int, to as int),
{
    let mut r: Vec<char> = Vec::new();
    let mut i = from;
    while i < to
        invariant
            from <= i <= to <= v@.len(),
            r@ == v@.subrange(from as int, i as int),
        decreases to - i,
    {
        r.push(v[i]);
        i = i + 1;
        assert(r@ =~= v@.subrange(from as int, i as int));
    }
    r
}

/// The stem of the path's file name (`Path::file_stem`).
pub fn file_stem(path: &str) -> (r: Option<String>)
    ensures
        r.deep_view() == path_file_stem(path@),
{
    match file_name(path) {
        None => None,
        Some(n) => {
            let cs = chars_of(n.as_str());
            let d = find_last_dot(&cs);
            proof {
                lemma_last_dot(cs@);
            }
            if d <= 1 {
                Some(n)
            } else {
                let stem = chars_range(&cs, 0, d - 1);
                assert(stem@ =~= cs@.take(last_dot(cs@)));
                Some(string_from_chars(&stem))
            }
        },
    }
}

/// The extension of the path's file name (`Path::extension`).
pub fn extension(path: &str) -> (r: Option<String>)
    ensures
        r.deep_view() == path_extension(path@),
{
    match file_name(path) {
        None => None,
        Some(n) => {
            let cs = chars_of(n.as_str());
            let d = find_last_dot(&cs);
            proof {
                lemma_last_dot(cs@);
            }
            if d <= 1 {
                None
            } else {
                let ext = chars_range(&cs, d, cs.len());
                assert(ext@ =~= cs@.skip(last_dot(cs@) + 1));
                Some(string_from_chars(&ext))
            }
        },
    }
}

/// The file name of the path, or the empty string where it has none.
pub fn file_name_or_empty(path: &str) -> (r: String)
    ensures
        r@ == match path_file_name(path@) {
            Some(n) => n,
            None => Seq::<char>::empty(),
        },
{
    match file_name(path) {
        Some(n) => n,
        None => String::new(),
    }
}

/// The path names a file of a supported audio format: its extension, in
/// lower case, is one of the supported ones.
pub open spec fn supported_audio_path(path: Seq<char>) -> bool {
    match path_extension(path) {
        Some(e) => supported_extension(lowercase(e)),
        None => false,
    }
}

/// Whether the path names a file of a supported audio format.
pub fn is_supported_audio(path: &str) -> (r: bool)
    ensures
        r == supported_audio_path(path@),
{
    match extension(path) {
        Some(e) => {
            let low = lower(e.as_str());
            is_supported_extension(low.as_str())
        },
        None => false,
    }
}

} // verus!
