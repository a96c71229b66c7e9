//! Pair resolution and media classification.
//!
//! A sidecar file is recognized purely by its name: it must end with the fixed
//! sidecar suffix. Stripping that suffix yields the path of the media file the
//! sidecar describes. A media path in turn is classified into one of two
//! strategies, `Image` or `Video`, by its extension alone, case-insensitively.

use vstd::prelude::*;

use crate::errors::ProcessError;
use crate::strutil::{find_last, last_index_of, lemma_last_index_bounds, str_range_eq};

verus! {

/// The fixed suffix that marks a sidecar file.
pub open spec fn sidecar_suffix() -> Seq<char> {
    ".supplemental-metadata.json"@
}

/// The sidecar suffix as an executable string.
pub fn sidecar_suffix_str() -> (r: &'static str)
    ensures
        r@ == sidecar_suffix(),
{
    ".supplemental-metadata.json"
}

/// Whether `p` ends with the sidecar suffix.
pub open spec fn has_sidecar_suffix(p: Seq<char>) -> bool {
    p.len() >= sidecar_suffix().len() && p.subrange(
        p.len() - sidecar_suffix().len(),
        p.len() as int,
    ) == sidecar_suffix()
}

/// The media path that a sidecar path stands for: the path with the sidecar
/// suffix removed.
pub open spec fn media_path_of(p: Seq<char>) -> Seq<char> {
    p.subrange(0, p.len() - sidecar_suffix().len())
}

/// Removing the suffix and appending it again restores the sidecar path
/// exactly: pair resolution loses nothing.
pub proof fn lemma_resolve_round_trip(p: Seq<char>)
    requires
        has_sidecar_suffix(p),
    ensures
        media_path_of(p) + sidecar_suffix() == p,
{
    assert(media_path_of(p) + sidecar_suffix() =~= p);
}

/// Derives the media path from a sidecar path by stripping the sidecar
/// suffix. Pure string truncation: no file-system access, and the result is
/// defined whether or not the media file exists.
pub fn get_base_media_path(json_path: &str) -> (r: Result<String, ProcessError>)
    ensures
        r is Ok <==> has_sidecar_suffix(json_path@),
        r matches Ok(base) ==> base@ == media_path_of(json_path@),
        r matches Err(e) ==> e == ProcessError::InvalidSidecarName,
{
    let n = json_path.unicode_len();
    let suffix = sidecar_suffix_str();
    let m = suffix.unicode_len();
    if n < m {
        return Err(ProcessError::InvalidSidecarName);
    }
    if !str_range_eq(json_path, n - m, n, suffix) {
        return Err(ProcessError::InvalidSidecarName);
    }
    let base = json_path.substring_char(0, n - m);
    Ok(base.to_owned())
}

/// The two metadata-handling strategies. Everything that is not recognized as
/// a video is handled with the image strategy.
#[derive(Debug, Clone, Copy, PartialEq, Eq, Structural)]
pub enum MediaClass {
    Image,
    Video,
}

/// The final path component: everything after the last `/`.
pub open spec fn file_name_of(p: Seq<char>) -> Seq<char> {
    p.subrange(last_index_of(p, '/') + 1, p.len() as int)
}

/// The extension of the final path component: everything after its last `.`,
/// provided something other than the leading character stands before that
/// dot. A name with no dot, or only a leading dot, has no extension.
pub open spec fn extension_of(p: Seq<char>) -> Option<Seq<char>> {
    let name = file_name_of(p);
    let dot = last_index_of(name, '.');
    if dot > 0 {
        Some(name.subrange(dot + 1, name.len() as int))
    } else {
        None
    }
}

/// ASCII lower-casing of one character.
pub open spec fn ascii_lower_char(c: char) -> char {
    if 'A' <= c && c <= 'Z' {
        ((c as u8) + 32) as char
    } else {
        c
    }
}

/// ASCII lower-casing of a character sequence.
pub open spec fn ascii_lower(s: Seq<char>) -> Seq<char> {
    s.map_values(|c: char| ascii_lower_char(c))
}

/// The fixed set of recognized video extensions, lower-cased.
pub open spec fn video_extensions() -> Seq<Seq<char>> {
    seq!["mp4"@, "mov"@, "avi"@, "mkv"@, "m4v"@, "3gp"@, "webm"@, "flv"@, "wmv"@]
}

/// Whether `e`, lower-cased, is a recognized video extension.
pub open spec fn is_video_ext(e: Seq<char>) -> bool {
    video_extensions().contains(ascii_lower(e))
}

/// Whether a path names a video file: its extension, lower-cased, belongs to
/// the fixed video set.
pub open spec fn is_video_path(p: Seq<char>) -> bool {
    match extension_of(p) {
        Some(e) => is_video_ext(e),
        None => false,
    }
}

/// The strategy a path classifies into.
pub open spec fn class_of(p: Seq<char>) -> MediaClass {
    if is_video_path(p) {
        MediaClass::Video
    } else {
        MediaClass::Image
    }
}

/// Compares the character range `[a, b)` of `s`, ASCII lower-cased, with `t`.
fn range_lower_eq(s: &str, a: usize, b: usize, t: &str) -> (r: bool)
    requires
        a <= b <= s@.len(),
    ensures
        r == (ascii_lower(s@.subrange(a as int, b as int)) == t@),
{
    let m = t.unicode_len();
    if b - a != m {
        return false;
    }
    let mut i: usize = 0;
    while i < m
        invariant
            0 <= i <= m,
            a <= b <= s@.len(),
            b - a == m,
            m == t@.len(),
            forall|k: int| 0 <= k < i ==> ascii_lower_char(s@[a + k]) == t@[k],
        decreases m - i,
    {
        let c = s.get_char(a + i);
        let lc = if 'A' <= c && c <= 'Z' {
            ((c as u8) + 32) as char
        } else {
            c
        };
        if lc != t.get_char(i) {
            proof {
                assert(ascii_lower(s@.subrange(a as int, b as int))[i as int] == ascii_lower_char(
                    s@[a + i],
                ));
            }
            return false;
        }
        i = i + 1;
    }
    proof {
        assert(ascii_lower(s@.subrange(a as int, b as int)) =~= t@);
    }
    true
}

/// Classifies a file path: `true` exactly when its extension, lower-cased,
/// belongs to the fixed video set. Total: a path with no extension is not a
/// video.
pub fn is_video_file(path: &str) -> (r: bool)
    ensures
        r == is_video_path(path@),
{
    let n = path.unicode_len();
    let start: usize = match find_last(path, '/') {
        Some(i) => i + 1,
        None => 0,
    };
    proof {
        lemma_last_index_bounds(path@, '/');
    }
    let name = path.substring_char(start, n);
    let name_len = n - start;
    let dot = match find_last(name, '.') {
        Some(i) => i,
        None => {
            return false;
        },
    };
    if dot == 0 {
        return false;
    }
    let lo = dot + 1;
    let r = range_lower_eq(name, lo, name_len, "mp4") || range_lower_eq(name, lo, name_len, "mov")
        || range_lower_eq(name, lo, name_len, "avi") || range_lower_eq(name, lo, name_len, "mkv")
        || range_lower_eq(name, lo, name_len, "m4v") || range_lower_eq(name, lo, name_len, "3gp")
        || range_lower_eq(name, lo, name_len, "webm") || range_lower_eq(name, lo, name_len, "flv")
        || range_lower_eq(name, lo, name_len, "wmv");
    proof {
        let e = extension_of(path@).unwrap();
        assert(e =~= name@.subrange(lo as int, name_len as int));
        if r {
            assert(is_video_ext(e));
        } else {
            assert forall|k: int| 0 <= k < video_extensions().len() implies video_extensions()[k]
                != ascii_lower(e) by {}
            assert(!video_extensions().contains(ascii_lower(e)));
        }
    }
    r
}

/// Lower-casing changes no occurrence of a character that it neither
/// produces nor destroys.
proof fn lemma_last_index_lower(s: Seq<char>, c: char)
    requires
        forall|a: char| ascii_lower_char(a) == c <==> a == c,
    ensures
        last_index_of(ascii_lower(s), c) == last_index_of(s, c),
    decreases s.len(),
{
    if s.len() > 0 {
        assert(ascii_lower(s).last() == ascii_lower_char(s.last()));
        assert(ascii_lower(s).drop_last() =~= ascii_lower(s.drop_last()));
        lemma_last_index_lower(s.drop_last(), c);
    }
}

proof fn lemma_lower_preserves(c: char)
    requires
        !('A' <= c && c <= 'Z'),
        !('a' <= c && c <= 'z'),
    ensures
        forall|a: char| ascii_lower_char(a) == c <==> a == c,
{
    assert forall|a: char| ascii_lower_char(a) == c <==> a == c by {
        if 'A' <= a && a <= 'Z' {
            assert('a' <= ascii_lower_char(a) && ascii_lower_char(a) <= 'z');
        }
    }
}

proof fn lemma_lower_idempotent(s: Seq<char>)
    ensures
        ascii_lower(ascii_lower(s)) == ascii_lower(s),
{
    assert forall|i: int| 0 <= i < s.len() implies ascii_lower(ascii_lower(s))[i] == ascii_lower(
        s,
    )[i] by {
        let c = s[i];
        if 'A' <= c && c <= 'Z' {
            assert('a' <= ascii_lower_char(c) && ascii_lower_char(c) <= 'z');
        }
    }
    assert(ascii_lower(ascii_lower(s)) =~= ascii_lower(s));
}

/// Classification is case-insensitive: a path and its ASCII-lowered form
/// classify alike. (It is also total: every path classifies, a path with no
/// extension as `Image`.)
pub proof fn lemma_classification_case_insensitive(p: Seq<char>)
    ensures
        is_video_path(ascii_lower(p)) == is_video_path(p),
        class_of(ascii_lower(p)) == class_of(p),
{
    lemma_lower_preserves('/');
    lemma_last_index_lower(p, '/');
    lemma_last_index_bounds(p, '/');
    let name = file_name_of(p);
    assert(file_name_of(ascii_lower(p)) =~= ascii_lower(name));
    lemma_lower_preserves('.');
    lemma_last_index_lower(name, '.');
    lemma_last_index_bounds(name, '.');
    let dot = last_index_of(name, '.');
    if dot > 0 {
        let e = name.subrange(dot + 1, name.len() as int);
        assert(ascii_lower(name).subrange(dot + 1, name.len() as int) =~= ascii_lower(e));
        lemma_lower_idempotent(e);
    }
}

/// Classifies a path into its metadata-handling strategy.
pub fn classify_media(path: &str) -> (r: MediaClass)
    ensures
        r == class_of(path@),
{
    if is_video_file(path) {
        MediaClass::Video
    } else {
        MediaClass::Image
    }
}

} // verus!
