//! Date-presence inspection.
//!
//! Given the evidence gathered for one media file — for an image, the raw
//! file bytes; for a video, the metadata tool's output — decides whether the
//! file already carries usable capture-date metadata. A failed video tool
//! invocation counts as "no date present" by policy, so the update is
//! re-attempted rather than silently skipped; only a true I/O failure on an
//! image file is an error.

use vstd::prelude::*;

use crate::errors::ProcessError;
use crate::strutil::str_range_eq;

verus! {

/// ASCII whitespace, as stripped from the edges of a tool output line.
pub open spec fn is_space(c: char) -> bool {
    c == ' ' || c == '\t' || c == '\r' || c == '\n' || c == '\u{0b}' || c == '\u{0c}'
}

pub open spec fn trim_start_spec(l: Seq<char>) -> Seq<char>
    decreases l.len(),
{
    if l.len() > 0 && is_space(l[0]) {
        trim_start_spec(l.drop_first())
    } else {
        l
    }
}

pub open spec fn trim_end_spec(l: Seq<char>) -> Seq<char>
    decreases l.len(),
{
    if l.len() > 0 && is_space(l.last()) {
        trim_end_spec(l.drop_last())
    } else {
        l
    }
}

/// `l` with whitespace stripped from both edges.
pub open spec fn trim_spec(l: Seq<char>) -> Seq<char> {
    trim_end_spec(trim_start_spec(l))
}

/// The all-zero date-time that some containers report for an unset field.
pub open spec fn zero_sentinel() -> Seq<char> {
    "0000:00:00 00:00:00"@
}

/// A line holds a value if, after trimming, it is neither blank nor the
/// all-zero sentinel.
pub open spec fn line_has_value(l: Seq<char>) -> bool {
    trim_spec(l) != Seq::<char>::empty() && trim_spec(l) != zero_sentinel()
}

/// `[a, b)` is one whole line of `s`: delimited by the start of `s`, the end
/// of `s`, or a newline on either side, and newline-free inside.
pub open spec fn is_line_at(s: Seq<char>, a: int, b: int) -> bool {
    0 <= a <= b <= s.len() && (a == 0 || s[a - 1] == '\n') && (b == s.len() || s[b] == '\n') && (
    forall|k: int| a <= k < b ==> s[k] != '\n')
}

/// Whether any line of `s` holds a value.
pub open spec fn any_line_has_value(s: Seq<char>) -> bool {
    exists|a: int, b: int| is_line_at(s, a, b) && line_has_value(s.subrange(a, b))
}

fn is_space_exec(c: char) -> (r: bool)
    ensures
        r == is_space(c),
{
    c == ' ' || c == '\t' || c == '\r' || c == '\n' || c == '\u{0b}' || c == '\u{0c}'
}

/// The bounds of `trim_spec` applied to the character range `[a, b)` of `s`.
fn trimmed_bounds(s: &str, a: usize, b: usize) -> (r: (usize, usize))
    requires
        a <= b <= s@.len(),
    ensures
        ({
            let (lo, hi) = r;
            a <= lo <= hi <= b && s@.subrange(lo as int, hi as int) == trim_spec(
                s@.subrange(a as int, b as int),
            )
        }),
{
    let mut lo: usize = a;
    loop
        invariant
            a <= lo <= b <= s@.len(),
            trim_start_spec(s@.subrange(a as int, b as int)) == trim_start_spec(
                s@.subrange(lo as int, b as int),
            ),
        ensures
            a <= lo <= b,
            trim_start_spec(s@.subrange(a as int, b as int)) == s@.subrange(lo as int, b as int),
        decreases b - lo,
    {
        if lo == b {
            proof {
                assert(s@.subrange(lo as int, b as int) =~= Seq::<char>::empty());
            }
            break;
        }
        if !is_space_exec(s.get_char(lo)) {
            break;
        }
        proof {
            assert(s@.subrange(lo as int, b as int).drop_first() =~= s@.subrange(
                lo + 1,
                b as int,
            ));
        }
        lo = lo + 1;
    }
    let mut hi: usize = b;
    loop
        invariant
            a <= lo <= hi <= b <= s@.len(),
            trim_end_spec(s@.subrange(lo as int, b as int)) == trim_end_spec(
                s@.subrange(lo as int, hi as int),
            ),
        ensures
            lo <= hi <= b,
            trim_end_spec(s@.subrange(lo as int, b as int)) == s@.subrange(lo as int, hi as int),
        decreases hi,
    {
        if hi == lo {
            proof {
                assert(s@.subrange(lo as int, hi as int) =~= Seq::<char>::empty());
            }
            break;
        }
        if !is_space_exec(s.get_char(hi - 1)) {
            break;
        }
        proof {
            assert(s@.subrange(lo as int, hi as int).drop_last() =~= s@.subrange(
                lo as int,
                hi - 1,
            ));
        }
        hi = hi - 1;
    }
    (lo, hi)
}

fn line_has_value_exec(s: &str, a: usize, b: usize) -> (r: bool)
    requires
        a <= b <= s@.len(),
    ensures
        r == line_has_value(s@.subrange(a as int, b as int)),
{
    let (lo, hi) = trimmed_bounds(s, a, b);
    if lo == hi {
        proof {
            assert(s@.subrange(lo as int, hi as int) =~= Seq::<char>::empty());
        }
        return false;
    }
    let eq = str_range_eq(s, lo, hi, "0000:00:00 00:00:00");
    proof {
        assert(s@.subrange(lo as int, hi as int).len() > 0);
    }
    !eq
}

/// Scans the metadata tool's output for a video file: `true` exactly when
/// some line holds a date value, that is, trims to something other than
/// blank or the all-zero sentinel.
pub fn video_output_has_date(stdout: &str) -> (r: bool)
    ensures
        r == any_line_has_value(stdout@),
{
    let n = stdout.unicode_len();
    let mut pos: usize = 0;
    loop
        invariant
            0 <= pos <= n,
            n == stdout@.len(),
            pos == 0 || stdout@[pos - 1] == '\n',
            forall|a: int, b: int|
                is_line_at(stdout@, a, b) && a < pos ==> !line_has_value(stdout@.subrange(a, b)),
        decreases n - pos,
    {
        let mut e: usize = pos;
        loop
            invariant
                pos <= e <= n,
                n == stdout@.len(),
                forall|k: int| pos <= k < e ==> stdout@[k] != '\n',
            ensures
                pos <= e <= n,
                forall|k: int| pos <= k < e ==> stdout@[k] != '\n',
                e == n || stdout@[e as int] == '\n',
            decreases n - e,
        {
            if e == n {
                break;
            }
            if stdout.get_char(e) == '\n' {
                break;
            }
            e = e + 1;
        }
        proof {
            assert(is_line_at(stdout@, pos as int, e as int));
        }
        if line_has_value_exec(stdout, pos, e) {
            return true;
        }
        proof {
            assert forall|a: int, b: int|
                is_line_at(stdout@, a, b) && a < e + 1 implies !line_has_value(
                stdout@.subrange(a, b),
            ) by {
                if a >= pos {
                    assert(a == pos) by {
                        if a > pos {
                            assert(stdout@[a - 1] == '\n');
                            assert(stdout@[a - 1] != '\n');
                        }
                    }
                    assert(b == e) by {
                        if b < e {
                            assert(stdout@[b] == '\n');
                            assert(stdout@[b] != '\n');
                        }
                        if b > e {
                            assert(stdout@[e as int] == '\n');
                            assert(stdout@[e as int] != '\n');
                        }
                    }
                }
            }
        }
        if e == n {
            proof {
                if any_line_has_value(stdout@) {
                    let (a, b): (int, int) = choose|a: int, b: int|
                        is_line_at(stdout@, a, b) && line_has_value(stdout@.subrange(a, b));
                    assert(a < e + 1);
                    assert(false);
                }
            }
            return false;
        }
        pos = e + 1;
    }
}

/// What the caller gathered while probing one media file for a date.
#[derive(Debug, Clone, PartialEq, Eq)]
pub enum DateEvidence {
    /// The media file's raw bytes, for the image strategy.
    ImageBytes { bytes: Vec<u8> },
    /// The media file could not be opened or read, for the image strategy.
    ImageUnreadable,
    /// What the metadata tool printed, for the video strategy.
    VideoToolOutput { stdout: String },
    /// The metadata tool could not be run or reported failure.
    VideoToolFailed,
}

/// What parsing an image's metadata structure yields: nothing if the bytes
/// hold no parseable structure, else one flag per recognized date field —
/// `DateTimeOriginal`, `DateTime` (generic modification time) and
/// `DateTimeDigitized` — saying whether it is populated in the primary
/// image.
pub uninterp spec fn exif_date_fields_of(bytes: Seq<u8>) -> Option<(bool, bool, bool)>;

/// Relies on `exif::Reader::read_from_container` and `exif::Exif::get_field`
/// of the `kamadak-exif` crate: whether the bytes parse as a container with
/// a metadata structure, and which of the three date fields the primary
/// image then holds, is a function of the bytes alone.
#[verifier::external_body]
fn read_exif_date_fields(bytes: &Vec<u8>) -> (r: Option<(bool, bool, bool)>)
    ensures
        r == exif_date_fields_of(bytes@),
{
    let mut cursor = std::io::Cursor::new(bytes.as_slice());
    let data = exif::Reader::new().read_from_container(&mut cursor).ok()?;
    Some((
        data.get_field(exif::Tag::DateTimeOriginal, exif::In::PRIMARY).is_some(),
        data.get_field(exif::Tag::DateTime, exif::In::PRIMARY).is_some(),
        data.get_field(exif::Tag::DateTimeDigitized, exif::In::PRIMARY).is_some(),
    ))
}

/// An image carries a date exactly when its metadata structure parses and at
/// least one of the three recognized date fields is populated. An absent or
/// unparseable structure is "no date" — a normal, expected state for some
/// files, never an error.
pub open spec fn image_presence_of(bytes: Seq<u8>) -> bool {
    match exif_date_fields_of(bytes) {
        None => false,
        Some(f) => f.0 || f.1 || f.2,
    }
}

/// Decides image date presence from the file's raw bytes.
pub fn image_has_date(bytes: &Vec<u8>) -> (r: bool)
    ensures
        r == image_presence_of(bytes@),
{
    match read_exif_date_fields(bytes) {
        None => false,
        Some(f) => f.0 || f.1 || f.2,
    }
}

/// What the evidence says: `Ok(true)` when a date is present, `Ok(false)`
/// when none is (including a failed tool run, by policy), and an error only
/// for a true I/O failure on an image file.
pub open spec fn date_presence_of(ev: DateEvidence) -> Result<bool, ProcessError> {
    match ev {
        DateEvidence::ImageBytes { bytes } => Ok(image_presence_of(bytes@)),
        DateEvidence::ImageUnreadable => Err(ProcessError::MetadataReadError),
        DateEvidence::VideoToolOutput { stdout } => Ok(any_line_has_value(stdout@)),
        DateEvidence::VideoToolFailed => Ok(false),
    }
}

/// Decides date presence from the gathered evidence.
pub fn inspect_date_presence(ev: &DateEvidence) -> (r: Result<bool, ProcessError>)
    ensures
        r == date_presence_of(*ev),
{
    match ev {
        DateEvidence::ImageBytes { bytes } => Ok(image_has_date(bytes)),
        DateEvidence::ImageUnreadable => Err(ProcessError::MetadataReadError),
        DateEvidence::VideoToolOutput { stdout } => Ok(video_output_has_date(stdout.as_str())),
        DateEvidence::VideoToolFailed => Ok(false),
    }
}

} // verus!
