//! Metadata writer command lines.
//!
//! The external metadata tool is driven entirely by its argument list. This
//! module builds, as verified data, the exact arguments for the version
//! probe, the video date probe, and the in-place date write; the surrounding
//! application only hands them to the subprocess.

use vstd::prelude::*;

use crate::media::MediaClass;

verus! {

/// The name of the external metadata tool.
pub fn tool_name() -> (r: &'static str)
    ensures
        r@ == "exiftool"@,
{
    "exiftool"
}

/// The argument for the tool's preflight version probe.
pub fn version_probe_arg() -> (r: &'static str)
    ensures
        r@ == "-ver"@,
{
    "-ver"
}

/// The arguments that ask the tool for the four video date fields in
/// raw-value form.
pub open spec fn video_probe_args_spec() -> Seq<Seq<char>> {
    seq![
        "-DateTimeOriginal"@,
        "-CreateDate"@,
        "-MediaCreateDate"@,
        "-TrackCreateDate"@,
        "-s3"@,
    ]
}

/// Builds the video date-probe argument list (the media path is appended by
/// the caller).
pub fn video_probe_args() -> (r: Vec<String>)
    ensures
        r.deep_view() == video_probe_args_spec(),
{
    let mut v: Vec<String> = Vec::new();
    v.push("-DateTimeOriginal".to_owned());
    v.push("-CreateDate".to_owned());
    v.push("-MediaCreateDate".to_owned());
    v.push("-TrackCreateDate".to_owned());
    v.push("-s3".to_owned());
    proof {
        assert(v.deep_view() =~~= video_probe_args_spec());
    }
    v
}

/// The `Field=Value` write arguments for a media file of class `class` and
/// canonical date-time `dt`: no backup copy, the three common date fields
/// for every class, and the four media/track fields for videos in addition.
pub open spec fn write_args_spec(class: MediaClass, dt: Seq<char>) -> Seq<Seq<char>> {
    let base = seq![
        "-overwrite_original"@,
        "-DateTimeOriginal="@ + dt,
        "-DateTime="@ + dt,
        "-CreateDate="@ + dt,
    ];
    if class == MediaClass::Video {
        base + seq![
            "-MediaCreateDate="@ + dt,
            "-MediaModifyDate="@ + dt,
            "-TrackCreateDate="@ + dt,
            "-TrackModifyDate="@ + dt,
        ]
    } else {
        base
    }
}

fn arg_with_value(prefix: &str, value: &str) -> (r: String)
    ensures
        r@ == prefix@ + value@,
{
    let mut s = prefix.to_owned();
    s.append(value);
    s
}

/// Builds the date-write argument list for one media file (the media path is
/// appended by the caller). Overwrites in place: an explicit, irreversible
/// operation.
pub fn build_write_args(class: MediaClass, datetime: &str) -> (r: Vec<String>)
    ensures
        r.deep_view() == write_args_spec(class, datetime@),
{
    let mut v: Vec<String> = Vec::new();
    v.push("-overwrite_original".to_owned());
    v.push(arg_with_value("-DateTimeOriginal=", datetime));
    v.push(arg_with_value("-DateTime=", datetime));
    v.push(arg_with_value("-CreateDate=", datetime));
    if class == MediaClass::Video {
        v.push(arg_with_value("-MediaCreateDate=", datetime));
        v.push(arg_with_value("-MediaModifyDate=", datetime));
        v.push(arg_with_value("-TrackCreateDate=", datetime));
        v.push(arg_with_value("-TrackModifyDate=", datetime));
    }
    proof {
        assert(v.deep_view() =~~= write_args_spec(class, datetime@));
    }
    v
}

} // verus!
