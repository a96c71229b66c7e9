//! Error taxonomy for processing one sidecar/media pair.
//!
//! Every error is contained to the pair it arose from; the pipeline surfaces
//! it as a `Failed` outcome and goes on with the remaining pairs.

use vstd::prelude::*;

verus! {

/// Why processing one sidecar file failed.
#[derive(Debug, Clone, PartialEq, Eq)]
pub enum ProcessError {
    /// The sidecar path does not end with the recognized sidecar suffix.
    InvalidSidecarName,
    /// The media path derived from the sidecar does not exist on disk.
    MediaNotFound,
    /// The sidecar file could not be read, was not valid JSON, or lacked the
    /// timestamp member.
    SidecarReadOrParseError,
    /// The timestamp string was not a valid epoch-seconds integer, or the
    /// integer does not map to a representable calendar date-time.
    InvalidTimestamp,
    /// The external metadata tool is not reachable at all.
    ToolUnavailable,
    /// The external metadata tool ran and reported failure; the payload holds
    /// its diagnostic output.
    ToolInvocationFailed(String),
    /// A true I/O failure while opening or reading the media file itself
    /// (distinct from "no metadata found", which is a normal state).
    MetadataReadError,
}

/// The diagnostic line for an error, for per-file log output.
pub open spec fn description_of(e: ProcessError) -> Seq<char> {
    match e {
        ProcessError::InvalidSidecarName => "path does not end with the sidecar suffix"@,
        ProcessError::MediaNotFound => "media file not found"@,
        ProcessError::SidecarReadOrParseError => "could not read or parse sidecar JSON"@,
        ProcessError::InvalidTimestamp => "invalid timestamp"@,
        ProcessError::ToolUnavailable => "metadata tool not found"@,
        ProcessError::ToolInvocationFailed(stderr) => "metadata tool failed: "@ + stderr@,
        ProcessError::MetadataReadError => "could not read media file"@,
    }
}

impl ProcessError {
    /// Renders the diagnostic line for this error.
    pub fn describe(&self) -> (r: String)
        ensures
            r@ == description_of(*self),
            r@.len() > 0,
    {
        match self {
            ProcessError::InvalidSidecarName => {
                let r = "path does not end with the sidecar suffix".to_owned();
                proof {
                    reveal_strlit("path does not end with the sidecar suffix");
                }
                r
            },
            ProcessError::MediaNotFound => {
                let r = "media file not found".to_owned();
                proof {
                    reveal_strlit("media file not found");
                }
                r
            },
            ProcessError::SidecarReadOrParseError => {
                let r = "could not read or parse sidecar JSON".to_owned();
                proof {
                    reveal_strlit("could not read or parse sidecar JSON");
                }
                r
            },
            ProcessError::InvalidTimestamp => {
                let r = "invalid timestamp".to_owned();
                proof {
                    reveal_strlit("invalid timestamp");
                }
                r
            },
            ProcessError::ToolUnavailable => {
                let r = "metadata tool not found".to_owned();
                proof {
                    reveal_strlit("metadata tool not found");
                }
                r
            },
            ProcessError::ToolInvocationFailed(stderr) => {
                let mut r = "metadata tool failed: ".to_owned();
                r.append(stderr.as_str());
                proof {
                    reveal_strlit("metadata tool failed: ");
                }
                r
            },
            ProcessError::MetadataReadError => {
                let r = "could not read media file".to_owned();
                proof {
                    reveal_strlit("could not read media file");
                }
                r
            },
        }
    }
}

} // verus!
