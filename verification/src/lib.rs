//! Backfills missing capture-date metadata on exported photo and video files,
//! driven by sidecar JSON documents that record the original capture time.
//!
//! The library holds the decision pipeline: pairing sidecar files with media
//! files, classifying media into the image or video strategy, deciding whether
//! a file already carries a capture date, decoding the sidecar timestamp into
//! the calendar form that metadata fields use, and aggregating per-file
//! outcomes. File-system traversal and the external metadata tool invocations
//! are performed by the surrounding application, which feeds their results
//! back in as plain values.

pub mod errors;
pub mod media;
pub mod pipeline;
pub mod probe;
pub mod sidecar;
pub mod strutil;
pub mod timestamp;
pub mod writer;
