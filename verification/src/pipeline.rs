//! The per-sidecar processing state machine and the run summary.
//!
//! One sidecar file is processed through a fixed sequence of stages:
//! resolve the media path, check existence, inspect date presence, read and
//! decode the sidecar timestamp, write. Every decision is made here; the
//! surrounding application only performs the requested file-system and
//! subprocess actions and feeds their results back as events. Each pair is
//! independent; the only cross-pair state is the additive run summary.

use vstd::prelude::*;

use crate::errors::ProcessError;
use crate::media::{
    class_of,
    classify_media,
    get_base_media_path,
    has_sidecar_suffix,
    media_path_of,
    MediaClass,
};
use crate::probe::{date_presence_of, inspect_date_presence, DateEvidence};
use crate::sidecar::{read_sidecar_timestamp, sidecar_timestamp_of};
use crate::timestamp::{
    datetime_display,
    decode_timestamp_str,
    epoch_seconds_of,
    in_supported_range,
    int_literal_val,
    is_int_literal,
    CanonicalTimestamp,
};

verus! {

/// The terminal result of processing one sidecar file.
#[derive(Debug, Clone, PartialEq, Eq)]
pub enum ProcessingOutcome {
    /// The media file's date metadata was written.
    Updated,
    /// The media file already carried a date; nothing was done.
    Skipped,
    /// Processing this pair failed; the run goes on with the others.
    Failed(ProcessError),
}

/// Where one pair stands, in the fixed processing order.
#[derive(Debug, Clone, PartialEq, Eq)]
pub enum Stage {
    /// Waiting to learn whether the media file exists.
    AwaitExistence,
    /// Waiting for date evidence for the media file.
    AwaitEvidence,
    /// Waiting for the sidecar file's text.
    AwaitSidecar,
    /// Waiting for the result of the metadata write.
    AwaitWrite,
    /// Finished, with its outcome.
    Done(ProcessingOutcome),
}

/// What the application is asked to do next for this pair.
#[derive(Debug, Clone, PartialEq, Eq)]
pub enum PipelineAction {
    /// Gather date evidence: read the media file's bytes (image), or run the
    /// metadata tool with the video probe arguments (video).
    GatherEvidence,
    /// Read the sidecar file's text.
    ReadSidecar,
    /// Write `datetime` onto the media file with the write arguments for
    /// this pair's class.
    WriteDate { datetime: String },
    /// Nothing further: the pair has reached its outcome.
    Settled,
}

/// What the application observed while carrying out the requested action.
pub enum PipelineEvent {
    ExistenceChecked { exists: bool },
    EvidenceGathered { evidence: DateEvidence },
    /// The sidecar file's text, or nothing if it could not be read.
    SidecarRead { text: Option<String> },
    WriteFinished { result: WriteResult },
}

/// How the metadata write ended.
#[derive(Debug, Clone, PartialEq, Eq)]
pub enum WriteResult {
    /// The tool rewrote the file.
    Written,
    /// The preflight version probe found no tool at all.
    ToolMissing,
    /// The tool ran and reported failure; the payload holds its diagnostic
    /// output.
    ToolFailed { stderr: String },
}

/// One sidecar/media pair being processed.
#[derive(Debug, Clone, PartialEq, Eq)]
pub struct PairTask {
    /// The media path derived from the sidecar path.
    pub media_path: String,
    /// The media file's metadata-handling strategy.
    pub class: MediaClass,
    pub stage: Stage,
}

impl PairTask {
    /// Starts processing one sidecar path: derives the media path and
    /// classifies it. Fails exactly when the path lacks the sidecar suffix.
    /// The first action for a started task is to check media existence.
    pub fn begin(sidecar_path: &str) -> (r: Result<PairTask, ProcessError>)
        ensures
            r is Ok <==> has_sidecar_suffix(sidecar_path@),
            r matches Ok(task) ==> task.media_path@ == media_path_of(sidecar_path@)
                && task.class == class_of(media_path_of(sidecar_path@)) && task.stage
                == Stage::AwaitExistence,
            r matches Err(e) ==> e == ProcessError::InvalidSidecarName,
    {
        let media = match get_base_media_path(sidecar_path) {
            Ok(m) => m,
            Err(e) => {
                return Err(e);
            },
        };
        let class = classify_media(media.as_str());
        Ok(PairTask { media_path: media, class, stage: Stage::AwaitExistence })
    }

    /// Feeds one observation into the state machine and returns the next
    /// action. The contract is the complete per-item policy of a run:
    /// a missing media file fails the pair; present date metadata skips it
    /// before the sidecar is even read; an unreadable or malformed sidecar,
    /// or an unrepresentable timestamp, fails it without any write being
    /// requested; and only a completed write yields `Updated`. An event that
    /// does not belong to the current stage changes nothing.
    pub fn advance(&mut self, event: PipelineEvent) -> (a: PipelineAction)
        ensures
            final(self).media_path == old(self).media_path,
            final(self).class == old(self).class,
            event matches PipelineEvent::ExistenceChecked { exists } ==> old(
                self,
            ).stage is AwaitExistence ==> {
                &&& exists ==> final(self).stage is AwaitEvidence && a is GatherEvidence
                &&& !exists ==> final(self).stage == Stage::Done(
                    ProcessingOutcome::Failed(ProcessError::MediaNotFound),
                ) && a is Settled
            },
            event matches PipelineEvent::EvidenceGathered { evidence } ==> old(
                self,
            ).stage is AwaitEvidence ==> {
                &&& date_presence_of(evidence) == Ok::<bool, ProcessError>(true) ==> final(self).stage == Stage::Done(ProcessingOutcome::Skipped) && a is Settled
                &&& date_presence_of(evidence) == Ok::<bool, ProcessError>(false) ==> final(self).stage is AwaitSidecar && a is ReadSidecar
                &&& date_presence_of(evidence) matches Err(e) ==> final(self).stage == Stage::Done(
                    ProcessingOutcome::Failed(e),
                ) && a is Settled
            },
            event matches PipelineEvent::SidecarRead { text } ==> old(
                self,
            ).stage is AwaitSidecar ==> {
                &&& text is None ==> final(self).stage == Stage::Done(
                    ProcessingOutcome::Failed(ProcessError::SidecarReadOrParseError),
                ) && a is Settled
                &&& text matches Some(doc) ==> {
                    &&& sidecar_timestamp_of(doc@) is None ==> final(self).stage == Stage::Done(
                        ProcessingOutcome::Failed(ProcessError::SidecarReadOrParseError),
                    ) && a is Settled
                    &&& sidecar_timestamp_of(doc@) matches Some(ts) ==> {
                        &&& !(is_int_literal(ts) && in_supported_range(int_literal_val(ts)))
                            ==> final(self).stage == Stage::Done(
                            ProcessingOutcome::Failed(ProcessError::InvalidTimestamp),
                        ) && a is Settled
                        &&& is_int_literal(ts) && in_supported_range(int_literal_val(ts)) ==> {
                            &&& final(self).stage is AwaitWrite
                            &&& a matches PipelineAction::WriteDate { datetime }
                                && exists|t: CanonicalTimestamp|
                                t.wf() && epoch_seconds_of(t) == int_literal_val(ts) && datetime@
                                    == datetime_display(t)
                        }
                    }
                }
            },
            event matches PipelineEvent::WriteFinished { result } ==> old(
                self,
            ).stage is AwaitWrite ==> {
                &&& result is Written ==> final(self).stage == Stage::Done(
                    ProcessingOutcome::Updated,
                ) && a is Settled
                &&& result is ToolMissing ==> final(self).stage == Stage::Done(
                    ProcessingOutcome::Failed(ProcessError::ToolUnavailable),
                ) && a is Settled
                &&& result matches WriteResult::ToolFailed { stderr } ==> final(self).stage
                    == Stage::Done(
                    ProcessingOutcome::Failed(ProcessError::ToolInvocationFailed(stderr)),
                ) && a is Settled
            },
            !({
                ||| old(self).stage is AwaitExistence && event is ExistenceChecked
                ||| old(self).stage is AwaitEvidence && event is EvidenceGathered
                ||| old(self).stage is AwaitSidecar && event is SidecarRead
                ||| old(self).stage is AwaitWrite && event is WriteFinished
            }) ==> *final(self) == *old(self) && a is Settled,
    {
        match event {
            PipelineEvent::ExistenceChecked { exists } => {
                match &self.stage {
                    Stage::AwaitExistence => {
                        if exists {
                            self.stage = Stage::AwaitEvidence;
                            PipelineAction::GatherEvidence
                        } else {
                            self.stage = Stage::Done(
                                ProcessingOutcome::Failed(ProcessError::MediaNotFound),
                            );
                            PipelineAction::Settled
                        }
                    },
                    _ => PipelineAction::Settled,
                }
            },
            PipelineEvent::EvidenceGathered { evidence } => {
                match &self.stage {
                    Stage::AwaitEvidence => {
                        match inspect_date_presence(&evidence) {
                            Ok(true) => {
                                self.stage = Stage::Done(ProcessingOutcome::Skipped);
                                PipelineAction::Settled
                            },
                            Ok(false) => {
                                self.stage = Stage::AwaitSidecar;
                                PipelineAction::ReadSidecar
                            },
                            Err(e) => {
                                self.stage = Stage::Done(ProcessingOutcome::Failed(e));
                                PipelineAction::Settled
                            },
                        }
                    },
                    _ => PipelineAction::Settled,
                }
            },
            PipelineEvent::SidecarRead { text } => {
                match &self.stage {
                    Stage::AwaitSidecar => {
                        match text {
                            None => {
                                self.stage = Stage::Done(
                                    ProcessingOutcome::Failed(
                                        ProcessError::SidecarReadOrParseError,
                                    ),
                                );
                                PipelineAction::Settled
                            },
                            Some(doc) => {
                                match read_sidecar_timestamp(doc.as_str()) {
                                    Err(e) => {
                                        self.stage = Stage::Done(ProcessingOutcome::Failed(e));
                                        PipelineAction::Settled
                                    },
                                    Ok(ts) => {
                                        match decode_timestamp_str(ts.as_str()) {
                                            Err(e) => {
                                                self.stage = Stage::Done(
                                                    ProcessingOutcome::Failed(e),
                                                );
                                                PipelineAction::Settled
                                            },
                                            Ok(datetime) => {
                                                self.stage = Stage::AwaitWrite;
                                                PipelineAction::WriteDate { datetime }
                                            },
                                        }
                                    },
                                }
                            },
                        }
                    },
                    _ => PipelineAction::Settled,
                }
            },
            PipelineEvent::WriteFinished { result } => {
                match &self.stage {
                    Stage::AwaitWrite => {
                        match result {
                            WriteResult::Written => {
                                self.stage = Stage::Done(ProcessingOutcome::Updated);
                                PipelineAction::Settled
                            },
                            WriteResult::ToolMissing => {
                                self.stage = Stage::Done(
                                    ProcessingOutcome::Failed(ProcessError::ToolUnavailable),
                                );
                                PipelineAction::Settled
                            },
                            WriteResult::ToolFailed { stderr } => {
                                self.stage = Stage::Done(
                                    ProcessingOutcome::Failed(
                                        ProcessError::ToolInvocationFailed(stderr),
                                    ),
                                );
                                PipelineAction::Settled
                            },
                        }
                    },
                    _ => PipelineAction::Settled,
                }
            },
        }
    }

    /// The outcome, once the pair is done.
    pub fn outcome(&self) -> (r: Option<&ProcessingOutcome>)
        ensures
            match r {
                Some(o) => self.stage == Stage::Done(*o),
                None => !(self.stage is Done),
            },
    {
        match &self.stage {
            Stage::Done(o) => Some(o),
            _ => None,
        }
    }
}

/// Outcome counters of a whole run: purely additive, no ordering among
/// pairs.
#[derive(Debug, Clone, Copy, PartialEq, Eq, Structural)]
pub struct RunSummary {
    /// Sidecar files discovered.
    pub found: u64,
    /// Media files whose date was written.
    pub updated: u64,
    /// Pairs skipped because a date was already present.
    pub skipped: u64,
    /// Pairs that failed.
    pub errors: u64,
}

pub open spec fn count_updated(s: Seq<ProcessingOutcome>) -> int
    decreases s.len(),
{
    if s.len() == 0 {
        0
    } else {
        count_updated(s.drop_last()) + if s.last() is Updated {
            1int
        } else {
            0int
        }
    }
}

pub open spec fn count_skipped(s: Seq<ProcessingOutcome>) -> int
    decreases s.len(),
{
    if s.len() == 0 {
        0
    } else {
        count_skipped(s.drop_last()) + if s.last() is Skipped {
            1int
        } else {
            0int
        }
    }
}

pub open spec fn count_failed(s: Seq<ProcessingOutcome>) -> int
    decreases s.len(),
{
    if s.len() == 0 {
        0
    } else {
        count_failed(s.drop_last()) + if s.last() is Failed {
            1int
        } else {
            0int
        }
    }
}

/// Aggregates the outcomes of one run into its summary: one found file per
/// outcome, and the three counters counting exactly their outcomes.
pub fn summarize(outcomes: &Vec<ProcessingOutcome>) -> (r: RunSummary)
    requires
        outcomes@.len() <= u64::MAX,
    ensures
        r.found == outcomes@.len(),
        r.updated == count_updated(outcomes@),
        r.skipped == count_skipped(outcomes@),
        r.errors == count_failed(outcomes@),
{
    let mut updated: u64 = 0;
    let mut skipped: u64 = 0;
    let mut errors: u64 = 0;
    let mut i: usize = 0;
    while i < outcomes.len()
        invariant
            0 <= i <= outcomes@.len() <= u64::MAX,
            updated == count_updated(outcomes@.take(i as int)),
            skipped == count_skipped(outcomes@.take(i as int)),
            errors == count_failed(outcomes@.take(i as int)),
            updated <= i && skipped <= i && errors <= i,
        decreases outcomes@.len() - i,
    {
        proof {
            assert(outcomes@.take(i + 1).drop_last() =~= outcomes@.take(i as int));
            assert(outcomes@.take(i + 1).last() == outcomes@[i as int]);
        }
        match &outcomes[i] {
            ProcessingOutcome::Updated => {
                updated = updated + 1;
            },
            ProcessingOutcome::Skipped => {
                skipped = skipped + 1;
            },
            ProcessingOutcome::Failed(_) => {
                errors = errors + 1;
            },
        }
        i = i + 1;
    }
    proof {
        assert(outcomes@.take(outcomes@.len() as int) =~= outcomes@);
    }
    RunSummary { found: outcomes.len() as u64, updated, skipped, errors }
}

/// A pass whose every outcome is `Skipped` — a second pass over a directory
/// whose media files all carry dates already — updates nothing and reports
/// no errors, and its skip count is the whole pass.
pub proof fn lemma_all_skipped_counts(s: Seq<ProcessingOutcome>)
    requires
        forall|i: int| 0 <= i < s.len() ==> s[i] is Skipped,
    ensures
        count_updated(s) == 0,
        count_failed(s) == 0,
        count_skipped(s) == s.len(),
    decreases s.len(),
{
    if s.len() > 0 {
        lemma_all_skipped_counts(s.drop_last());
    }
}

} // verus!
