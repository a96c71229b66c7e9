use gtakeout::errors::ProcessError;
use gtakeout::media::MediaClass;
use gtakeout::pipeline::{
    summarize, PairTask, PipelineAction, PipelineEvent, ProcessingOutcome, Stage, WriteResult,
};
use gtakeout::probe::DateEvidence;

fn begin(sidecar: &str) -> PairTask {
    PairTask::begin(sidecar).unwrap()
}

#[test]
fn begin_resolves_and_classifies() {
    let task = begin("dir/IMG_0001.jpg.supplemental-metadata.json");
    assert_eq!(task.media_path, String::from("dir/IMG_0001.jpg"));
    assert_eq!(task.class, MediaClass::Image);
    assert_eq!(task.stage, Stage::AwaitExistence);
    let task = begin("dir/clip.MOV.supplemental-metadata.json");
    assert_eq!(task.class, MediaClass::Video);
    assert_eq!(
        PairTask::begin("dir/IMG_0001.jpg"),
        Err(ProcessError::InvalidSidecarName)
    );
}

#[test]
fn full_run_updates_then_skips() {
    // First pass: no embedded date, so the sidecar timestamp is written.
    let mut task = begin("d/IMG_0001.jpg.supplemental-metadata.json");
    let a = task.advance(PipelineEvent::ExistenceChecked { exists: true });
    assert_eq!(a, PipelineAction::GatherEvidence);
    let a = task.advance(PipelineEvent::EvidenceGathered {
        evidence: DateEvidence::ImageBytes { bytes: vec![0u8, 1, 2, 3] },
    });
    assert_eq!(a, PipelineAction::ReadSidecar);
    let doc = String::from("{\"photoTakenTime\":{\"timestamp\":\"1511480066\"}}");
    let a = task.advance(PipelineEvent::SidecarRead { text: Some(doc) });
    assert_eq!(
        a,
        PipelineAction::WriteDate { datetime: String::from("2017:11:23 23:34:26") }
    );
    let a = task.advance(PipelineEvent::WriteFinished { result: WriteResult::Written });
    assert_eq!(a, PipelineAction::Settled);
    assert_eq!(task.outcome(), Some(&ProcessingOutcome::Updated));

    // Second pass: the date is now present, so the pair is skipped before
    // the sidecar is read.
    let mut task = begin("d/IMG_0001.jpg.supplemental-metadata.json");
    task.advance(PipelineEvent::ExistenceChecked { exists: true });
    let a = task.advance(PipelineEvent::EvidenceGathered {
        evidence: DateEvidence::VideoToolOutput {
            stdout: String::from("2017:11:23 23:34:26\n"),
        },
    });
    assert_eq!(a, PipelineAction::Settled);
    assert_eq!(task.outcome(), Some(&ProcessingOutcome::Skipped));

    // The counters over both passes: one update on the first, none on the
    // second, one skip on the second.
    let first = summarize(&vec![ProcessingOutcome::Updated]);
    assert_eq!(first.found, 1);
    assert_eq!(first.updated, 1);
    assert_eq!(first.errors, 0);
    let second = summarize(&vec![ProcessingOutcome::Skipped]);
    assert_eq!(second.updated, 0);
    assert_eq!(second.skipped, first.updated);
    assert_eq!(second.errors, 0);
}

#[test]
fn missing_media_fails_once() {
    let mut task = begin("d/gone.jpg.supplemental-metadata.json");
    let a = task.advance(PipelineEvent::ExistenceChecked { exists: false });
    assert_eq!(a, PipelineAction::Settled);
    assert_eq!(
        task.outcome(),
        Some(&ProcessingOutcome::Failed(ProcessError::MediaNotFound))
    );
    let summary = summarize(&vec![ProcessingOutcome::Failed(ProcessError::MediaNotFound)]);
    assert_eq!(summary.found, 1);
    assert_eq!(summary.updated, 0);
    assert_eq!(summary.errors, 1);
}

#[test]
fn malformed_sidecar_never_requests_write() {
    for doc in ["not json at all", "{\"photoTakenTime\":{\"timestamp\":1}}"] {
        let mut task = begin("d/IMG_0002.jpg.supplemental-metadata.json");
        task.advance(PipelineEvent::ExistenceChecked { exists: true });
        task.advance(PipelineEvent::EvidenceGathered {
            evidence: DateEvidence::ImageBytes { bytes: vec![9u8, 9, 9] },
        });
        let a = task.advance(PipelineEvent::SidecarRead { text: Some(String::from(doc)) });
        assert_eq!(a, PipelineAction::Settled);
        assert_eq!(
            task.outcome(),
            Some(&ProcessingOutcome::Failed(ProcessError::SidecarReadOrParseError))
        );
        // Once failed, nothing further is requested, whatever arrives.
        let a = task.advance(PipelineEvent::WriteFinished { result: WriteResult::Written });
        assert_eq!(a, PipelineAction::Settled);
        assert_eq!(
            task.outcome(),
            Some(&ProcessingOutcome::Failed(ProcessError::SidecarReadOrParseError))
        );
    }
    // A non-numeric timestamp string fails at the decode step instead.
    let mut task = begin("d/IMG_0003.jpg.supplemental-metadata.json");
    task.advance(PipelineEvent::ExistenceChecked { exists: true });
    task.advance(PipelineEvent::EvidenceGathered {
        evidence: DateEvidence::ImageBytes { bytes: vec![9u8] },
    });
    let doc = String::from("{\"photoTakenTime\":{\"timestamp\":\"soon\"}}");
    let a = task.advance(PipelineEvent::SidecarRead { text: Some(doc) });
    assert_eq!(a, PipelineAction::Settled);
    assert_eq!(
        task.outcome(),
        Some(&ProcessingOutcome::Failed(ProcessError::InvalidTimestamp))
    );
}

#[test]
fn unreadable_sidecar_and_image_fail() {
    let mut task = begin("d/a.jpg.supplemental-metadata.json");
    task.advance(PipelineEvent::ExistenceChecked { exists: true });
    task.advance(PipelineEvent::EvidenceGathered { evidence: DateEvidence::ImageUnreadable });
    assert_eq!(
        task.outcome(),
        Some(&ProcessingOutcome::Failed(ProcessError::MetadataReadError))
    );

    let mut task = begin("d/b.jpg.supplemental-metadata.json");
    task.advance(PipelineEvent::ExistenceChecked { exists: true });
    task.advance(PipelineEvent::EvidenceGathered {
        evidence: DateEvidence::ImageBytes { bytes: vec![] },
    });
    let a = task.advance(PipelineEvent::SidecarRead { text: None });
    assert_eq!(a, PipelineAction::Settled);
    assert_eq!(
        task.outcome(),
        Some(&ProcessingOutcome::Failed(ProcessError::SidecarReadOrParseError))
    );
}

#[test]
fn write_failures_map_to_their_errors() {
    let doc = String::from("{\"photoTakenTime\":{\"timestamp\":\"0\"}}");
    let mut task = begin("d/c.jpg.supplemental-metadata.json");
    task.advance(PipelineEvent::ExistenceChecked { exists: true });
    task.advance(PipelineEvent::EvidenceGathered { evidence: DateEvidence::VideoToolFailed });
    let a = task.advance(PipelineEvent::SidecarRead { text: Some(doc.clone()) });
    assert_eq!(
        a,
        PipelineAction::WriteDate { datetime: String::from("1970:01:01 00:00:00") }
    );
    let a = task.advance(PipelineEvent::WriteFinished { result: WriteResult::ToolMissing });
    assert_eq!(a, PipelineAction::Settled);
    assert_eq!(
        task.outcome(),
        Some(&ProcessingOutcome::Failed(ProcessError::ToolUnavailable))
    );

    let mut task = begin("d/c.jpg.supplemental-metadata.json");
    task.advance(PipelineEvent::ExistenceChecked { exists: true });
    task.advance(PipelineEvent::EvidenceGathered { evidence: DateEvidence::VideoToolFailed });
    task.advance(PipelineEvent::SidecarRead { text: Some(doc) });
    let a = task.advance(PipelineEvent::WriteFinished {
        result: WriteResult::ToolFailed { stderr: String::from("boom") },
    });
    assert_eq!(a, PipelineAction::Settled);
    assert_eq!(
        task.outcome(),
        Some(&ProcessingOutcome::Failed(ProcessError::ToolInvocationFailed(String::from(
            "boom"
        ))))
    );
}

#[test]
fn summary_counts_outcomes() {
    let outcomes = vec![
        ProcessingOutcome::Updated,
        ProcessingOutcome::Skipped,
        ProcessingOutcome::Failed(ProcessError::MediaNotFound),
        ProcessingOutcome::Updated,
        ProcessingOutcome::Failed(ProcessError::InvalidTimestamp),
    ];
    let s = summarize(&outcomes);
    assert_eq!(s.found, 5);
    assert_eq!(s.updated, 2);
    assert_eq!(s.skipped, 1);
    assert_eq!(s.errors, 2);
    let empty = summarize(&vec![]);
    assert_eq!(empty.found, 0);
    assert_eq!(empty.updated, 0);
    assert_eq!(empty.skipped, 0);
    assert_eq!(empty.errors, 0);
}
