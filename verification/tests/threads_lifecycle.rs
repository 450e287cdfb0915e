use just_notes::recording::workflow::{
    persist_stopped_thread, start_step, stopped_duration_ms, StartAction, StartEvent, StartPhase,
};
use just_notes::threads::digest::normalize_for_fingerprint;
use just_notes::threads::import::normalize_imported_metadata;
use just_notes::threads::model::{RetrievalReadiness, ThreadMetadata, ThreadStatus};
use just_notes::threads::readiness::{
    is_thread_retrievable, mark_recording_aborted, mark_recording_finished, mark_recording_started,
    migrate_retrieval_readiness, reset_stale_recording_thread, resolve_retrieval_readiness,
    transcript_readiness,
};
use just_notes::threads::storage::{
    delete_reclaimable_raw_audio, is_reclaimable, usage, ThreadFootprint,
};

fn metadata(status: ThreadStatus, readiness: RetrievalReadiness) -> ThreadMetadata {
    ThreadMetadata {
        id: "thread-1".to_string(),
        title: "t".to_string(),
        created_at_ms: 1,
        updated_at_ms: 1,
        status,
        retrieval_readiness: readiness,
        duration_ms: 0,
        calendar: None,
    }
}

#[test]
fn recording_start_clears_ready_and_only_a_valid_finish_restores_it() {
    let mut m = metadata(ThreadStatus::Idle, RetrievalReadiness::Ready);
    mark_recording_started(&mut m, 2_000);
    assert_eq!(m.status, ThreadStatus::Recording);
    assert_eq!(m.retrieval_readiness, RetrievalReadiness::Unavailable);
    assert_eq!(m.updated_at_ms, 2_000);
    assert_eq!(is_thread_retrievable(&m, Ok(true)), Ok(false));

    let mut failed = m.clone();
    assert_eq!(
        mark_recording_finished(
            &mut failed,
            500,
            &Err("Invalid transcript".to_string()),
            3_000,
            Ok(true)
        ),
        Ok(false)
    );
    assert_eq!(failed.retrieval_readiness, RetrievalReadiness::Unavailable);
    assert_eq!(is_thread_retrievable(&failed, Ok(true)), Ok(false));

    assert_eq!(mark_recording_finished(&mut m, 500, &Ok(true), 3_000, Ok(true)), Ok(true));
    assert_eq!(m.status, ThreadStatus::Idle);
    assert_eq!(m.duration_ms, 500);
    assert_eq!(m.retrieval_readiness, RetrievalReadiness::Ready);
    assert_eq!(is_thread_retrievable(&m, Ok(true)), Ok(true));
    assert_eq!(is_thread_retrievable(&m, Ok(false)), Ok(false));
    assert_eq!(
        is_thread_retrievable(&m, Err("unreadable".to_string())),
        Err("unreadable".to_string())
    );
}

#[test]
fn aborted_start_restores_readiness_from_the_transcript() {
    let mut m = metadata(ThreadStatus::Recording, RetrievalReadiness::Unavailable);
    mark_recording_aborted(&mut m, &Ok(true), 9);
    assert_eq!(m.status, ThreadStatus::Idle);
    assert_eq!(m.retrieval_readiness, RetrievalReadiness::Ready);
    assert_eq!(m.updated_at_ms, 9);
}

#[test]
fn migration_marks_only_valid_idle_threads_ready() {
    let mut idle = metadata(ThreadStatus::Idle, RetrievalReadiness::Unknown);
    assert!(migrate_retrieval_readiness(&mut idle, &Ok(true)));
    assert_eq!(idle.retrieval_readiness, RetrievalReadiness::Ready);
    assert_eq!(idle.updated_at_ms, 1);

    let mut busy = metadata(ThreadStatus::Recording, RetrievalReadiness::Unknown);
    assert!(migrate_retrieval_readiness(&mut busy, &Ok(true)));
    assert_eq!(busy.retrieval_readiness, RetrievalReadiness::Unavailable);

    let mut empty = metadata(ThreadStatus::Idle, RetrievalReadiness::Unknown);
    assert!(migrate_retrieval_readiness(&mut empty, &Ok(false)));
    assert_eq!(empty.retrieval_readiness, RetrievalReadiness::Unavailable);

    let mut known = metadata(ThreadStatus::Idle, RetrievalReadiness::Unavailable);
    assert!(!migrate_retrieval_readiness(&mut known, &Ok(true)));
    assert_eq!(known.retrieval_readiness, RetrievalReadiness::Unavailable);
}

#[test]
fn resolving_readiness_keeps_the_activity_time() {
    let mut m = metadata(ThreadStatus::Idle, RetrievalReadiness::Unavailable);
    resolve_retrieval_readiness(&mut m, &Ok(true));
    assert_eq!(m.retrieval_readiness, RetrievalReadiness::Ready);
    assert_eq!(m.updated_at_ms, 1);
    assert_eq!(transcript_readiness(&Err("corrupt".to_string())), RetrievalReadiness::Unavailable);
}

#[test]
fn usage_counts_threads_audio_and_reclaimable_audio() {
    let threads = vec![
        ThreadFootprint { total_bytes: 100, raw_audio_bytes: 50, status: Some(ThreadStatus::Idle) },
        ThreadFootprint { total_bytes: 500, raw_audio_bytes: 400, status: Some(ThreadStatus::Recording) },
        ThreadFootprint { total_bytes: 70, raw_audio_bytes: 10, status: None },
    ];
    let u = usage(&threads);
    assert_eq!(u.thread_count, 3);
    assert_eq!(u.total_bytes, 670);
    assert_eq!(u.raw_audio_bytes, 460);
    assert_eq!(u.reclaimable_bytes, 50);
    assert!(is_reclaimable(Some(ThreadStatus::Idle)));
    assert!(!is_reclaimable(Some(ThreadStatus::Transcribing)));
    assert!(!is_reclaimable(None));
}

#[test]
fn a_stopped_recording_adds_to_the_resumed_duration() {
    assert_eq!(stopped_duration_ms(Some(1_000), Some(250), 9_999), 1_250);
    assert_eq!(stopped_duration_ms(None, None, 700), 700);
    assert_eq!(stopped_duration_ms(Some(u64::MAX), Some(1), 0), u64::MAX);
    let mut m = metadata(ThreadStatus::Recording, RetrievalReadiness::Unavailable);
    persist_stopped_thread(&mut m, 1_250, 42);
    assert_eq!(m.status, ThreadStatus::Idle);
    assert_eq!(m.duration_ms, 1_250);
    assert_eq!(m.updated_at_ms, 42);
}

#[test]
fn fingerprint_metadata_drops_the_id_and_busy_status() {
    let mut m = metadata(ThreadStatus::Recording, RetrievalReadiness::Unavailable);
    normalize_for_fingerprint(&mut m);
    assert_eq!(m.id, "");
    assert_eq!(m.status, ThreadStatus::Idle);
    assert_eq!(m.title, "t");
}

#[test]
fn a_recording_start_prepares_input_before_choosing_a_thread() {
    let (phase, action) = start_step(
        StartPhase::CheckingTranscription,
        StartEvent::TranscriptionChecked { ready: true },
    );
    assert_eq!(action, StartAction::PrepareInput);
    let (phase, action) = start_step(phase, StartEvent::InputPrepared(Ok(())));
    assert_eq!(action, StartAction::SelectThread);
    let (phase, action) = start_step(phase, StartEvent::ThreadSelected(Ok(true)));
    assert_eq!(action, StartAction::MarkThreadRecording);
    let (phase, action) = start_step(phase, StartEvent::ThreadMarked(Ok(())));
    assert_eq!(action, StartAction::Activate);
    let (failed, action) =
        start_step(phase.clone(), StartEvent::Activated(Err("No microphone".to_string())));
    assert_eq!(failed, StartPhase::Failed);
    assert_eq!(action, StartAction::DiscardThread("No microphone".to_string()));
    let (started, action) = start_step(phase, StartEvent::Activated(Ok(())));
    assert_eq!(started, StartPhase::Started);
    assert_eq!(action, StartAction::Finish);
}

#[test]
fn a_recording_start_fails_early_and_restores_existing_threads() {
    assert_eq!(
        start_step(
            StartPhase::CheckingTranscription,
            StartEvent::TranscriptionChecked { ready: false }
        ),
        (
            StartPhase::Failed,
            StartAction::Fail("Parakeet model is required before recording".to_string())
        )
    );
    assert_eq!(
        start_step(
            StartPhase::PreparingInput,
            StartEvent::InputPrepared(Err("Microphone access denied".to_string()))
        ),
        (StartPhase::Failed, StartAction::Fail("Microphone access denied".to_string()))
    );
    assert_eq!(
        start_step(
            StartPhase::Activating { newly_created: false },
            StartEvent::Activated(Err("busy".to_string()))
        ),
        (StartPhase::Failed, StartAction::MarkAborted("busy".to_string()))
    );
    assert_eq!(
        start_step(StartPhase::SelectingThread, StartEvent::InputPrepared(Ok(()))),
        (StartPhase::SelectingThread, StartAction::Ignore)
    );
}

#[test]
fn startup_clears_a_stranded_busy_thread() {
    let mut transcribing = metadata(ThreadStatus::Transcribing, RetrievalReadiness::Ready);
    assert!(reset_stale_recording_thread(&mut transcribing));
    assert_eq!(transcribing.status, ThreadStatus::Idle);
    let mut idle = metadata(ThreadStatus::Idle, RetrievalReadiness::Ready);
    assert!(!reset_stale_recording_thread(&mut idle));
}

#[test]
fn imported_recordings_are_idle_under_their_new_id() {
    let mut m = metadata(ThreadStatus::Recording, RetrievalReadiness::Unavailable);
    normalize_imported_metadata(&mut m, Some("thread-1-imported".to_string()));
    assert_eq!(m.id, "thread-1-imported");
    assert_eq!(m.status, ThreadStatus::Idle);
    let mut same = metadata(ThreadStatus::Transcribing, RetrievalReadiness::Unavailable);
    normalize_imported_metadata(&mut same, None);
    assert_eq!(same.id, "thread-1");
    assert_eq!(same.status, ThreadStatus::Idle);
}

#[test]
fn reclaiming_deletes_only_idle_threads_audio() {
    let threads = vec![
        ThreadFootprint { total_bytes: 100, raw_audio_bytes: 50, status: Some(ThreadStatus::Idle) },
        ThreadFootprint { total_bytes: 500, raw_audio_bytes: 400, status: Some(ThreadStatus::Recording) },
        ThreadFootprint { total_bytes: 70, raw_audio_bytes: 10, status: None },
        ThreadFootprint { total_bytes: 9, raw_audio_bytes: 7, status: Some(ThreadStatus::Idle) },
    ];
    assert_eq!(delete_reclaimable_raw_audio(&threads), (vec![0, 3], 57));
}
