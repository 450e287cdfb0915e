use just_notes::recording::model::ScheduledMeeting;
use just_notes::recording::selection::{
    select_existing_thread, thread_for_new_recording, SelectedThread,
};
use just_notes::threads::create::{
    create_thread, create_thread_with_external_title, create_thread_with_title,
    create_unique_thread_dir, thread_dir_step, thread_id_candidate_for, ThreadDirStep,
};
use just_notes::threads::edits::{
    ensure_archivable, ensure_thread_not_busy, rename_thread, search_threads,
    sort_thread_summaries, text_contains,
};
use just_notes::threads::transcript_store::sort_segments;
use just_notes::threads::model::{
    RetrievalReadiness, ThreadDetail, ThreadMetadata, ThreadStatus, ThreadSummary,
    TranscriptSegment,
};

fn summary(id: &str, title: &str, created: u64, updated: u64) -> ThreadSummary {
    ThreadSummary {
        id: id.to_string(),
        title: title.to_string(),
        created_at_ms: created,
        updated_at_ms: updated,
        status: ThreadStatus::Idle,
        segment_count: 0,
        duration_ms: 0,
        snippet: String::new(),
        has_audio: false,
        path: format!("/threads/{id}"),
        calendar: None,
    }
}

fn metadata(status: ThreadStatus) -> ThreadMetadata {
    ThreadMetadata {
        id: "thread-1".to_string(),
        title: "Old".to_string(),
        created_at_ms: 1,
        updated_at_ms: 5,
        status,
        retrieval_readiness: RetrievalReadiness::Ready,
        duration_ms: 0,
        calendar: None,
    }
}

#[test]
fn title_rename_preserves_activity_timestamp() {
    let mut m = metadata(ThreadStatus::Idle);
    assert_eq!(rename_thread(&mut m, "  Renamed thread "), Ok(()));
    assert_eq!(m.title, "Renamed thread");
    assert_eq!(m.updated_at_ms, 5);
}

#[test]
fn busy_or_invalid_renames_change_nothing() {
    let mut busy = metadata(ThreadStatus::Recording);
    assert_eq!(
        rename_thread(&mut busy, "New"),
        Err("Wait for recording or transcription to finish before editing this thread".to_string())
    );
    assert_eq!(busy.title, "Old");
    assert_eq!(
        rename_thread(&mut busy, "   "),
        Err("Thread title cannot be empty".to_string())
    );
    assert!(ensure_thread_not_busy(ThreadStatus::Idle).is_ok());
    assert_eq!(
        ensure_archivable(ThreadStatus::Transcribing),
        Err("Stop the active recording or transcription before archiving this thread".to_string())
    );
}

#[test]
fn search_matches_titles_and_transcripts_ignoring_case() {
    let threads = vec![
        summary("a", "Pricing Sync", 1, 1),
        summary("b", "Standup", 2, 2),
        summary("c", "Retro", 3, 3),
    ];
    let transcripts = vec![
        Some(vec![]),
        Some(vec!["we discussed PRICING tiers".to_string()]),
        None,
    ];
    let found = search_threads(threads.clone(), "  pricing ", &transcripts);
    let ids: Vec<&str> = found.iter().map(|t| t.id.as_str()).collect();
    assert_eq!(ids, vec!["a", "b"]);
    assert_eq!(search_threads(threads.clone(), "   ", &transcripts), threads);
    assert!(search_threads(threads, "retrospective", &transcripts).is_empty());
    assert!(text_contains("abcabd", "abd"));
    assert!(!text_contains("abcab", "abd"));
    assert!(text_contains("abc", ""));
}

#[test]
fn threads_are_listed_most_recently_active_first() {
    let sorted = sort_thread_summaries(vec![
        summary("old", "t", 1, 10),
        summary("new", "t", 2, 30),
        summary("tie-older", "t", 3, 20),
        summary("tie-newer", "t", 4, 20),
    ]);
    let ids: Vec<&str> = sorted.iter().map(|t| t.id.as_str()).collect();
    assert_eq!(ids, vec!["new", "tie-newer", "tie-older", "old"]);
}

#[test]
fn thread_directory_names_retry_timestamp_collisions() {
    assert_eq!(thread_id_candidate_for(42, 0), "thread-42");
    assert_eq!(thread_id_candidate_for(42, 1), "thread-42-1");
    let created = create_unique_thread_dir(42, |name| Ok(name != "thread-42"));
    assert_eq!(created, Ok("thread-42-1".to_string()));
    let full = create_unique_thread_dir(42, |_| Ok(false));
    assert_eq!(full, Err("Could not allocate a unique thread folder".to_string()));
    let failing = create_unique_thread_dir(42, |_| Err("disk full".to_string()));
    assert_eq!(failing, Err("disk full".to_string()));
}

#[test]
fn new_threads_start_idle_and_unready() {
    let m = create_thread("thread-7".to_string(), 7);
    assert_eq!(m.title, "Untitled thread");
    assert_eq!(m.created_at_ms, 7);
    assert_eq!(m.updated_at_ms, 7);
    assert_eq!(m.status, ThreadStatus::Idle);
    assert_eq!(m.retrieval_readiness, RetrievalReadiness::Unavailable);
    assert_eq!(
        create_thread_with_title("thread-8".to_string(), " ", 8, None),
        Err("Thread title cannot be empty".to_string())
    );
}

#[test]
fn a_blank_meeting_title_falls_back_to_the_default_thread_title() {
    let m = create_thread_with_external_title("thread-9".to_string(), "   ", 9, None);
    assert_eq!(m.title, "Untitled thread");
    let long = format!("{} {}", "a".repeat(119), "b".repeat(30));
    let cut = create_thread_with_external_title("thread-10".to_string(), &long, 9, None);
    assert_eq!(cut.title, "a".repeat(119));
}

fn detail(status: ThreadStatus, segments: Vec<TranscriptSegment>, duration_ms: u64) -> ThreadDetail {
    let mut s = summary("thread-1", "t", 1, 1);
    s.status = status;
    s.segment_count = segments.len();
    s.duration_ms = duration_ms;
    ThreadDetail { summary: s, segments, transcript_markdown_path: String::new() }
}

fn segment(end_ms: u64) -> TranscriptSegment {
    TranscriptSegment {
        speaker: "You".to_string(),
        source: "mic".to_string(),
        start_ms: 0,
        end_ms,
        text: "hi".to_string(),
    }
}

#[test]
fn a_recording_reuses_empty_threads_and_resumes_after_prior_content() {
    let empty = detail(ThreadStatus::Idle, Vec::new(), 0);
    assert_eq!(
        select_existing_thread(empty.clone()),
        Ok(SelectedThread { thread: empty, resume_offset_ms: None, newly_created: false })
    );
    let resumed = select_existing_thread(detail(ThreadStatus::Idle, vec![segment(9_000)], 4_000))
        .unwrap();
    assert_eq!(resumed.resume_offset_ms, Some(9_000));
    assert_eq!(
        select_existing_thread(detail(ThreadStatus::Recording, Vec::new(), 0)),
        Err("The selected thread is busy recording or transcribing".to_string())
    );
    let (title, provenance) = thread_for_new_recording(Some(ScheduledMeeting {
        title: "Pricing sync".to_string(),
        event_id: "event-1:1000".to_string(),
        calendar_id: "calendar-1".to_string(),
        attendees: vec!["Alice".to_string()],
        start_at_ms: 1_000,
        end_at_ms: 2_000,
    }));
    assert_eq!(title, "Pricing sync");
    assert_eq!(provenance.unwrap().event_id, "event-1:1000");
    assert_eq!(thread_for_new_recording(None), (String::new(), None));
}

fn seg(start_ms: u64, source: &str, text: &str) -> TranscriptSegment {
    TranscriptSegment {
        speaker: "You".to_string(),
        source: source.to_string(),
        start_ms,
        end_ms: start_ms + 10,
        text: text.to_string(),
    }
}

#[test]
fn transcript_segments_are_read_in_time_order() {
    let sorted = sort_segments(vec![
        seg(2_000, "mic", "c"),
        seg(1_000, "system", "b"),
        seg(1_000, "mic", "a"),
        seg(1_000, "mic", "a2"),
    ]);
    let texts: Vec<&str> = sorted.iter().map(|s| s.text.as_str()).collect();
    assert_eq!(texts, vec!["a", "a2", "b", "c"]);
}

#[test]
fn the_first_free_folder_name_is_taken() {
    assert_eq!(create_unique_thread_dir(42, |_| Ok(true)), Ok("thread-42".to_string()));
    let taken = ["thread-42", "thread-42-1", "thread-42-2"];
    assert_eq!(
        create_unique_thread_dir(42, |name| Ok(!taken.contains(&name))),
        Ok("thread-42-3".to_string())
    );
    assert_eq!(thread_dir_step(0, Ok(true)), ThreadDirStep::Created);
    assert_eq!(thread_dir_step(0, Ok(false)), ThreadDirStep::TryNext(1));
    assert_eq!(
        thread_dir_step(999, Ok(false)),
        ThreadDirStep::Failed("Could not allocate a unique thread folder".to_string())
    );
    assert_eq!(
        thread_dir_step(3, Err("disk full".to_string())),
        ThreadDirStep::Failed("disk full".to_string())
    );
}
