use just_notes::meetings::actions::{
    finish_meeting_stop, keep_recording, notification_action, prompt_may_start, skip_meeting,
    stop_meeting_recording, track_started_meeting, MeetingAction, MeetingStop,
};
use just_notes::meetings::model::{Meeting, MeetingPrompt};
use just_notes::meetings::notifications::{
    categories, show_automatic_start_prompt, show_end_prompt, show_start_failure,
    show_start_prompt,
};
use just_notes::meetings::scheduler::cycle::tick;
use just_notes::meetings::scheduler::end::{check, settle_scheduled_stop, EndCheck};
use just_notes::meetings::scheduler::prompts::settle_automatic_start_prompt;
use just_notes::meetings::scheduler::{
    notification_id, reconcile_active_recording, refresh_start_prompts, refresh_window,
};
use just_notes::meetings::state::MeetingSchedulerState;
use just_notes::meetings::{access_status, dismiss_prompt, settings_updated};
use just_notes::platform::calendar::{
    event_from_parts, selected_calendars, CalendarEvent, CalendarInfo, CalendarParticipant,
};
use just_notes::settings::model::AppSettings;

fn meeting(start_at_ms: u64) -> Meeting {
    Meeting {
        id: "meeting-1".to_string(),
        calendar_id: "calendar-1".to_string(),
        title: "Design review".to_string(),
        start_at_ms,
        end_at_ms: start_at_ms + 30 * 60 * 1000,
        attendees: vec!["Alice".to_string()],
    }
}

fn event(start_at_ms: u64) -> CalendarEvent {
    CalendarEvent {
        id: "meeting-1".to_string(),
        calendar_id: "calendar-1".to_string(),
        title: "Design review".to_string(),
        start_at_ms,
        end_at_ms: start_at_ms + 30 * 60 * 1000,
        all_day: false,
        canceled: false,
        free: false,
        current_user_declined: false,
        participants: vec![CalendarParticipant {
            name: Some("Alice".to_string()),
            email: None,
            is_current_user: false,
        }],
    }
}

fn reminders_on() -> AppSettings {
    AppSettings {
        meeting_reminders_enabled: true,
        meeting_calendar_ids: vec!["calendar-1".to_string()],
        ..AppSettings::default()
    }
}

#[test]
fn a_dismissed_prompt_is_withdrawn_once() {
    let mut state = MeetingSchedulerState::default();
    assert!(state.upsert_start_prompt("start-1".to_string(), meeting(1_000), false));
    assert!(dismiss_prompt(&mut state, "start-1"));
    assert!(!dismiss_prompt(&mut state, "start-1"));
}

#[test]
fn changed_start_settings_drop_prompts_and_disabled_reminders_forget_the_meeting() {
    let mut state = MeetingSchedulerState::default();
    assert!(state.upsert_start_prompt("start-1".to_string(), meeting(1_000), false));
    state.set_active(meeting(1_000), 1, "end-1".to_string(), false);
    let previous = reminders_on();
    let unchanged = settings_updated(&mut state, &previous, &previous.clone());
    assert!(unchanged.is_empty());
    let mut current = previous.clone();
    current.meeting_reminders_enabled = false;
    let removed = settings_updated(&mut state, &previous, &current);
    assert_eq!(removed, vec!["start-1".to_string(), "end-1".to_string()]);
    assert_eq!(state.take_start_prompt("start-1"), None);
    assert_eq!(state.due_end_prompt(1_000_000_000, 1), None);
}

#[test]
fn turning_end_reminders_off_forgets_a_manual_meeting() {
    let mut state = MeetingSchedulerState::default();
    state.set_active(meeting(1_000), 1, "end-1".to_string(), false);
    let previous = reminders_on();
    let mut current = previous.clone();
    current.meeting_end_reminders = false;
    assert_eq!(settings_updated(&mut state, &previous, &current), vec!["end-1".to_string()]);
}

#[test]
fn access_lists_calendars_only_under_full_access() {
    let listed = || {
        Ok(vec![
            CalendarInfo {
                id: "b".to_string(),
                title: "Work".to_string(),
                account: "z@example.com".to_string(),
                color: "#fff".to_string(),
            },
            CalendarInfo {
                id: "a".to_string(),
                title: "Home".to_string(),
                account: "a@example.com".to_string(),
                color: "#000".to_string(),
            },
        ])
    };
    let access = access_status("authorized".to_string(), Ok("denied".to_string()), listed);
    assert_eq!(access.calendar_authorization, "authorized");
    assert_eq!(access.notification_authorization, "denied");
    let ids: Vec<&str> = access.calendars.iter().map(|c| c.id.as_str()).collect();
    assert_eq!(ids, vec!["a", "b"]);

    let denied = access_status("denied".to_string(), Err("no".to_string()), listed);
    assert!(denied.calendars.is_empty());
    assert_eq!(denied.notification_authorization, "unknown");

    let failed = access_status("authorized".to_string(), Ok("authorized".to_string()), || {
        Err("EventKit unavailable".to_string())
    });
    assert!(failed.calendars.is_empty());
}

#[test]
fn a_running_recording_keeps_only_its_own_meeting() {
    let mut state = MeetingSchedulerState::default();
    state.set_active(meeting(1_000), 1, "end-1".to_string(), false);
    assert_eq!(reconcile_active_recording(&mut state, Some(1)), None);
    assert_eq!(reconcile_active_recording(&mut state, Some(2)), Some("end-1".to_string()));
    state.set_active(meeting(1_000), 1, "end-1".to_string(), false);
    assert_eq!(reconcile_active_recording(&mut state, None), Some("end-1".to_string()));
}

#[test]
fn a_refresh_reads_the_window_around_now_and_prompts_due_meetings() {
    let mut state = MeetingSchedulerState::default();
    let settings = reminders_on();
    let now = 10_000_000;
    let mut asked = None;
    let plan = refresh_start_prompts(&mut state, &settings, now, "authorized", |ids, from, to| {
        asked = Some((ids, from, to));
        Ok(vec![event(now + 60_000)])
    })
    .unwrap();
    assert_eq!(asked, Some((vec!["calendar-1".to_string()], now - 900_000, now + 43_200_000)));
    assert_eq!(refresh_window(now), (now - 900_000, now + 43_200_000));
    assert!(plan.removed.is_empty());
    assert_eq!(plan.notices.len(), 1);
    assert_eq!(plan.notices[0].timing, "in 5 minutes");
    assert_eq!(plan.notices[0].request_id, notification_id("start", "meeting-1"));
}

#[test]
fn a_refresh_without_access_reads_nothing() {
    let mut state = MeetingSchedulerState::default();
    let result = refresh_start_prompts(&mut state, &reminders_on(), 0, "denied", |_, _, _| {
        panic!("calendar must not be read")
    });
    assert_eq!(result.err(), Some("Calendar access is denied in System Settings".to_string()));
}

#[test]
fn a_stop_answer_targets_only_the_running_recording() {
    let mut state = MeetingSchedulerState::default();
    state.set_active(meeting(1_000), 3, "end-1".to_string(), false);
    assert_eq!(stop_meeting_recording(&mut state, "end-2", Some(3)), MeetingStop::Ignored);
    assert_eq!(stop_meeting_recording(&mut state, "end-1", Some(3)), MeetingStop::Stop(3));
    assert_eq!(finish_meeting_stop(&mut state, &Err("failed".to_string())), None);
    assert_eq!(finish_meeting_stop(&mut state, &Ok(true)), Some("end-1".to_string()));
    state.set_active(meeting(1_000), 3, "end-1".to_string(), false);
    assert_eq!(
        stop_meeting_recording(&mut state, "end-1", None),
        MeetingStop::Forgotten(Some("end-1".to_string()))
    );
}

#[test]
fn a_started_meeting_is_tracked_for_its_end() {
    let prompt = MeetingPrompt {
        request_id: "start-1".to_string(),
        meeting: meeting(1_000),
        auto_start: true,
        auto_start_after_ms: Some(1_000),
        auto_start_revision: 0,
    };
    let mut state = MeetingSchedulerState::default();
    track_started_meeting(&mut state, &prompt, false, Some(4));
    assert!(state.matches_active_end_prompt(&notification_id("end", "meeting-1"), 4));

    let mut untracked = MeetingSchedulerState::default();
    let manual = MeetingPrompt { auto_start: false, ..prompt };
    track_started_meeting(&mut untracked, &manual, false, Some(4));
    assert!(!untracked.matches_active_end_prompt(&notification_id("end", "meeting-1"), 4));
}

#[test]
fn an_automatic_stop_waits_while_notifications_are_off() {
    let mut state = MeetingSchedulerState::default();
    let mut m = meeting(0);
    m.end_at_ms = 120_000;
    state.set_active(m, 1, "end-1".to_string(), true);
    assert!(matches!(check(&mut state, Some(1), 60_000, true), EndCheck::ShowEndPrompt(_)));
    assert_eq!(check(&mut state, Some(1), 120_000, false), EndCheck::Idle);
    assert_eq!(check(&mut state, None, 120_000, true), EndCheck::Idle);
    let mut auto = MeetingSchedulerState::default();
    let mut m = meeting(0);
    m.end_at_ms = 120_000;
    auto.set_active(m, 1, "end-1".to_string(), true);
    assert!(matches!(check(&mut auto, Some(1), 60_000, true), EndCheck::ShowEndPrompt(_)));
    assert_eq!(
        check(&mut auto, Some(1), 120_000, true),
        EndCheck::StopRecording { request_id: "end-1".to_string(), session_id: 1 }
    );
    assert_eq!(settle_scheduled_stop(&mut auto, "end-1", Ok(true)), Some("end-1".to_string()));
}

#[test]
fn a_confirmed_automatic_prompt_is_armed_after_the_skip_window() {
    let mut state = MeetingSchedulerState::default();
    let m = meeting(10_000);
    assert!(state.upsert_start_prompt("start-1".to_string(), m.clone(), true));
    settle_automatic_start_prompt(&mut state, "start-1", &m, Ok(Some(0)));
    assert_eq!(state.current_start_prompt().unwrap().auto_start_after_ms, Some(15_000));
    settle_automatic_start_prompt(&mut state, "start-1", &m, Err("not delivered".to_string()));
    assert!(!state.current_start_prompt().unwrap().auto_start);
}

#[test]
fn a_prompt_may_start_only_while_listed_and_eligible() {
    let settings = AppSettings { meeting_auto_record_enabled: true, ..reminders_on() };
    let prompt = MeetingPrompt {
        request_id: "start-1".to_string(),
        meeting: meeting(1_000),
        auto_start: true,
        auto_start_after_ms: None,
        auto_start_revision: 0,
    };
    assert!(prompt_may_start(&settings, &prompt, Some(1_000), |_, _, _| Ok(vec![event(1_000)])));
    assert!(!prompt_may_start(&settings, &prompt, Some(1_000), |_, _, _| Ok(Vec::new())));
    assert!(!prompt_may_start(&settings, &prompt, None, |_, _, _| Ok(vec![event(1_000)])));
    let manual_only = AppSettings { meeting_auto_record_enabled: false, ..settings };
    assert!(!prompt_may_start(&manual_only, &prompt, Some(1_000), |_, _, _| {
        Ok(vec![event(1_000)])
    }));
}

#[test]
fn notifications_carry_their_wording_and_category() {
    let start = show_start_prompt("start-1", "Design review", "in 5 minutes");
    assert_eq!(start.title, "Meeting starting soon");
    assert_eq!(start.body, "Design review starts in 5 minutes. Start recording?");
    assert_eq!(start.category, "meeting-start-prompt");
    let auto = show_automatic_start_prompt("start-1", "Design review", "now");
    assert_eq!(auto.body, "Design review starts now. Recording will start automatically.");
    let end = show_end_prompt("end-1", "Design review", false);
    assert_eq!(end.body, "Design review was scheduled to end. Stop recording?");
    assert_eq!(end.category, "meeting-end-prompt");
    let failure = show_start_failure("start-1", "Design review", "No microphone");
    assert_eq!(failure.body, "Design review: No microphone. Try again?");
    let categories = categories();
    assert_eq!(categories.len(), 2);
    assert_eq!(categories[0].actions[0].id, "meeting-start");
    assert!(categories[0].actions[0].foreground);
    assert_eq!(categories[1].actions[1].title, "Keep recording");
}

#[test]
fn event_occurrences_get_an_id_per_start_and_must_end_after_they_start() {
    let e = event_from_parts(
        "EK1",
        "calendar-1".to_string(),
        "Sync".to_string(),
        1_000,
        2_000,
        false,
        false,
        false,
        false,
        Vec::new(),
    )
    .unwrap();
    assert_eq!(e.id, "EK1:1000");
    assert!(event_from_parts(
        "EK1",
        "c".to_string(),
        "t".to_string(),
        2_000,
        2_000,
        false,
        false,
        false,
        false,
        Vec::new()
    )
    .is_none());
    let all = vec!["a".to_string(), "b".to_string(), "c".to_string()];
    assert_eq!(selected_calendars(&all, &vec!["c".to_string(), "a".to_string()]), vec!["a", "c"]);
}

#[test]
fn a_pass_with_reminders_off_forgets_and_withdraws_everything() {
    let mut state = MeetingSchedulerState::default();
    assert!(state.upsert_start_prompt("start-1".to_string(), meeting(1_000), false));
    state.set_active(meeting(1_000), 1, "end-1".to_string(), false);
    let plan = tick(&mut state, &AppSettings::default(), Some(1), Some(5), true, "authorized", |_, _, _| {
        panic!("calendar must not be read")
    });
    assert_eq!(plan.withdrawn, vec!["start-1".to_string(), "end-1".to_string()]);
    assert_eq!(plan.end, EndCheck::Idle);
    assert!(plan.refresh.is_none());
}

#[test]
fn a_failed_calendar_read_still_checks_the_end_of_the_meeting() {
    let mut state = MeetingSchedulerState::default();
    state.set_active(meeting(0), 1, "end-1".to_string(), false);
    let end_at = meeting(0).end_at_ms;
    let plan = tick(&mut state, &reminders_on(), Some(1), Some(end_at), true, "authorized", |_, _, _| {
        Err("EventKit unavailable".to_string())
    });
    assert!(plan.withdrawn.is_empty());
    assert!(matches!(plan.end, EndCheck::ShowEndPrompt(_)));
    assert_eq!(plan.refresh.map(|r| r.err()), Some(Some("EventKit unavailable".to_string())));
}

#[test]
fn a_pass_without_a_clock_only_reconciles() {
    let mut state = MeetingSchedulerState::default();
    state.set_active(meeting(0), 1, "end-1".to_string(), false);
    let plan = tick(&mut state, &reminders_on(), None, None, true, "authorized", |_, _, _| {
        panic!("calendar must not be read")
    });
    assert_eq!(plan.withdrawn, vec!["end-1".to_string()]);
    assert!(plan.refresh.is_none());
}

#[test]
fn notification_responses_name_meeting_actions() {
    assert_eq!(notification_action("meeting-start"), MeetingAction::Start);
    assert_eq!(notification_action("meeting-skip"), MeetingAction::Skip);
    assert_eq!(notification_action("meeting-stop"), MeetingAction::Stop);
    assert_eq!(notification_action("meeting-keep-recording"), MeetingAction::Keep);
    assert_eq!(notification_action("com.apple.UNNotificationDefaultActionIdentifier"), MeetingAction::Other);
}

#[test]
fn skipping_consumes_the_prompt_and_keeping_defers_the_end() {
    let mut state = MeetingSchedulerState::default();
    assert!(state.upsert_start_prompt("start-1".to_string(), meeting(1_000), false));
    skip_meeting(&mut state, "start-1");
    assert_eq!(state.take_start_prompt("start-1"), None);
    let mut m = meeting(0);
    m.end_at_ms = 1_000;
    state.set_active(m, 1, "end-1".to_string(), false);
    assert!(state.due_end_prompt(1_000, 1).is_some());
    keep_recording(&mut state, "end-1", None);
    assert!(state.due_end_prompt(700_000, 1).is_none());
    keep_recording(&mut state, "end-1", Some(1_000));
    assert!(state.due_end_prompt(600_999, 1).is_none());
    assert!(state.due_end_prompt(601_000, 1).is_some());
}
