use just_notes::settings::model::AppSettings;
use just_notes::settings::store::{settings_path, SettingsState};

#[test]
fn settings_state_can_atomically_replace_settings() {
    let mut state = SettingsState::new(AppSettings::default());
    let replacement = AppSettings {
        save_raw_audio: false,
        ..AppSettings::default()
    };
    state.replace(replacement);
    assert!(!state.snapshot().save_raw_audio);
}

#[test]
fn defaults_are_safe() {
    let settings = AppSettings::default();
    assert!(settings.save_raw_audio);
    assert!(settings.markdown_copy);
    assert!(!settings.meeting_reminders_enabled);
    assert!(settings.meeting_calendar_ids.is_empty());
    assert_eq!(settings.meeting_reminder_minutes, 5);
    assert!(settings.meeting_end_reminders);
    assert!(!settings.meeting_auto_record_enabled);
}

#[test]
fn a_snapshot_reads_back_what_was_stored() {
    let stored = AppSettings {
        meeting_reminders_enabled: true,
        meeting_calendar_ids: vec!["calendar-1".to_string()],
        meeting_reminder_minutes: 10,
        ..AppSettings::default()
    };
    let state = SettingsState::new(stored.clone());
    assert_eq!(state.snapshot(), stored);
}

#[test]
fn settings_live_in_the_data_folder() {
    assert_eq!(settings_path("/data"), "/data/settings.json");
}
