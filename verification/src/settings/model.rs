//! The user's preferences.

use vstd::prelude::*;

use crate::meetings::model::copy_strings;

verus! {

/// The user's preferences.
#[derive(Clone, Debug, PartialEq, Eq)]
pub struct AppSettings {
    pub save_raw_audio: bool,
    pub markdown_copy: bool,
    pub meeting_reminders_enabled: bool,
    pub meeting_calendar_ids: Vec<String>,
    pub meeting_reminder_minutes: u16,
    pub meeting_end_reminders: bool,
    pub meeting_auto_record_enabled: bool,
}

pub struct SettingsView {
    pub save_raw_audio: bool,
    pub markdown_copy: bool,
    pub meeting_reminders_enabled: bool,
    pub meeting_calendar_ids: Seq<Seq<char>>,
    pub meeting_reminder_minutes: u16,
    pub meeting_end_reminders: bool,
    pub meeting_auto_record_enabled: bool,
}

impl View for AppSettings {
    type V = SettingsView;

    open spec fn view(&self) -> SettingsView {
        SettingsView {
            save_raw_audio: self.save_raw_audio,
            markdown_copy: self.markdown_copy,
            meeting_reminders_enabled: self.meeting_reminders_enabled,
            meeting_calendar_ids: self.meeting_calendar_ids.deep_view(),
            meeting_reminder_minutes: self.meeting_reminder_minutes,
            meeting_end_reminders: self.meeting_end_reminders,
            meeting_auto_record_enabled: self.meeting_auto_record_enabled,
        }
    }
}

/// The settings of a fresh install: raw audio and markdown copies kept,
/// reminders off, five minutes of lead time, end reminders on, no automatic
/// recording.
pub open spec fn default_settings() -> SettingsView {
    SettingsView {
        save_raw_audio: true,
        markdown_copy: true,
        meeting_reminders_enabled: false,
        meeting_calendar_ids: Seq::empty(),
        meeting_reminder_minutes: 5,
        meeting_end_reminders: true,
        meeting_auto_record_enabled: false,
    }
}

impl Default for AppSettings {
    fn default() -> (r: Self)
        ensures
            r@ == default_settings(),
    {
        let r = AppSettings {
            save_raw_audio: true,
            markdown_copy: true,
            meeting_reminders_enabled: false,
            meeting_calendar_ids: Vec::new(),
            meeting_reminder_minutes: 5,
            meeting_end_reminders: true,
            meeting_auto_record_enabled: false,
        };
        proof {
            assert(r.meeting_calendar_ids.deep_view() =~= Seq::<Seq<char>>::empty());
        }
        r
    }
}

impl AppSettings {
    /// A copy of these settings.
    pub fn duplicate(&self) -> (r: AppSettings)
        ensures
            r@ == self@,
    {
        AppSettings {
            save_raw_audio: self.save_raw_audio,
            markdown_copy: self.markdown_copy,
            meeting_reminders_enabled: self.meeting_reminders_enabled,
            meeting_calendar_ids: copy_strings(&self.meeting_calendar_ids),
            meeting_reminder_minutes: self.meeting_reminder_minutes,
            meeting_end_reminders: self.meeting_end_reminders,
            meeting_auto_record_enabled: self.meeting_auto_record_enabled,
        }
    }
}

} // verus!
