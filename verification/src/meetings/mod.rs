//! Calendar-driven meeting reminders and automatic recording.

pub mod model;
pub mod state;
pub mod scheduler;
pub mod notifications;
pub mod actions;
pub mod laws;

use vstd::prelude::*;

use crate::meetings::model::{strings_eq, MeetingAccess, MeetingCalendar};
use crate::meetings::state::start::clear_start_prompts_spec;
use crate::meetings::state::{
    clear_active_spec, lists_keys_once, update_active_end_reminders_spec, MeetingSchedulerState,
    SchedulerView,
};
use crate::platform::calendar::{
    calendar_views, calendars_by_account, list_calendars, CalendarInfo, CalendarInfoView,
};
use crate::settings::model::{AppSettings, SettingsView};
use crate::text::{copy_string, owned, str_eq};

verus! {

/// Settings with automatic recording switched off whenever meeting reminders
/// are off: automatic recording depends on the reminders.
pub open spec fn normalized(s: SettingsView) -> SettingsView {
    SettingsView {
        meeting_auto_record_enabled: s.meeting_auto_record_enabled && s.meeting_reminders_enabled,
        ..s
    }
}

/// Turns automatic recording off when meeting reminders are off.
pub fn normalize_settings(settings: &mut AppSettings)
    ensures
        final(settings)@ == normalized(old(settings)@),
{
    if !settings.meeting_reminders_enabled {
        settings.meeting_auto_record_enabled = false;
    }
}

/// Dismisses the start prompt `request_id`. Returns whether it was pending,
/// in which case its notification is to be withdrawn.
pub fn dismiss_prompt(state: &mut MeetingSchedulerState, request_id: &str) -> (r: bool)
    requires
        old(state).wf(),
    ensures
        final(state).wf(),
        final(state)@ == crate::meetings::state::start::take_start_prompt_spec(
            old(state)@,
            request_id@,
        ).0,
        r == old(state)@.prompts.contains_key(request_id@),
{
    state.dismiss_start_prompt(request_id)
}

pub open spec fn meeting_calendar_view(c: CalendarInfoView) -> (Seq<char>, Seq<char>, Seq<char>, Seq<char>) {
    (c.id, c.title, c.account, c.color)
}

pub open spec fn meeting_calendar_views(s: Seq<MeetingCalendar>) -> Seq<(Seq<char>, Seq<char>, Seq<char>, Seq<char>)> {
    s.map_values(|c: MeetingCalendar| (c.id@, c.title@, c.account@, c.color@))
}

/// The calendars offered to the user: those listed, in listing order.
pub open spec fn offered_calendars(listed: Seq<CalendarInfoView>) -> Seq<(Seq<char>, Seq<char>, Seq<char>, Seq<char>)> {
    listed.map_values(|c: CalendarInfoView| meeting_calendar_view(c))
}

/// The notification authorization label, `"unknown"` when it could not be read.
pub open spec fn notification_label(status: Result<String, String>) -> Seq<char> {
    match status {
        Ok(s) => s@,
        Err(_) => "unknown"@,
    }
}

fn meeting_calendars(listed: &Vec<CalendarInfo>) -> (r: Vec<MeetingCalendar>)
    ensures
        meeting_calendar_views(r@) == offered_calendars(calendar_views(listed@)),
{
    let mut r: Vec<MeetingCalendar> = Vec::new();
    let mut i: usize = 0;
    while i < listed.len()
        invariant
            i <= listed@.len(),
            r@.len() == i,
            forall|j: int| 0 <= j < i ==> {
                &&& (#[trigger] r@[j]).id@ == listed@[j].id@
                &&& r@[j].title@ == listed@[j].title@
                &&& r@[j].account@ == listed@[j].account@
                &&& r@[j].color@ == listed@[j].color@
            },
        decreases listed@.len() - i,
    {
        let c = &listed[i];
        r.push(
            MeetingCalendar {
                id: copy_string(&c.id),
                title: copy_string(&c.title),
                account: copy_string(&c.account),
                color: copy_string(&c.color),
            },
        );
        i = i + 1;
    }
    proof {
        assert(meeting_calendar_views(r@) =~= offered_calendars(calendar_views(listed@)));
    }
    r
}

/// The permission state shown to the user. `calendar_authorization` and
/// `notification_authorization` are what the platform reported; the calendars
/// are read through `fetch` only under full calendar access, and a failed
/// read offers none.
pub fn access_status<F: FnOnce() -> Result<Vec<CalendarInfo>, String>>(
    calendar_authorization: String,
    notification_authorization: Result<String, String>,
    fetch: F,
) -> (r: MeetingAccess)
    requires
        call_requires(fetch, ()),
    ensures
        r.calendar_authorization@ == calendar_authorization@,
        r.notification_authorization@ == notification_label(notification_authorization),
        calendar_authorization@ != "authorized"@ ==> r.calendars@.len() == 0,
        calendar_authorization@ == "authorized"@ ==> exists|w: Result<Vec<CalendarInfo>, String>|
            {
                &&& call_ensures(fetch, (), w)
                &&& match w {
                    Err(_) => r.calendars@.len() == 0,
                    Ok(c) => meeting_calendar_views(r.calendars@) == offered_calendars(
                        calendars_by_account(calendar_views(c@)),
                    ),
                }
            },
{
    let calendars = if str_eq(calendar_authorization.as_str(), "authorized") {
        proof {
            reveal_strlit("authorized");
        }
        match list_calendars(calendar_authorization.as_str(), fetch) {
            Ok(listed) => meeting_calendars(&listed),
            Err(_) => Vec::new(),
        }
    } else {
        Vec::new()
    };
    let notification_authorization = match notification_authorization {
        Ok(status) => status,
        Err(_) => owned("unknown"),
    };
    MeetingAccess { calendar_authorization, notification_authorization, calendars }
}

/// Whether a change of settings affects the start prompts.
pub open spec fn start_settings_changed(previous: SettingsView, current: SettingsView) -> bool {
    ||| previous.meeting_reminders_enabled != current.meeting_reminders_enabled
    ||| previous.meeting_calendar_ids != current.meeting_calendar_ids
    ||| previous.meeting_reminder_minutes != current.meeting_reminder_minutes
    ||| previous.meeting_auto_record_enabled != current.meeting_auto_record_enabled
}

/// The scheduler after a change of settings, with the end prompt withdrawn
/// from the active meeting if there is one to withdraw.
pub open spec fn settings_updated_spec(
    v: SchedulerView,
    previous: SettingsView,
    current: SettingsView,
) -> (SchedulerView, Option<Seq<char>>) {
    let v1 = if start_settings_changed(previous, current) {
        clear_start_prompts_spec(v)
    } else {
        v
    };
    if !current.meeting_reminders_enabled {
        clear_active_spec(v1)
    } else if previous.meeting_end_reminders != current.meeting_end_reminders {
        update_active_end_reminders_spec(v1, current.meeting_end_reminders)
    } else {
        (v1, None)
    }
}

/// The request ids withdrawn from the start prompts by a change of settings.
pub open spec fn withdrawn_start_prompts(
    ids: Seq<Seq<char>>,
    v: SchedulerView,
    previous: SettingsView,
    current: SettingsView,
) -> bool {
    if start_settings_changed(previous, current) {
        lists_keys_once(ids, v.prompts)
    } else {
        ids.len() == 0
    }
}

/// Applies a change of settings to the scheduler: changed start settings drop
/// every start prompt (and cancel consent given under the old settings);
/// turning reminders off forgets the active meeting; a change of the
/// end-reminder setting is applied to it. Returns the request ids whose
/// notifications are to be withdrawn: the start prompts first, then the end
/// prompt.
pub fn settings_updated(
    state: &mut MeetingSchedulerState,
    previous: &AppSettings,
    current: &AppSettings,
) -> (r: Vec<String>)
    requires
        old(state).wf(),
    ensures
        final(state).wf(),
        final(state)@ == settings_updated_spec(old(state)@, previous@, current@).0,
        match settings_updated_spec(old(state)@, previous@, current@).1 {
            Some(e) => r.deep_view().len() > 0 && r.deep_view().last() == e
                && withdrawn_start_prompts(r.deep_view().drop_last(), old(state)@, previous@, current@),
            None => withdrawn_start_prompts(r.deep_view(), old(state)@, previous@, current@),
        },
{
    let start_settings_changed = previous.meeting_reminders_enabled
        != current.meeting_reminders_enabled || !strings_eq(
        &previous.meeting_calendar_ids,
        &current.meeting_calendar_ids,
    ) || previous.meeting_reminder_minutes != current.meeting_reminder_minutes
        || previous.meeting_auto_record_enabled != current.meeting_auto_record_enabled;
    let mut removed = if start_settings_changed {
        state.clear_start_prompts()
    } else {
        Vec::new()
    };
    let ghost before = removed.deep_view();
    let end_settings_changed = previous.meeting_end_reminders != current.meeting_end_reminders;
    let end_request = if !current.meeting_reminders_enabled {
        state.clear_active()
    } else if end_settings_changed {
        state.update_active_end_reminders(current.meeting_end_reminders)
    } else {
        None
    };
    match end_request {
        Some(request_id) => {
            removed.push(request_id);
            proof {
                assert(removed.deep_view() =~= before.push(removed@.last()@));
                assert(removed.deep_view().drop_last() =~= before);
            }
        },
        None => {},
    }
    removed
}

} // verus!
