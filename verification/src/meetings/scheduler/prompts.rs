//! Start prompts for upcoming meetings: which calendar events get one, and
//! which notifications the scheduler asks to show.

use vstd::prelude::*;

use super::{
    automatic_start_for_prompt, automatic_start_spec, meeting_of_event, notification_id,
    notification_id_spec, prompt_due, start_action_is_timely, start_prompt_is_due, start_timing,
    timely, timing_spec, AUTO_START_SKIP_WINDOW_MS,
};
use crate::meetings::model::{Meeting, MeetingView};
use crate::meetings::state::start::{
    arm_auto_start_spec, fallback_to_manual_start_spec, prompts_outside,
    reconcile_start_prompts_spec, upsert_start_prompt_spec,
};
use crate::meetings::state::{lists_keys_once, sat_add, MeetingSchedulerState, SchedulerView};
use crate::platform::calendar::{event_views, CalendarEvent, EventView};
use crate::settings::model::{AppSettings, SettingsView};
use crate::text::copy_string;

verus! {

/// A start prompt the scheduler wants shown.
#[derive(Clone, Debug, PartialEq, Eq)]
pub struct StartPromptNotice {
    pub request_id: String,
    pub meeting: Meeting,
    /// Whether the notification announces an automatic start.
    pub auto_start: bool,
    /// "now" or "in <lead> minutes".
    pub timing: String,
}

pub struct NoticeView {
    pub request_id: Seq<char>,
    pub meeting: MeetingView,
    pub auto_start: bool,
    pub timing: Seq<char>,
}

impl View for StartPromptNotice {
    type V = NoticeView;

    open spec fn view(&self) -> NoticeView {
        NoticeView {
            request_id: self.request_id@,
            meeting: self.meeting@,
            auto_start: self.auto_start,
            timing: self.timing@,
        }
    }
}

pub open spec fn notice_views(s: Seq<StartPromptNotice>) -> Seq<NoticeView> {
    s.map_values(|n: StartPromptNotice| n@)
}

/// What a calendar refresh asks of the notification center.
pub struct StartPromptPlan {
    /// Prompts to withdraw: their meetings left the calendar or went stale.
    pub removed: Vec<String>,
    /// Prompts to show, in calendar order.
    pub notices: Vec<StartPromptNotice>,
}

/// The meetings among calendar events, in order.
pub open spec fn meetings_of(events: Seq<EventView>) -> Seq<MeetingView>
    decreases events.len(),
{
    if events.len() == 0 {
        Seq::empty()
    } else {
        let ms = meetings_of(events.drop_last());
        match meeting_of_event(events.last()) {
            Some(m) => ms.push(m),
            None => ms,
        }
    }
}

/// The ids of the meetings that can still be started.
pub open spec fn timely_ids(ms: Seq<MeetingView>, now: u64) -> Set<Seq<char>> {
    Set::new(|id: Seq<char>| exists|i: int| 0 <= i < ms.len() && ms[i].id == id && timely(ms[i], now))
}

/// One meeting's turn: when its prompt is due, it is created or refreshed
/// under the meeting's start request id, and shown when that changed it.
pub open spec fn prompt_step(v: SchedulerView, settings: SettingsView, m: MeetingView, now: u64) -> (
    SchedulerView,
    Option<NoticeView>,
) {
    if !prompt_due(m, now, settings.meeting_reminder_minutes) {
        (v, None)
    } else {
        let id = notification_id_spec("start"@, m.id);
        let auto = automatic_start_spec(v, id, settings, m, now);
        let (v2, shown) = upsert_start_prompt_spec(v, id, m, auto);
        (
            v2,
            if shown {
                Some(
                    NoticeView {
                        request_id: id,
                        meeting: m,
                        auto_start: auto,
                        timing: timing_spec(m, now, settings.meeting_reminder_minutes),
                    },
                )
            } else {
                None
            },
        )
    }
}

/// Every meeting's turn, in order.
pub open spec fn prompt_pass(
    v: SchedulerView,
    settings: SettingsView,
    ms: Seq<MeetingView>,
    now: u64,
) -> (SchedulerView, Seq<NoticeView>)
    decreases ms.len(),
{
    if ms.len() == 0 {
        (v, Seq::empty())
    } else {
        let (v1, ns) = prompt_pass(v, settings, ms.drop_last(), now);
        let (v2, n) = prompt_step(v1, settings, ms.last(), now);
        (
            v2,
            match n {
                Some(x) => ns.push(x),
                None => ns,
            },
        )
    }
}

pub open spec fn meeting_views(s: Seq<Meeting>) -> Seq<MeetingView> {
    s.map_values(|m: Meeting| m@)
}

fn show_start_prompt_if_due(
    scheduler: &mut MeetingSchedulerState,
    settings: &AppSettings,
    meeting: Meeting,
    now: u64,
) -> (r: Option<StartPromptNotice>)
    requires
        old(scheduler).wf(),
    ensures
        final(scheduler).wf(),
        (final(scheduler)@, match r {
            Some(n) => Some(n@),
            None => None,
        }) == prompt_step(old(scheduler)@, settings@, meeting@, now),
{
    let lead = settings.meeting_reminder_minutes;
    if !start_prompt_is_due(&meeting, now, lead) {
        return None;
    }
    let request_id = notification_id("start", meeting.id.as_str());
    let auto_start = automatic_start_for_prompt(scheduler, request_id.as_str(), settings, &meeting, now);
    let timing = start_timing(&meeting, now, lead);
    let notice_id = copy_string(&request_id);
    let notice_meeting = meeting.duplicate();
    if scheduler.upsert_start_prompt(request_id, meeting, auto_start) {
        Some(StartPromptNotice { request_id: notice_id, meeting: notice_meeting, auto_start, timing })
    } else {
        None
    }
}

/// Applies a calendar refresh: drops prompts whose meetings are gone or no
/// longer timely, then gives each listed meeting its turn.
pub fn reconcile_start_prompts(
    scheduler: &mut MeetingSchedulerState,
    settings: &AppSettings,
    events: Vec<CalendarEvent>,
    now: u64,
) -> (r: StartPromptPlan)
    requires
        old(scheduler).wf(),
    ensures
        final(scheduler).wf(),
        lists_keys_once(
            r.removed.deep_view(),
            prompts_outside(
                old(scheduler)@.prompts,
                timely_ids(meetings_of(event_views(events@)), now),
            ),
        ),
        (final(scheduler)@, notice_views(r.notices@)) == prompt_pass(
            reconcile_start_prompts_spec(
                old(scheduler)@,
                timely_ids(meetings_of(event_views(events@)), now),
            ),
            settings@,
            meetings_of(event_views(events@)),
            now,
        ),
{
    let ghost input = event_views(events@);
    let n = events.len();
    let mut rest = events;
    let mut meetings: Vec<Meeting> = Vec::new();
    let mut i: usize = 0;
    proof {
        assert(meeting_views(meetings@) =~= meetings_of(input.take(0)));
    }
    while i < n
        invariant
            n == input.len(),
            i <= n,
            rest@.len() == n - i,
            event_views(rest@) == input.skip(i as int),
            meeting_views(meetings@) == meetings_of(input.take(i as int)),
        decreases n - i,
    {
        let ghost r0 = rest@;
        proof {
            assert(event_views(r0)[0] == input.skip(i as int)[0]);
        }
        let event = rest.remove(0);
        proof {
            assert(event == r0[0]);
            assert(input.skip(i + 1) =~= input.skip(i as int).drop_first());
            assert(event_views(rest@) =~= input.skip(i + 1));
            assert(input.take(i + 1).drop_last() =~= input.take(i as int));
            assert(input.take(i + 1).last() == event@);
        }
        match Meeting::try_from(event) {
            Ok(meeting) => {
                proof {
                    assert(meeting_views(meetings@.push(meeting)) =~= meeting_views(meetings@).push(
                        meeting@,
                    ));
                }
                meetings.push(meeting);
            },
            Err(()) => {},
        }
        i = i + 1;
    }
    proof {
        assert(input.take(n as int) =~= input);
    }
    let ghost ms = meetings_of(input);
    let mut valid: Vec<String> = Vec::new();
    let mut j: usize = 0;
    while j < meetings.len()
        invariant
            meeting_views(meetings@) == ms,
            j <= meetings@.len(),
            forall|id: Seq<char>|
                valid.deep_view().contains(id) <==> exists|k: int|
                    0 <= k < j && ms[k].id == id && timely(ms[k], now),
        decreases meetings@.len() - j,
    {
        proof {
            assert(ms[j as int] == meetings@[j as int]@);
        }
        if start_action_is_timely(&meetings[j], now) {
            let ghost before = valid.deep_view();
            valid.push(copy_string(&meetings[j].id));
            proof {
                assert(valid.deep_view() =~= before.push(ms[j as int].id));
                assert forall|id: Seq<char>|
                    valid.deep_view().contains(id) <==> exists|k: int|
                        0 <= k < j + 1 && ms[k].id == id && timely(ms[k], now) by {
                    if valid.deep_view().contains(id) {
                        if id == ms[j as int].id {
                            assert(0 <= j < j + 1 && ms[j as int].id == id && timely(ms[j as int], now));
                        } else {
                            let x = choose|x: int|
                                0 <= x < valid.deep_view().len() && valid.deep_view()[x] == id;
                            assert(before[x] == id);
                            assert(before.contains(id));
                            let k = choose|k: int| 0 <= k < j && ms[k].id == id && timely(ms[k], now);
                            assert(0 <= k < j + 1 && ms[k].id == id && timely(ms[k], now));
                        }
                    }
                    if exists|k: int| 0 <= k < j + 1 && ms[k].id == id && timely(ms[k], now) {
                        let k = choose|k: int| 0 <= k < j + 1 && ms[k].id == id && timely(ms[k], now);
                        if k == j {
                            assert(valid.deep_view()[before.len() as int] == id);
                        } else {
                            assert(before.contains(id));
                            let x = choose|x: int| 0 <= x < before.len() && before[x] == id;
                            assert(valid.deep_view()[x] == id);
                        }
                    }
                }
            }
        }
        j = j + 1;
    }
    proof {
        assert(valid.deep_view().to_set() =~= timely_ids(ms, now));
    }
    let removed = scheduler.reconcile_start_prompts(&valid);
    let ghost v1 = scheduler@;
    let m = meetings.len();
    let mut pending = meetings;
    let mut notices: Vec<StartPromptNotice> = Vec::new();
    let mut k: usize = 0;
    proof {
        assert(notice_views(notices@) =~= Seq::<NoticeView>::empty());
        assert(ms.take(0) =~= Seq::<MeetingView>::empty());
    }
    while k < m
        invariant
            m == ms.len(),
            k <= m,
            pending@.len() == m - k,
            meeting_views(pending@) == ms.skip(k as int),
            scheduler.wf(),
            (scheduler@, notice_views(notices@)) == prompt_pass(v1, settings@, ms.take(k as int), now),
        decreases m - k,
    {
        let ghost p0 = pending@;
        proof {
            assert(meeting_views(p0)[0] == ms.skip(k as int)[0]);
        }
        let meeting = pending.remove(0);
        proof {
            assert(meeting == p0[0]);
            assert(ms.skip(k + 1) =~= ms.skip(k as int).drop_first());
            assert(meeting_views(pending@) =~= ms.skip(k + 1));
            assert(ms.take(k + 1).drop_last() =~= ms.take(k as int));
            assert(ms.take(k + 1).last() == meeting@);
        }
        match show_start_prompt_if_due(scheduler, settings, meeting, now) {
            Some(notice) => {
                proof {
                    assert(notice_views(notices@.push(notice)) =~= notice_views(notices@).push(
                        notice@,
                    ));
                }
                notices.push(notice);
            },
            None => {},
        }
        k = k + 1;
    }
    proof {
        assert(ms.take(m as int) =~= ms);
    }
    StartPromptPlan { removed, notices }
}

/// When an automatic prompt confirmed at `confirmed_at_ms` may start its
/// recording: at the scheduled start, and no sooner than fifteen seconds after
/// the warning, so the user can still skip it.
pub open spec fn auto_start_after(m: MeetingView, confirmed_at_ms: u64) -> u64 {
    let floor = sat_add(confirmed_at_ms, AUTO_START_SKIP_WINDOW_MS);
    if m.start_at_ms >= floor {
        m.start_at_ms
    } else {
        floor
    }
}

/// Applies the delivery outcome of an automatic start prompt: once delivered
/// and confirmed at a known time (`Ok(Some(t))`) the start is armed; a
/// notification that could not be delivered, or an unreadable clock
/// (`Ok(None)`), turns the prompt into a manual one.
pub fn settle_automatic_start_prompt(
    scheduler: &mut MeetingSchedulerState,
    request_id: &str,
    expected_meeting: &Meeting,
    delivery: Result<Option<u64>, String>,
)
    requires
        old(scheduler).wf(),
    ensures
        final(scheduler).wf(),
        final(scheduler)@ == match delivery {
            Ok(Some(t)) => arm_auto_start_spec(
                old(scheduler)@,
                request_id@,
                expected_meeting@,
                auto_start_after(expected_meeting@, t),
            ).0,
            _ => fallback_to_manual_start_spec(old(scheduler)@, request_id@, expected_meeting@),
        },
{
    match delivery {
        Ok(Some(confirmed_at_ms)) => {
            let floor = confirmed_at_ms.saturating_add(AUTO_START_SKIP_WINDOW_MS);
            let start_after_ms = if expected_meeting.start_at_ms >= floor {
                expected_meeting.start_at_ms
            } else {
                floor
            };
            scheduler.arm_auto_start(request_id, expected_meeting, start_after_ms);
        },
        _ => {
            scheduler.fallback_to_manual_start(request_id, expected_meeting);
        },
    }
}

} // verus!
