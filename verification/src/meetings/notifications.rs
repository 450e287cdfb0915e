//! The meeting notifications: their categories, actions and wording.

use vstd::prelude::*;

use crate::platform::notifications::{Notification, NotificationActionSpec, NotificationCategorySpec};
use crate::text::owned;

verus! {

pub const START_ACTION: &'static str = "meeting-start";

pub const SKIP_ACTION: &'static str = "meeting-skip";

pub const STOP_ACTION: &'static str = "meeting-stop";

pub const KEEP_ACTION: &'static str = "meeting-keep-recording";

pub const START_CATEGORY: &'static str = "meeting-start-prompt";

pub const END_CATEGORY: &'static str = "meeting-end-prompt";

pub open spec fn action_is(a: NotificationActionSpec, id: Seq<char>, title: Seq<char>, foreground: bool) -> bool {
    a.id@ == id && a.title@ == title && a.foreground == foreground
}

/// The two meeting categories: a start prompt offering "Start recording"
/// (which opens the app) and "Skip", and an end prompt offering "Stop
/// recording" and "Keep recording".
pub fn categories() -> (r: Vec<NotificationCategorySpec>)
    ensures
        r@.len() == 2,
        r@[0].id@ == "meeting-start-prompt"@,
        r@[0].actions@.len() == 2,
        action_is(r@[0].actions@[0], "meeting-start"@, "Start recording"@, true),
        action_is(r@[0].actions@[1], "meeting-skip"@, "Skip"@, false),
        r@[1].id@ == "meeting-end-prompt"@,
        r@[1].actions@.len() == 2,
        action_is(r@[1].actions@[0], "meeting-stop"@, "Stop recording"@, false),
        action_is(r@[1].actions@[1], "meeting-keep-recording"@, "Keep recording"@, false),
{
    let mut start_actions = Vec::new();
    start_actions.push(
        NotificationActionSpec { id: "meeting-start", title: "Start recording", foreground: true },
    );
    start_actions.push(NotificationActionSpec { id: "meeting-skip", title: "Skip", foreground: false });
    let mut end_actions = Vec::new();
    end_actions.push(
        NotificationActionSpec { id: "meeting-stop", title: "Stop recording", foreground: false },
    );
    end_actions.push(
        NotificationActionSpec {
            id: "meeting-keep-recording",
            title: "Keep recording",
            foreground: false,
        },
    );
    let mut r = Vec::new();
    r.push(NotificationCategorySpec { id: "meeting-start-prompt", actions: start_actions });
    r.push(NotificationCategorySpec { id: "meeting-end-prompt", actions: end_actions });
    r
}

pub open spec fn notification_is(
    n: Notification,
    request_id: Seq<char>,
    title: Seq<char>,
    body: Seq<char>,
    category: Seq<char>,
) -> bool {
    n.request_id@ == request_id && n.title@ == title && n.body@ == body && n.category@ == category
}

fn notification(request_id: &str, title: &str, body: String, category: &str) -> (r: Notification)
    ensures
        notification_is(r, request_id@, title@, body@, category@),
{
    Notification {
        request_id: owned(request_id),
        title: owned(title),
        body,
        category: owned(category),
    }
}

/// "Meeting starting soon": the meeting starts `timing`; start recording?
pub fn show_start_prompt(request_id: &str, meeting_title: &str, timing: &str) -> (r: Notification)
    ensures
        notification_is(
            r,
            request_id@,
            "Meeting starting soon"@,
            meeting_title@ + " starts "@ + timing@ + ". Start recording?"@,
            "meeting-start-prompt"@,
        ),
{
    let mut body = owned(meeting_title);
    body.append(" starts ");
    body.append(timing);
    body.append(". Start recording?");
    notification(request_id, "Meeting starting soon", body, "meeting-start-prompt")
}

/// "Meeting starting soon", announcing that recording starts by itself.
pub fn show_automatic_start_prompt(request_id: &str, meeting_title: &str, timing: &str) -> (r:
    Notification)
    ensures
        notification_is(
            r,
            request_id@,
            "Meeting starting soon"@,
            meeting_title@ + " starts "@ + timing@ + ". Recording will start automatically."@,
            "meeting-start-prompt"@,
        ),
{
    let mut body = owned(meeting_title);
    body.append(" starts ");
    body.append(timing);
    body.append(". Recording will start automatically.");
    notification(request_id, "Meeting starting soon", body, "meeting-start-prompt")
}

/// "Meeting scheduled to end": asks to stop, or warns of the automatic stop.
pub fn show_end_prompt(request_id: &str, meeting_title: &str, auto_stop: bool) -> (r: Notification)
    ensures
        notification_is(
            r,
            request_id@,
            "Meeting scheduled to end"@,
            if auto_stop {
                meeting_title@ + " is scheduled to end. Recording will stop in one minute."@
            } else {
                meeting_title@ + " was scheduled to end. Stop recording?"@
            },
            "meeting-end-prompt"@,
        ),
{
    let mut body = owned(meeting_title);
    if auto_stop {
        body.append(" is scheduled to end. Recording will stop in one minute.");
    } else {
        body.append(" was scheduled to end. Stop recording?");
    }
    notification(request_id, "Meeting scheduled to end", body, "meeting-end-prompt")
}

/// "Recording could not start": the meeting, the error, and a retry offer.
pub fn show_start_failure(request_id: &str, meeting_title: &str, error: &str) -> (r: Notification)
    ensures
        notification_is(
            r,
            request_id@,
            "Recording could not start"@,
            meeting_title@ + ": "@ + error@ + ". Try again?"@,
            "meeting-start-prompt"@,
        ),
{
    let mut body = owned(meeting_title);
    body.append(": ");
    body.append(error);
    body.append(". Try again?");
    notification(request_id, "Recording could not start", body, "meeting-start-prompt")
}

} // verus!
