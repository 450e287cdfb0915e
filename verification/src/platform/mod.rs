//! macOS integration decisions: permission results and System Settings panes.

use vstd::prelude::*;

use crate::text::{chars_of, owned, str_eq};

pub mod calendar;
pub mod calendar_worker;
pub mod notifications;
pub mod system_audio;

verus! {

/// The outcome of a native permission request: an error reported by macOS
/// names the permission that failed.
pub fn permission_request_result(permission: &str, error: Option<String>) -> (r: Result<(), String>)
    ensures
        match error {
            Some(e) => r matches Err(m) && m@ == "Failed to request "@ + permission@ + " access: "@
                + e@,
            None => r is Ok,
        },
{
    match error {
        Some(error) => {
            let mut message = owned("Failed to request ");
            message.append(permission);
            message.append(" access: ");
            message.append(error.as_str());
            Err(message)
        },
        None => Ok(()),
    }
}

/// The System Settings address of a privacy pane, as named by the frontend.
pub open spec fn privacy_settings_url_spec(pane: Seq<char>) -> Seq<char> {
    if pane == "microphone"@ {
        "x-apple.systempreferences:com.apple.preference.security?Privacy_Microphone"@
    } else if pane == "system-audio"@ {
        "x-apple.systempreferences:com.apple.preference.security?Privacy_AudioCapture"@
    } else if pane == "calendar"@ {
        "x-apple.systempreferences:com.apple.preference.security?Privacy_Calendars"@
    } else if pane == "notifications"@ {
        "x-apple.systempreferences:com.apple.Notifications-Settings.extension"@
    } else {
        "x-apple.systempreferences:com.apple.preference.security"@
    }
}

/// The System Settings address of a privacy pane; unknown panes open the
/// privacy root.
pub fn privacy_settings_url(pane: &str) -> (r: &'static str)
    ensures
        r@ == privacy_settings_url_spec(pane@),
{
    if str_eq(pane, "microphone") {
        "x-apple.systempreferences:com.apple.preference.security?Privacy_Microphone"
    } else if str_eq(pane, "system-audio") {
        "x-apple.systempreferences:com.apple.preference.security?Privacy_AudioCapture"
    } else if str_eq(pane, "calendar") {
        "x-apple.systempreferences:com.apple.preference.security?Privacy_Calendars"
    } else if str_eq(pane, "notifications") {
        "x-apple.systempreferences:com.apple.Notifications-Settings.extension"
    } else {
        "x-apple.systempreferences:com.apple.preference.security"
    }
}

/// Only HTTPS links are opened.
pub fn ensure_https_url(url: &str) -> (r: Result<(), String>)
    ensures
        "https://"@.is_prefix_of(url@) ==> r is Ok,
        !"https://"@.is_prefix_of(url@) ==> (r matches Err(e) && e@
            == "Only HTTPS links can be opened"@),
{
    let prefix = chars_of("https://");
    let chars = chars_of(url);
    if prefix.len() > chars.len() {
        return Err(owned("Only HTTPS links can be opened"));
    }
    let mut i: usize = 0;
    while i < prefix.len()
        invariant
            i <= prefix@.len() <= chars@.len(),
            prefix@ == "https://"@,
            chars@ == url@,
            forall|j: int| 0 <= j < i ==> prefix@[j] == chars@[j],
        decreases prefix@.len() - i,
    {
        if prefix[i] != chars[i] {
            return Err(owned("Only HTTPS links can be opened"));
        }
        i = i + 1;
    }
    proof {
        assert(prefix@ =~= url@.take(prefix@.len() as int));
    }
    Ok(())
}

/// A path can be revealed in Finder only when it is non-empty and exists.
pub fn ensure_revealable(path: &str, exists: bool) -> (r: Result<(), String>)
    ensures
        path@.len() == 0 ==> (r matches Err(e) && e@ == "Cannot reveal an empty path in Finder"@),
        path@.len() > 0 && !exists ==> (r matches Err(e) && e@ == "Finder could not reveal "@ + path@
            + " because it does not exist"@),
        path@.len() > 0 && exists ==> r is Ok,
{
    if chars_of(path).len() == 0 {
        return Err(owned("Cannot reveal an empty path in Finder"));
    }
    if !exists {
        let mut message = owned("Finder could not reveal ");
        message.append(path);
        message.append(" because it does not exist");
        return Err(message);
    }
    Ok(())
}

} // verus!
