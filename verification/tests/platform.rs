use just_notes::platform::calendar_worker::{
    receive_calendar_response, restart_calendar_worker, send_calendar_request, ReceiveFailure,
    SendOutcome,
};
use just_notes::platform::{permission_request_result, privacy_settings_url};

#[test]
fn maps_known_privacy_panes() {
    assert!(privacy_settings_url("microphone").ends_with("Privacy_Microphone"));
    assert!(privacy_settings_url("system-audio").ends_with("Privacy_AudioCapture"));
    assert!(privacy_settings_url("calendar").ends_with("Privacy_Calendars"));
    assert!(privacy_settings_url("notifications").contains("Notifications-Settings"));
}

#[test]
fn unknown_privacy_pane_opens_privacy_root() {
    assert_eq!(
        privacy_settings_url("unsupported"),
        "x-apple.systempreferences:com.apple.preference.security"
    );
}

#[test]
fn completed_permission_decisions_are_not_errors() {
    assert_eq!(permission_request_result("Calendar", None), Ok(()));
    assert_eq!(permission_request_result("notification", None), Ok(()));
}

#[test]
fn native_permission_errors_keep_the_permission_name() {
    assert_eq!(
        permission_request_result("Calendar", Some("EventKit failed".to_string())),
        Err("Failed to request Calendar access: EventKit failed".to_string())
    );
}

#[test]
fn only_https_links_are_opened() {
    assert_eq!(just_notes::platform::ensure_https_url("https://example.com"), Ok(()));
    assert_eq!(
        just_notes::platform::ensure_https_url("http://example.com"),
        Err("Only HTTPS links can be opened".to_string())
    );
    assert_eq!(
        just_notes::platform::ensure_https_url("https:/"),
        Err("Only HTTPS links can be opened".to_string())
    );
}

#[test]
fn finder_reveals_only_existing_paths() {
    assert_eq!(
        just_notes::platform::ensure_revealable("", true),
        Err("Cannot reveal an empty path in Finder".to_string())
    );
    assert_eq!(
        just_notes::platform::ensure_revealable("/tmp/x", false),
        Err("Finder could not reveal /tmp/x because it does not exist".to_string())
    );
    assert_eq!(just_notes::platform::ensure_revealable("/tmp/x", true), Ok(()));
}

#[test]
fn a_stuck_calendar_worker_is_replaced_once() {
    assert_eq!(send_calendar_request(3, SendOutcome::Sent), (Ok(3), false));
    assert_eq!(
        send_calendar_request(3, SendOutcome::Full),
        (Err("Calendar worker did not recover from its previous request".to_string()), true)
    );
    assert_eq!(
        send_calendar_request(3, SendOutcome::Disconnected),
        (Err("Calendar worker is unavailable".to_string()), true)
    );
    assert_eq!(
        receive_calendar_response::<u8>(Err(ReceiveFailure::TimedOut), "Timed out"),
        (Err("Timed out".to_string()), true)
    );
    assert_eq!(receive_calendar_response(Ok(7u8), "Timed out"), (Ok(7), false));
    assert_eq!(restart_calendar_worker(3, 3, 0), Some(4));
    assert_eq!(restart_calendar_worker(u64::MAX, u64::MAX, 0), Some(0));
    assert_eq!(restart_calendar_worker(4, 3, 0), None);
    assert_eq!(restart_calendar_worker(3, 3, 1), None);
}
