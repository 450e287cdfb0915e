//! Notification permission labels and the shapes of notification categories.

use vstd::prelude::*;

use crate::text::owned;

verus! {

/// A notification action button.
pub struct NotificationActionSpec {
    pub id: &'static str,
    pub title: &'static str,
    /// Whether choosing the action brings the app to the foreground.
    pub foreground: bool,
}

/// A notification category and its action buttons.
pub struct NotificationCategorySpec {
    pub id: &'static str,
    pub actions: Vec<NotificationActionSpec>,
}

/// The user's choice on a delivered notification.
#[derive(Clone, Debug, PartialEq, Eq)]
pub struct NotificationResponseAction {
    pub action_id: String,
    pub request_id: String,
}

/// A notification to deliver.
#[derive(Clone, Debug, PartialEq, Eq)]
pub struct Notification {
    pub request_id: String,
    pub title: String,
    pub body: String,
    pub category: String,
}

/// The notification authorization states macOS reports.
#[derive(Clone, Copy, Debug, PartialEq, Eq, Structural)]
pub enum NotificationAuthorization {
    Authorized,
    Provisional,
    Denied,
    NotDetermined,
    Other,
}

/// The label the frontend shows for a notification authorization state.
pub open spec fn notification_status_label_spec(status: NotificationAuthorization) -> Seq<char> {
    match status {
        NotificationAuthorization::Authorized => "authorized"@,
        NotificationAuthorization::Provisional => "authorized"@,
        NotificationAuthorization::Denied => "denied"@,
        NotificationAuthorization::NotDetermined => "notDetermined"@,
        NotificationAuthorization::Other => "unknown"@,
    }
}

/// The label for a notification authorization state; provisional delivery
/// counts as authorized.
pub fn notification_status_label(status: NotificationAuthorization) -> (r: String)
    ensures
        r@ == notification_status_label_spec(status),
{
    match status {
        NotificationAuthorization::Authorized => owned("authorized"),
        NotificationAuthorization::Provisional => owned("authorized"),
        NotificationAuthorization::Denied => owned("denied"),
        NotificationAuthorization::NotDetermined => owned("notDetermined"),
        NotificationAuthorization::Other => owned("unknown"),
    }
}

} // verus!
