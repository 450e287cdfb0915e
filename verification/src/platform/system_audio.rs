//! System audio capture authorization, which macOS governs through the
//! Screen & System Audio Recording privacy pane.

use vstd::prelude::*;

use crate::text::owned;

verus! {

/// Granted, or not yet granted. macOS only exposes a boolean preflight for this
/// pane, so a first-run app and a user who explicitly declined are
/// indistinguishable here; both report `notGranted`.
pub fn authorization_status(preflight_granted: bool) -> (r: String)
    ensures
        r@ == if preflight_granted {
            "authorized"@
        } else {
            "notGranted"@
        },
{
    if preflight_granted {
        owned("authorized")
    } else {
        owned("notGranted")
    }
}

} // verus!
