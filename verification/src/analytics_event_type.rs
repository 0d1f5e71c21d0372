//! Event name strings for client behavioral analytics events.

use vstd::prelude::*;

verus! {

pub const WIDGET_LOADED: &'static str = "widget_loaded";

pub const INVITATION_SENT: &'static str = "invitation_sent";

pub const INVITATION_CLICKED: &'static str = "invitation_clicked";

pub const INVITATION_ACCEPTED: &'static str = "invitation_accepted";

pub const SHARE_TRIGGERED: &'static str = "share_triggered";

} // verus!
