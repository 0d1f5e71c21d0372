//! Event type strings for server state-change events.

use vstd::prelude::*;

verus! {

// Invitation lifecycle
pub const INVITATION_CREATED: &'static str = "invitation.created";

pub const INVITATION_ACCEPTED: &'static str = "invitation.accepted";

pub const INVITATION_DEACTIVATED: &'static str = "invitation.deactivated";

pub const INVITATION_EMAIL_DELIVERED: &'static str = "invitation.email.delivered";

pub const INVITATION_EMAIL_BOUNCED: &'static str = "invitation.email.bounced";

pub const INVITATION_EMAIL_OPENED: &'static str = "invitation.email.opened";

pub const INVITATION_LINK_CLICKED: &'static str = "invitation.link.clicked";

pub const INVITATION_REMINDER_SENT: &'static str = "invitation.reminder.sent";

// Deployment lifecycle
pub const DEPLOYMENT_CREATED: &'static str = "deployment.created";

pub const DEPLOYMENT_DEACTIVATED: &'static str = "deployment.deactivated";

// A/B testing
pub const ABTEST_STARTED: &'static str = "abtest.started";

pub const ABTEST_WINNER_DECLARED: &'static str = "abtest.winner_declared";

// Member/group
pub const MEMBER_CREATED: &'static str = "member.created";

pub const GROUP_MEMBER_ADDED: &'static str = "group.member.added";

// Email
pub const EMAIL_COMPLAINED: &'static str = "email.complained";

} // verus!
