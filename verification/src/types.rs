//! Data types carried between callers, the token encoder, and the
//! invitation API.

use vstd::prelude::*;
use vstd::string::StringExecFns;

use crate::json::JsonValue;

verus! {

/// Claim data for token generation: the subject and contact
/// identifiers, the optional claims, and free-form extension fields
/// that are merged into the payload last (so they may overwrite
/// standard claims; last write wins).
#[derive(Debug)]
pub struct User {
    pub id: String,
    pub email: String,
    pub name: Option<String>,
    pub avatar_url: Option<String>,
    pub admin_scopes: Option<Vec<String>>,
    pub allowed_domains: Vec<String>,
    pub extra: Vec<(String, JsonValue)>,
}

impl User {
    /// A user with only the required subject and contact identifiers.
    pub fn new(id: &str, email: &str) -> (r: Self)
        ensures
            r.id@ == id@,
            r.email@ == email@,
            r.name is None,
            r.avatar_url is None,
            r.admin_scopes is None,
            r.allowed_domains@.len() == 0,
            r.extra@.len() == 0,
    {
        User {
            id: String::from_str(id),
            email: String::from_str(email),
            name: None,
            avatar_url: None,
            admin_scopes: None,
            allowed_domains: Vec::new(),
            extra: Vec::new(),
        }
    }

    /// The same user with a display name.
    pub fn with_name(self, name: &str) -> (r: Self)
        ensures
            r == (User { name: Some(r.name->0), ..self }),
            r.name matches Some(n) && n@ == name@,
    {
        User { name: Some(String::from_str(name)), ..self }
    }

    /// The same user with an avatar URL.
    pub fn with_avatar_url(self, avatar_url: &str) -> (r: Self)
        ensures
            r == (User { avatar_url: Some(r.avatar_url->0), ..self }),
            r.avatar_url matches Some(a) && a@ == avatar_url@,
    {
        User { avatar_url: Some(String::from_str(avatar_url)), ..self }
    }

    /// The same user with authorization scopes.
    pub fn with_admin_scopes(self, scopes: Vec<String>) -> (r: Self)
        ensures
            r == (User { admin_scopes: Some(scopes), ..self }),
    {
        User { admin_scopes: Some(scopes), ..self }
    }

    /// The same user with allow-listed domains.
    pub fn with_allowed_domains(self, domains: Vec<String>) -> (r: Self)
        ensures
            r == (User { allowed_domains: domains, ..self }),
    {
        User { allowed_domains: domains, ..self }
    }

    /// The same user with free-form extension claims, applied to the
    /// payload after every standard claim.
    pub fn with_extra(self, extra: Vec<(String, JsonValue)>) -> (r: Self)
        ensures
            r == (User { extra: extra, ..self }),
    {
        User { extra: extra, ..self }
    }
}

/// An identifier attached to a user (email, sms, ...).
#[derive(Debug, Clone)]
pub struct Identifier {
    pub identifier_type: String,
    pub value: String,
}

impl Identifier {
    pub fn new(identifier_type: &str, value: &str) -> (r: Self)
        ensures
            r.identifier_type@ == identifier_type@,
            r.value@ == value@,
    {
        Identifier {
            identifier_type: String::from_str(identifier_type),
            value: String::from_str(value),
        }
    }
}

/// Group membership supplied for token generation.  Supports both the
/// legacy `id` and the preferred `group_id` field.
#[derive(Debug, Clone)]
pub struct Group {
    pub group_type: String,
    pub id: Option<String>,
    pub group_id: Option<String>,
    pub name: String,
}

impl Group {
    pub fn new(group_type: &str, name: &str) -> (r: Self)
        ensures
            r.group_type@ == group_type@,
            r.name@ == name@,
            r.id is None,
            r.group_id is None,
    {
        Group {
            group_type: String::from_str(group_type),
            id: None,
            group_id: None,
            name: String::from_str(name),
        }
    }

    /// The same group with the legacy identifier set.
    pub fn with_id(self, id: &str) -> (r: Self)
        ensures
            r == (Group { id: Some(r.id->0), ..self }),
            r.id matches Some(i) && i@ == id@,
    {
        Group { id: Some(String::from_str(id)), ..self }
    }

    /// The same group with the preferred identifier set.
    pub fn with_group_id(self, group_id: &str) -> (r: Self)
        ensures
            r == (Group { group_id: Some(r.group_id->0), ..self }),
            r.group_id matches Some(g) && g@ == group_id@,
    {
        Group { group_id: Some(String::from_str(group_id)), ..self }
    }
}

/// A member group as the API reports it.
#[derive(Debug, Clone)]
pub struct InvitationGroup {
    pub id: String,
    pub account_id: String,
    pub group_id: String,
    pub group_type: String,
    pub name: String,
    pub created_at: String,
}

/// An invitation target: a delivery channel and an address.
#[derive(Debug, Clone)]
pub struct InvitationTarget {
    pub target_type: String,
    pub value: String,
}

impl InvitationTarget {
    pub fn new(target_type: &str, value: &str) -> (r: Self)
        ensures
            r.target_type@ == target_type@,
            r.value@ == value@,
    {
        InvitationTarget {
            target_type: String::from_str(target_type),
            value: String::from_str(value),
        }
    }

    /// An email target.
    pub fn email(value: &str) -> (r: Self)
        ensures
            r.target_type@ == "email"@,
            r.value@ == value@,
    {
        InvitationTarget::new("email", value)
    }

    /// An sms target.
    pub fn sms(value: &str) -> (r: Self)
        ensures
            r.target_type@ == "sms"@,
            r.value@ == value@,
    {
        InvitationTarget::new("sms", value)
    }
}

/// An acceptance recorded on an invitation.
#[derive(Debug, Clone)]
pub struct InvitationAcceptance {
    pub id: String,
    pub account_id: String,
    pub project_id: String,
    pub accepted_at: String,
    pub target: InvitationTarget,
}

/// Full invitation details as the API reports them.
#[derive(Debug)]
pub struct Invitation {
    pub id: String,
    pub account_id: String,
    pub click_throughs: u32,
    pub configuration_attributes: Option<Vec<(String, JsonValue)>>,
    pub attributes: Option<Vec<(String, JsonValue)>>,
    pub created_at: String,
    pub deactivated: bool,
    pub delivery_count: u32,
    pub delivery_types: Vec<String>,
    pub foreign_creator_id: String,
    pub invitation_type: String,
    pub modified_at: Option<String>,
    pub status: String,
    pub target: Vec<InvitationTarget>,
    pub views: u32,
    pub widget_configuration_id: String,
    pub project_id: String,
    pub groups: Vec<InvitationGroup>,
    pub accepts: Vec<InvitationAcceptance>,
}

/// A response carrying zero or more invitations.
#[derive(Debug)]
pub struct InvitationsResponse {
    pub invitations: Option<Vec<Invitation>>,
}

/// A user accepting invitations, with at least one of email and phone
/// required at validation time.
#[derive(Debug, Clone)]
pub struct AcceptUser {
    pub email: Option<String>,
    pub phone: Option<String>,
    pub name: Option<String>,
}

impl AcceptUser {
    /// An empty accepting user.
    pub fn new() -> (r: Self)
        ensures
            r.email is None,
            r.phone is None,
            r.name is None,
    {
        AcceptUser { email: None, phone: None, name: None }
    }

    /// The same user with an email address.
    pub fn with_email(self, email: &str) -> (r: Self)
        ensures
            r == (AcceptUser { email: Some(r.email->0), ..self }),
            r.email matches Some(e) && e@ == email@,
    {
        AcceptUser { email: Some(String::from_str(email)), ..self }
    }

    /// The same user with a phone number.
    pub fn with_phone(self, phone: &str) -> (r: Self)
        ensures
            r == (AcceptUser { phone: Some(r.phone->0), ..self }),
            r.phone matches Some(p) && p@ == phone@,
    {
        AcceptUser { phone: Some(String::from_str(phone)), ..self }
    }

    /// The same user with a display name.
    pub fn with_name(self, name: &str) -> (r: Self)
        ensures
            r == (AcceptUser { name: Some(r.name->0), ..self }),
            r.name matches Some(n) && n@ == name@,
    {
        AcceptUser { name: Some(String::from_str(name)), ..self }
    }
}

/// Who is accepting invitations: a structured user, one legacy target,
/// or a legacy list of targets (the operation then runs once per
/// element and only the last outcome is reported).
#[derive(Debug, Clone)]
pub enum AcceptTargets {
    User(AcceptUser),
    Target(InvitationTarget),
    Targets(Vec<InvitationTarget>),
}

} // verus!
