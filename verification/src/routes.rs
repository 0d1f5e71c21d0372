//! The invitation API's request paths, pinned character by character
//! so the transport layer sends exactly the routes the service serves.

use vstd::prelude::*;
use vstd::string::StringExecFns;

verus! {

/// The invitation collection: `/api/v1/invitations`.
pub fn invitations_path() -> (r: String)
    ensures
        r@ == "/api/v1/invitations"@,
{
    String::from_str("/api/v1/invitations")
}

/// One invitation: `/api/v1/invitations/<id>`.
pub fn invitation_path(invitation_id: &str) -> (r: String)
    ensures
        r@ == "/api/v1/invitations/"@ + invitation_id@,
{
    String::from_str("/api/v1/invitations/").concat(invitation_id)
}

/// Re-sending one invitation: `/api/v1/invitations/<id>/reinvite`.
pub fn invitation_reinvite_path(invitation_id: &str) -> (r: String)
    ensures
        r@ == "/api/v1/invitations/"@ + invitation_id@ + "/reinvite"@,
{
    String::from_str("/api/v1/invitations/").concat(invitation_id).concat("/reinvite")
}

/// A group's invitations:
/// `/api/v1/invitations/by-group/<type>/<id>`.
pub fn invitations_by_group_path(group_type: &str, group_id: &str) -> (r: String)
    ensures
        r@ == "/api/v1/invitations/by-group/"@ + group_type@ + "/"@ + group_id@,
{
    String::from_str("/api/v1/invitations/by-group/").concat(group_type).concat("/").concat(
        group_id,
    )
}

/// Accepting invitations: `/api/v1/invitations/accept`.
pub fn invitations_accept_path() -> (r: String)
    ensures
        r@ == "/api/v1/invitations/accept"@,
{
    String::from_str("/api/v1/invitations/accept")
}

} // verus!
