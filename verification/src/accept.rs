//! Validation and request planning for accepting invitations.
//!
//! The caller supplies either a structured accepting user, one legacy
//! target, or a legacy list of targets.  Planning validates the input
//! and produces one JSON request body per operation: a single body for
//! a user or a single target, and one body per element for a legacy
//! list — the transport then runs them in order and reports only the
//! last outcome, as the service's older callers expect.

use vstd::prelude::*;
use vstd::string::StringExecFns;

use crate::error::VortexError;
use crate::json::{
    jv_view, jv_view_list, jv_view_members, lemma_view_members_index, JsonVal, JsonValue,
};
use crate::token::{json_strings, str_vals};
use crate::types::{AcceptTargets, AcceptUser, InvitationTarget};

verus! {

/// The invitation-id list as a JSON array of strings.
pub open spec fn ids_val(ids: Seq<String>) -> JsonVal {
    JsonVal::Arr(str_vals(ids))
}

/// A target as a JSON object: channel type and address.
pub open spec fn target_val(t: InvitationTarget) -> JsonVal {
    JsonVal::Obj(seq![("type"@, JsonVal::Str(t.target_type@)), ("value"@, JsonVal::Str(t.value@))])
}

/// An accepting user as a JSON object, with each present field only.
pub open spec fn accept_user_val(u: AcceptUser) -> JsonVal {
    let m0 = Seq::<(Seq<char>, JsonVal)>::empty();
    let m1 = if u.email is Some {
        m0.push(("email"@, JsonVal::Str((u.email->0)@)))
    } else {
        m0
    };
    let m2 = if u.phone is Some {
        m1.push(("phone"@, JsonVal::Str((u.phone->0)@)))
    } else {
        m1
    };
    let m3 = if u.name is Some {
        m2.push(("name"@, JsonVal::Str((u.name->0)@)))
    } else {
        m2
    };
    JsonVal::Obj(m3)
}

/// The request body for accepting with a structured user.
pub open spec fn accept_body_user(ids: Seq<String>, u: AcceptUser) -> JsonVal {
    JsonVal::Obj(seq![("invitationIds"@, ids_val(ids)), ("user"@, accept_user_val(u))])
}

/// The request body for accepting with one target.
pub open spec fn accept_body_target(ids: Seq<String>, t: InvitationTarget) -> JsonVal {
    JsonVal::Obj(seq![("invitationIds"@, ids_val(ids)), ("target"@, target_val(t))])
}

/// A request is valid when a structured user has an email or a phone,
/// and a legacy list is non-empty.
pub open spec fn accept_valid(req: AcceptTargets) -> bool {
    match req {
        AcceptTargets::User(u) => u.email is Some || u.phone is Some,
        AcceptTargets::Target(_) => true,
        AcceptTargets::Targets(ts) => ts@.len() > 0,
    }
}

/// The planned request bodies, in operation order.
pub open spec fn accept_bodies(ids: Seq<String>, req: AcceptTargets) -> Seq<JsonVal> {
    match req {
        AcceptTargets::User(u) => seq![accept_body_user(ids, u)],
        AcceptTargets::Target(t) => seq![accept_body_target(ids, t)],
        AcceptTargets::Targets(ts) => ts@.map_values(|t: InvitationTarget| accept_body_target(
            ids,
            t,
        )),
    }
}

/// Build the JSON array of invitation ids.
fn build_ids(ids: &Vec<String>) -> (r: JsonValue)
    ensures
        r@ == ids_val(ids@),
{
    JsonValue::Arr(json_strings(ids))
}

/// Build one target object.
fn build_target_val(t: &InvitationTarget) -> (r: JsonValue)
    ensures
        r@ == target_val(*t),
{
    let mut ms: Vec<(String, JsonValue)> = Vec::new();
    ms.push((String::from_str("type"), JsonValue::Str(t.target_type.clone())));
    ms.push((String::from_str("value"), JsonValue::Str(t.value.clone())));
    proof {
        lemma_view_members_index(ms@);
        assert(jv_view_members(ms@) =~= seq![
            ("type"@, JsonVal::Str(t.target_type@)),
            ("value"@, JsonVal::Str(t.value@)),
        ]);
    }
    JsonValue::Obj(ms)
}

/// Build one accepting-user object.
fn build_user_val(u: &AcceptUser) -> (r: JsonValue)
    ensures
        r@ == accept_user_val(*u),
{
    let mut ms: Vec<(String, JsonValue)> = Vec::new();
    match &u.email {
        Some(e) => {
            ms.push((String::from_str("email"), JsonValue::Str(e.clone())));
        },
        None => {},
    }
    match &u.phone {
        Some(p) => {
            ms.push((String::from_str("phone"), JsonValue::Str(p.clone())));
        },
        None => {},
    }
    match &u.name {
        Some(n) => {
            ms.push((String::from_str("name"), JsonValue::Str(n.clone())));
        },
        None => {},
    }
    proof {
        lemma_view_members_index(ms@);
        assert(accept_user_val(*u) matches JsonVal::Obj(m) && jv_view_members(ms@) =~= m);
    }
    JsonValue::Obj(ms)
}

/// Build the body for one target.
fn build_body_target(ids: &Vec<String>, t: &InvitationTarget) -> (r: JsonValue)
    ensures
        r@ == accept_body_target(ids@, *t),
{
    let mut ms: Vec<(String, JsonValue)> = Vec::new();
    ms.push((String::from_str("invitationIds"), build_ids(ids)));
    ms.push((String::from_str("target"), build_target_val(t)));
    proof {
        lemma_view_members_index(ms@);
        assert(jv_view_members(ms@) =~= seq![
            ("invitationIds"@, ids_val(ids@)),
            ("target"@, target_val(*t)),
        ]);
    }
    JsonValue::Obj(ms)
}

/// Build the body for a structured user.
fn build_body_user(ids: &Vec<String>, u: &AcceptUser) -> (r: JsonValue)
    ensures
        r@ == accept_body_user(ids@, *u),
{
    let mut ms: Vec<(String, JsonValue)> = Vec::new();
    ms.push((String::from_str("invitationIds"), build_ids(ids)));
    ms.push((String::from_str("user"), build_user_val(u)));
    proof {
        lemma_view_members_index(ms@);
        assert(jv_view_members(ms@) =~= seq![
            ("invitationIds"@, ids_val(ids@)),
            ("user"@, accept_user_val(*u)),
        ]);
    }
    JsonValue::Obj(ms)
}

/// Validate an accept request and plan its JSON request bodies, one
/// per operation.
///
/// Fails with `InvalidRequest` exactly on a structured user without
/// email and phone, or on an empty legacy target list.
pub fn plan_acceptances(invitation_ids: &Vec<String>, req: &AcceptTargets) -> (r: Result<
    Vec<JsonValue>,
    VortexError,
>)
    ensures
        r is Ok <==> accept_valid(*req),
        r matches Ok(bodies) ==> jv_view_list(bodies@) == accept_bodies(invitation_ids@, *req),
        r matches Err(e) ==> e is InvalidRequest,
        (*req matches AcceptTargets::User(u) && u.email is None && u.phone is None) ==> (
        r matches Err(e) && e matches VortexError::InvalidRequest(m) && m@
            == "AcceptUser must include email or phone"@),
        (*req matches AcceptTargets::Targets(ts) && ts@.len() == 0) ==> (r matches Err(e)
            && e matches VortexError::InvalidRequest(m) && m@ == "No targets provided"@),
{
    match req {
        AcceptTargets::User(u) => {
            if u.email.is_none() && u.phone.is_none() {
                return Err(
                    VortexError::InvalidRequest(
                        String::from_str("AcceptUser must include email or phone"),
                    ),
                );
            }
            let body = build_body_user(invitation_ids, u);
            let mut out: Vec<JsonValue> = Vec::new();
            out.push(body);
            proof {
                reveal_with_fuel(jv_view_list, 2);
                assert(out@.drop_last() =~= Seq::<JsonValue>::empty());
                assert(jv_view_list(out@) =~= seq![jv_view(out@.last())]);
                assert(jv_view_list(out@) =~= accept_bodies(invitation_ids@, *req));
            }
            Ok(out)
        },
        AcceptTargets::Target(t) => {
            let body = build_body_target(invitation_ids, t);
            let mut out: Vec<JsonValue> = Vec::new();
            out.push(body);
            proof {
                reveal_with_fuel(jv_view_list, 2);
                assert(out@.drop_last() =~= Seq::<JsonValue>::empty());
                assert(jv_view_list(out@) =~= seq![jv_view(out@.last())]);
                assert(jv_view_list(out@) =~= accept_bodies(invitation_ids@, *req));
            }
            Ok(out)
        },
        AcceptTargets::Targets(ts) => {
            if ts.len() == 0 {
                return Err(
                    VortexError::InvalidRequest(String::from_str("No targets provided")),
                );
            }
            let n = ts.len();
            let mut out: Vec<JsonValue> = Vec::new();
            let mut i: usize = 0;
            while i < n
                invariant
                    n == ts@.len(),
                    0 <= i <= n,
                    jv_view_list(out@) == ts@.take(i as int).map_values(
                        |t: InvitationTarget| accept_body_target(invitation_ids@, t),
                    ),
                decreases n - i,
            {
                let body = build_body_target(invitation_ids, &ts[i]);
                let ghost prev = out@;
                out.push(body);
                proof {
                    assert(out@.drop_last() =~= prev);
                    assert(jv_view_list(out@) == jv_view_list(prev).push(jv_view(out@.last())));
                    assert(ts@.take(i + 1 as int).map_values(
                        |t: InvitationTarget| accept_body_target(invitation_ids@, t),
                    ) =~= ts@.take(i as int).map_values(
                        |t: InvitationTarget| accept_body_target(invitation_ids@, t),
                    ).push(accept_body_target(invitation_ids@, ts@[i as int])));
                }
                i = i + 1;
            }
            proof {
                assert(ts@.take(n as int) =~= ts@);
            }
            Ok(out)
        },
    }
}

} // verus!
