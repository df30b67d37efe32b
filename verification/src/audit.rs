//! Recording admin mutations in the audit log.
//!
//! Every admin path that affects privileges or data writes an entry after a
//! successful change, attributing it to the acting operator. Self-service
//! preference changes are not audited.

use vstd::prelude::*;

verus! {

/// One entry of the audit log.
#[derive(Debug)]
pub struct AuditEntry {
    pub actor_user_id: Option<i64>,
    pub actor_username: String,
    pub action: String,
    pub target_type: Option<String>,
    pub target_id: Option<String>,
    pub detail: Option<String>,
}

/// An [`AuditEntry`], over characters.
pub struct AuditModel {
    pub actor_user_id: Option<i64>,
    pub actor_username: Seq<char>,
    pub action: Seq<char>,
    pub target_type: Option<Seq<char>>,
    pub target_id: Option<Seq<char>>,
    pub detail: Option<Seq<char>>,
}

impl DeepView for AuditEntry {
    type V = AuditModel;

    open spec fn deep_view(&self) -> AuditModel {
        AuditModel {
            actor_user_id: self.actor_user_id,
            actor_username: self.actor_username@,
            action: self.action@,
            target_type: self.target_type.deep_view(),
            target_id: self.target_id.deep_view(),
            detail: self.detail.deep_view(),
        }
    }
}

/// A copy of an optional text.
fn owned(s: Option<&str>) -> (r: Option<String>)
    ensures
        r.deep_view() == s.deep_view(),
{
    match s {
        Some(t) => Some(t.to_owned()),
        None => None,
    }
}

/// The entry for a mutation an operator just performed.
pub fn record(
    actor_id: i64,
    actor_username: &str,
    action: &str,
    target_type: Option<&str>,
    target_id: Option<&str>,
    detail: Option<&str>,
) -> (r: AuditEntry)
    ensures
        r.deep_view() == (AuditModel {
            actor_user_id: Some(actor_id),
            actor_username: actor_username@,
            action: action@,
            target_type: target_type.deep_view(),
            target_id: target_id.deep_view(),
            detail: detail.deep_view(),
        }),
{
    AuditEntry {
        actor_user_id: Some(actor_id),
        actor_username: actor_username.to_owned(),
        action: action.to_owned(),
        target_type: owned(target_type),
        target_id: owned(target_id),
        detail: owned(detail),
    }
}

} // verus!
