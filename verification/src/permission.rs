//! Permission records and the allow/deny decision.
//!
//! A record grants one action (or every action, `*`) on the resources its
//! pattern matches. A request is allowed when at least one record grants the
//! request's action on its path; no record type denies, so the absence of a
//! matching record is the only deny.

use vstd::prelude::*;

use crate::action::{method_action, method_to_action, Action, AuthError};
use crate::glob::{glob_match, wild_match};

verus! {

/// One grant: the `action` (or `*`, as `Action::Any`) on every resource the
/// wildcard pattern `resource` matches.
#[derive(Clone, Debug)]
pub struct PermissionRecord {
    pub id: i32,
    pub name: String,
    pub resource: String,
    pub action: Action,
    pub description: Option<String>,
}

/// Whether `rec` grants `action` on `path`: the record's action is `*` or
/// the request's action, and its resource pattern matches the whole path.
pub open spec fn record_allows(rec: PermissionRecord, action: Action, path: Seq<char>) -> bool {
    &&& (rec.action == Action::Any || rec.action == action)
    &&& glob_match(rec.resource@, path)
}

/// Whether some record of `perms` grants `action` on `path`.
pub open spec fn allowed(perms: Seq<PermissionRecord>, action: Action, path: Seq<char>) -> bool {
    exists|k: int| 0 <= k < perms.len() && record_allows(perms[k], action, path)
}

/// The decision for a method, a path and a permission set: deny when the
/// method maps to no action, otherwise the logical OR over all records.
pub open spec fn decision(m: Seq<char>, path: Seq<char>, perms: Seq<PermissionRecord>) -> bool {
    match method_action(m) {
        Some(a) => allowed(perms, a, path),
        None => false,
    }
}

/// Evaluates a permission set: true when at least one record grants
/// `action` on `path`.
pub fn evaluate(path: &str, action: Action, perms: &Vec<PermissionRecord>) -> (r: bool)
    ensures
        r == allowed(perms@, action, path@),
{
    let n = perms.len();
    let mut k: usize = 0;
    while k < n
        invariant
            0 <= k <= n,
            n == perms@.len(),
            forall|j: int| 0 <= j < k ==> !record_allows(perms@[j], action, path@),
        decreases n - k,
    {
        let rec = &perms[k];
        if (matches!(rec.action, Action::Any) || rec.action == action)
            && wild_match(rec.resource.as_str(), path) {
            return true;
        }
        k += 1;
    }
    false
}

/// The full decision for one request: maps the method, then evaluates the
/// permission set; an unmappable method resolves to a deny, never to a
/// crash.
pub fn authorize(method: &str, path: &str, perms: &Vec<PermissionRecord>) -> (r: bool)
    ensures
        r == decision(method@, path@, perms@),
{
    match method_to_action(method) {
        Ok(action) => evaluate(path, action, perms),
        Err(_) => false,
    }
}

/// Every decision an unknown method can reach is a deny, whatever the path
/// and whatever the permission set.
pub proof fn lemma_unknown_method_denies(m: Seq<char>, path: Seq<char>, perms: Seq<PermissionRecord>)
    requires
        method_action(m) is None,
    ensures
        !decision(m, path, perms),
{
}

} // verus!
