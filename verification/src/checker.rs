//! The read-through permission check.
//!
//! A check maps the request method to an action, then consults the cache:
//! on a hit it decides from the cached set at once; on a miss the caller
//! resolves the user's records from the source of truth and completes the
//! check, which decides from the fresh set and populates the cache. An
//! unmappable method is an internal error; callers resolve it to a deny.

use vstd::prelude::*;

use crate::action::{method_action, method_to_action, AuthError};
use crate::cache::{PermissionCache, PERMISSION_TTL_SECS};
use crate::permission::{allowed, decision, evaluate, PermissionRecord};

verus! {

/// Outcome of a check against the cache alone: a decision from a live
/// entry, or a miss that obliges the caller to recompute.
#[derive(Clone, Copy, Debug, PartialEq, Eq, Structural)]
pub enum CacheCheck {
    Hit(bool),
    Miss,
}

/// What a check against the cache alone yields: the decision from the live
/// entry for `u`, or nothing when the entry is absent or expired at `now`.
pub open spec fn cached_decision(
    c: PermissionCache,
    u: i32,
    now: u64,
    m: Seq<char>,
    path: Seq<char>,
) -> Option<bool> {
    if c.live(u, now) {
        Some(decision(m, path, c.contents()[u].0))
    } else {
        None
    }
}

/// Checks a request against the cache alone. A live entry decides at once;
/// an absent or expired one reports a miss, and the caller completes the
/// check with `check_path_permission_fresh` after resolving the user's
/// records. An unmappable method errs before the cache is consulted.
pub fn check_path_permission_cached(
    cache: &PermissionCache,
    user_id: i32,
    method: &str,
    path: &str,
    now: u64,
) -> (r: Result<CacheCheck, AuthError>)
    requires
        cache.wf(),
    ensures
        r is Err <==> method_action(method@) is None,
        method_action(method@) is Some ==> r == Ok::<CacheCheck, AuthError>(
            match cached_decision(*cache, user_id, now, method@, path@) {
                Some(d) => CacheCheck::Hit(d),
                None => CacheCheck::Miss,
            },
        ),
{
    let action = method_to_action(method)?;
    match cache.lookup(user_id, now) {
        Some(perms) => Ok(CacheCheck::Hit(evaluate(path, action, perms))),
        None => Ok(CacheCheck::Miss),
    }
}

/// Completes a check after a miss: decides from the freshly resolved set
/// and stores that set in the cache with a full time to live from `now`.
/// An unmappable method errs with the cache untouched; it never panics.
pub fn check_path_permission_fresh(
    cache: &mut PermissionCache,
    user_id: i32,
    method: &str,
    path: &str,
    now: u64,
    fresh: Vec<PermissionRecord>,
) -> (r: Result<bool, AuthError>)
    requires
        old(cache).wf(),
        now <= u64::MAX - PERMISSION_TTL_SECS,
    ensures
        final(cache).wf(),
        r is Err <==> method_action(method@) is None,
        r is Err ==> final(cache).contents() == old(cache).contents(),
        method_action(method@) is Some ==> r == Ok::<bool, AuthError>(
            decision(method@, path@, fresh@),
        ) && final(cache).contents() == old(cache).contents().insert(
            user_id,
            (fresh@, (now + PERMISSION_TTL_SECS) as u64),
        ),
{
    let action = method_to_action(method)?;
    let verdict = evaluate(path, action, &fresh);
    cache.populate(user_id, fresh, now);
    Ok(verdict)
}

/// Cache round trip: after a miss computes the set `s` for user `u` and
/// populates the cache at instant `t`, a check for `u` at any instant
/// within the time-to-live window hits and returns exactly the decision a
/// direct recomputation from `s` would; the source of truth is not
/// consulted again.
pub proof fn lemma_cache_round_trip(
    c0: PermissionCache,
    c1: PermissionCache,
    u: i32,
    s: Seq<PermissionRecord>,
    t: u64,
    t2: u64,
    m: Seq<char>,
    path: Seq<char>,
)
    requires
        t <= u64::MAX - PERMISSION_TTL_SECS,
        c1.contents() == c0.contents().insert(u, (s, (t + PERMISSION_TTL_SECS) as u64)),
        t <= t2 < t + PERMISSION_TTL_SECS,
    ensures
        c1.live(u, t2),
        cached_decision(c1, u, t2, m, path) == Some(decision(m, path, s)),
{
    assert(c1.contents().contains_key(u));
    assert(c1.contents()[u] == (s, (t + PERMISSION_TTL_SECS) as u64));
}

/// Invalidation forces recomputation: once the entry for `u` is deleted, a
/// check for `u` at any instant whatsoever misses, regardless of the time
/// to live the deleted entry had left.
pub proof fn lemma_invalidate_forces_recomputation(
    c0: PermissionCache,
    c1: PermissionCache,
    u: i32,
    now: u64,
    m: Seq<char>,
    path: Seq<char>,
)
    requires
        c1.contents() == c0.contents().remove(u),
    ensures
        !c1.live(u, now),
        cached_decision(c1, u, now, m, path) is None,
{
    assert(!c1.contents().contains_key(u));
}

} // verus!
