use fanout_core::action::{method_to_action, Action, AuthError};
use fanout_core::cache::{user_permissions_key, PermissionCache, PERMISSION_TTL_SECS};
use fanout_core::checker::{check_path_permission_cached, check_path_permission_fresh, CacheCheck};
use fanout_core::permission::{authorize, evaluate, PermissionRecord};

fn record(resource: &str, action: Action) -> PermissionRecord {
    PermissionRecord {
        id: 1,
        name: String::from("r"),
        resource: String::from(resource),
        action,
        description: None,
    }
}

#[test]
fn method_mapping_is_exact() {
    assert_eq!(method_to_action("GET"), Ok(Action::Read));
    assert_eq!(method_to_action("POST"), Ok(Action::Create));
    assert_eq!(method_to_action("PUT"), Ok(Action::Update));
    assert_eq!(method_to_action("DELETE"), Ok(Action::Delete));
    assert_eq!(method_to_action("get"), Ok(Action::Read));
    assert_eq!(method_to_action("Post"), Ok(Action::Create));
    assert_eq!(method_to_action("PATCH"), Err(AuthError::InvalidMethod));
    assert_eq!(method_to_action("HEAD"), Err(AuthError::InvalidMethod));
    assert_eq!(method_to_action(""), Err(AuthError::InvalidMethod));
    assert_eq!(method_to_action("GETS"), Err(AuthError::InvalidMethod));
}

#[test]
fn wildcard_evaluation_scenarios() {
    let grants = vec![record("/api/admin/classes/*", Action::Read)];
    assert!(evaluate("/api/admin/classes/5", Action::Read, &grants));

    let grants = vec![record("/api/x", Action::Any)];
    assert!(evaluate("/api/x", Action::Create, &grants));

    let grants: Vec<PermissionRecord> = vec![];
    assert!(!evaluate("/api/y", Action::Read, &grants));
}

#[test]
fn action_must_match_unless_star() {
    let grants = vec![record("/api/admin/*", Action::Read)];
    assert!(!evaluate("/api/admin/users", Action::Delete, &grants));
    assert!(evaluate("/api/admin/users", Action::Read, &grants));
}

#[test]
fn unknown_method_resolves_to_deny() {
    let grants = vec![record("*", Action::Any)];
    assert!(!authorize("PATCH", "/api/anything", &grants));
    assert!(authorize("GET", "/api/anything", &grants));
}

#[test]
fn cache_round_trip_hits_within_ttl() {
    let mut cache = PermissionCache::new();
    let now = 1_000;

    // First check: nothing cached, the caller must recompute.
    let first = check_path_permission_cached(&cache, 42, "GET", "/api/admin/classes/5", now);
    assert_eq!(first, Ok(CacheCheck::Miss));

    // The recomputation decides and populates the cache.
    let fresh = vec![record("/api/admin/classes/*", Action::Read)];
    let decided =
        check_path_permission_fresh(&mut cache, 42, "GET", "/api/admin/classes/5", now, fresh);
    assert_eq!(decided, Ok(true));

    // A second check within the TTL window hits and returns the same
    // decision as a direct recomputation from the same set.
    let later = now + PERMISSION_TTL_SECS - 1;
    let second = check_path_permission_cached(&cache, 42, "GET", "/api/admin/classes/5", later);
    assert_eq!(second, Ok(CacheCheck::Hit(true)));
    let denied = check_path_permission_cached(&cache, 42, "DELETE", "/api/admin/classes/5", later);
    assert_eq!(denied, Ok(CacheCheck::Hit(false)));

    // Past the window the entry has expired: a miss again.
    let expired = now + PERMISSION_TTL_SECS;
    let third = check_path_permission_cached(&cache, 42, "GET", "/api/admin/classes/5", expired);
    assert_eq!(third, Ok(CacheCheck::Miss));
}

#[test]
fn invalidate_forces_recomputation() {
    let mut cache = PermissionCache::new();
    let now = 5_000;
    let fresh = vec![record("/api/x", Action::Any)];
    let decided = check_path_permission_fresh(&mut cache, 7, "POST", "/api/x", now, fresh);
    assert_eq!(decided, Ok(true));
    assert_eq!(
        check_path_permission_cached(&cache, 7, "POST", "/api/x", now + 1),
        Ok(CacheCheck::Hit(true))
    );

    // Deleting the entry forces the next check to recompute, however much
    // time to live was left.
    cache.invalidate(7);
    assert_eq!(
        check_path_permission_cached(&cache, 7, "POST", "/api/x", now + 1),
        Ok(CacheCheck::Miss)
    );
}

#[test]
fn caches_are_per_user() {
    let mut cache = PermissionCache::new();
    let now = 0;
    let fresh = vec![record("/api/x", Action::Any)];
    check_path_permission_fresh(&mut cache, 1, "GET", "/api/x", now, fresh).unwrap();
    assert_eq!(
        check_path_permission_cached(&cache, 2, "GET", "/api/x", now + 1),
        Ok(CacheCheck::Miss)
    );
    cache.invalidate(2);
    assert_eq!(
        check_path_permission_cached(&cache, 1, "GET", "/api/x", now + 1),
        Ok(CacheCheck::Hit(true))
    );
}

#[test]
fn invalid_method_errs_before_the_cache() {
    let mut cache = PermissionCache::new();
    assert_eq!(
        check_path_permission_cached(&cache, 1, "TRACE", "/api/x", 0),
        Err(AuthError::InvalidMethod)
    );
    assert_eq!(
        check_path_permission_fresh(&mut cache, 1, "TRACE", "/api/x", 0, vec![]),
        Err(AuthError::InvalidMethod)
    );
    // The failed completion left nothing behind.
    assert_eq!(
        check_path_permission_cached(&cache, 1, "GET", "/api/x", 0),
        Ok(CacheCheck::Miss)
    );
}

#[test]
fn cache_key_names_the_user() {
    assert_eq!(user_permissions_key(42), "user_permissions:42");
    assert_eq!(user_permissions_key(-3), "user_permissions:-3");
    assert_eq!(user_permissions_key(0), "user_permissions:0");
}
