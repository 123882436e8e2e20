use fanout_core::registry::{ConnectionRegistry, UpgradeError};

#[test]
fn upgrade_with_zero_or_missing_tenant_is_rejected() {
    let mut reg = ConnectionRegistry::new();
    assert_eq!(reg.handle_upgrade(Some(0)), Err(UpgradeError::BadRequest));
    assert_eq!(reg.handle_upgrade(None), Err(UpgradeError::BadRequest));
    // The rejection created no state: no bucket anywhere, ids untouched.
    assert!(reg.snapshot(0).is_empty());
    assert_eq!(reg.next_conn_id, 1);
}

#[test]
fn register_appends_in_order_with_fresh_handles() {
    let mut reg = ConnectionRegistry::new();
    let a = reg.handle_upgrade(Some(7)).unwrap();
    let b = reg.handle_upgrade(Some(7)).unwrap();
    let c = reg.handle_upgrade(Some(9)).unwrap();
    assert_ne!(a, b);
    assert_ne!(b, c);
    assert_eq!(reg.snapshot(7), vec![a, b]);
    assert_eq!(reg.snapshot(9), vec![c]);
    assert!(reg.snapshot(8).is_empty());
}

#[test]
fn broadcast_prunes_exactly_the_failed_sends() {
    let mut reg = ConnectionRegistry::new();
    let a = reg.handle_upgrade(Some(7)).unwrap();
    let b = reg.handle_upgrade(Some(7)).unwrap();
    let c = reg.handle_upgrade(Some(7)).unwrap();
    let d = reg.handle_upgrade(Some(9)).unwrap();

    // The snapshot lists every connection under the tenant exactly once.
    let snapshot = reg.snapshot(7);
    assert_eq!(snapshot, vec![a, b, c]);

    // Sends to a and c failed; the prune removes them and only them.
    reg.prune(7, &vec![a, c]);
    assert_eq!(reg.snapshot(7), vec![b]);
    // Another tenant's bucket is untouched.
    assert_eq!(reg.snapshot(9), vec![d]);
}

#[test]
fn pruning_keeps_connections_registered_since_the_snapshot() {
    let mut reg = ConnectionRegistry::new();
    let a = reg.handle_upgrade(Some(3)).unwrap();
    let snapshot = reg.snapshot(3);
    assert_eq!(snapshot, vec![a]);
    // A new session registers between the snapshot and the prune.
    let late = reg.handle_upgrade(Some(3)).unwrap();
    reg.prune(3, &vec![a]);
    assert_eq!(reg.snapshot(3), vec![late]);
}

#[test]
fn pruning_an_unknown_tenant_changes_nothing() {
    let mut reg = ConnectionRegistry::new();
    let a = reg.handle_upgrade(Some(5)).unwrap();
    reg.prune(11, &vec![a]);
    assert_eq!(reg.snapshot(5), vec![a]);
}

#[test]
fn dead_connection_stays_until_next_broadcast_to_its_tenant() {
    // Lazy pruning: nothing removes a failed connection except a broadcast
    // that targets its tenant.
    let mut reg = ConnectionRegistry::new();
    let a = reg.handle_upgrade(Some(4)).unwrap();
    reg.prune(6, &vec![a]);
    assert_eq!(reg.snapshot(4), vec![a]);
    reg.prune(4, &vec![a]);
    assert!(reg.snapshot(4).is_empty());
}
