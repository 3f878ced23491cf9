//! Tests for the allocation registry.

use port_forward_controller::registry::{
    AllocationRegistry, CompareAndUnregisterError, Entry, ForceRegistrationResult, Key,
    RegistrationConflict, RegistrationSuccess, Value,
};

/// 10.0.0.5 in its IPv4-mapped form.
const FIRST_CLAIMANT: u128 = 0xffff_0a00_0005;

/// 10.0.0.6 in its IPv4-mapped form.
const SECOND_CLAIMANT: u128 = 0xffff_0a00_0006;

#[test]
fn conflicting_allocation() {
    let mut registry = AllocationRegistry::new();
    let key = Key::new(6, 8080);
    let value = Value::new(FIRST_CLAIMANT, 80);

    let outcome = registry.register(Entry::from_kv(key, value));
    assert!(matches!(outcome, Ok(RegistrationSuccess::Registered)));

    // Same key, same value: idempotent.
    let outcome = registry.register(Entry::from_kv(key, value));
    assert!(matches!(outcome, Ok(RegistrationSuccess::AlreadyExists)));

    // Same key, different value: the conflict reports the old claimant.
    let other = Value::new(SECOND_CLAIMANT, 80);
    let outcome = registry.register(Entry::from_kv(key, other));
    assert_eq!(outcome, Err(RegistrationConflict(value)));

    // Compare-and-unregister with the wrong value refuses too.
    let outcome = registry.compare_and_unregister(Entry::from_kv(key, other));
    assert_eq!(outcome, Err(CompareAndUnregisterError::DifferentValue(value)));

    // With the right value the entry leaves.
    let outcome = registry.compare_and_unregister(Entry::from_kv(key, value));
    assert_eq!(outcome, Ok(()));
    let outcome = registry.compare_and_unregister(Entry::from_kv(key, value));
    assert_eq!(outcome, Err(CompareAndUnregisterError::KeyNotFound));
}

#[test]
fn force_register_evicts_the_conflicting_claimant() {
    let mut registry = AllocationRegistry::new();
    let entry = Entry::new(6, 8080, FIRST_CLAIMANT, 80);

    assert!(matches!(
        registry.force_register(entry),
        ForceRegistrationResult::Registered
    ));
    assert!(matches!(
        registry.force_register(entry),
        ForceRegistrationResult::AlreadyExists
    ));

    let newcomer = Entry::new(6, 8080, SECOND_CLAIMANT, 80);
    assert_eq!(
        registry.force_register(newcomer),
        ForceRegistrationResult::EvictedConflicting(entry.value)
    );

    // The newcomer now owns the slot.
    assert_eq!(registry.unregister(newcomer.key), Some(newcomer.value));
    assert_eq!(registry.unregister(newcomer.key), None);
}

#[test]
fn distinct_slots_do_not_conflict() {
    let mut registry = AllocationRegistry::new();
    let tcp = Entry::new(6, 8080, FIRST_CLAIMANT, 80);
    let udp = Entry::new(17, 8080, SECOND_CLAIMANT, 80);

    assert!(registry.register(tcp).is_ok());
    assert!(registry.register(udp).is_ok());
    assert_eq!(registry.unregister(tcp.key), Some(tcp.value));
    assert_eq!(registry.unregister(udp.key), Some(udp.value));
}
