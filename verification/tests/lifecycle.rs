//! Tests for the per-mapping lifecycle algebra.

use port_forward_controller::consts;
use port_forward_controller::data::response;
use port_forward_controller::lifecycle::{
    RemoveDesiredOutcome, State, UpdateDesiredOutcome,
};
use port_forward_controller::mapping::{Id, Incoming, Mapping, Params};

fn mapping(nonce: u128, lifetime: u32) -> Mapping {
    Mapping {
        id: Id {
            protocol: consts::protocol::TCP,
            internal_ip: 0xffff_0a00_0005, // 10.0.0.5, IPv4-mapped
            internal_port: 80,
            nonce,
        },
        params: Params {
            lifetime,
            external_port: 8080,
            external_ip: 0,
            third_party: None,
            prefer_failure: None,
            filters: None,
        },
    }
}

fn cleanup_confirmation(for_mapping: &Mapping) -> Incoming {
    Incoming {
        received_on: for_mapping.id.internal_ip,
        packet_header: response::Header {
            result_code: consts::result_code::SUCCESS,
            lifetime: 0,
            epoch_time: 7,
        },
        packet_opcode: response::MapBody {
            mapping_nonce: for_mapping.id.nonce,
            protocol: for_mapping.id.protocol,
            internal_port: for_mapping.id.internal_port,
            assigned_external_port: 8080,
            assigned_external_ip_address: 0,
        },
    }
}

#[test]
fn update_with_same_identity_stays_in_place() {
    let mut state = State::new(mapping(1, 120));
    let outcome = state.update_desired(mapping(1, 60));
    assert_eq!(outcome, UpdateDesiredOutcome::InPlace);
    let pending = state.pending_actions();
    assert_eq!(pending.cleanup.len(), 0);
    assert_eq!(pending.renew.unwrap().params.lifetime, 60);
}

#[test]
fn identity_change_queues_cleanup_with_zero_lifetime() {
    let mut state = State::new(mapping(1, 120));
    let outcome = state.update_desired(mapping(2, 120));
    assert_eq!(outcome, UpdateDesiredOutcome::Recreated);
    let pending = state.pending_actions();
    assert_eq!(pending.cleanup.len(), 1);
    assert_eq!(pending.cleanup[0].id.nonce, 1);
    assert_eq!(pending.cleanup[0].params.lifetime, 0);
    assert_eq!(pending.renew.unwrap().id.nonce, 2);
}

#[test]
fn remove_desired_queues_cleanup() {
    let mut state = State::new(mapping(1, 120));
    assert_eq!(state.remove_desired(), RemoveDesiredOutcome::Removed);
    assert!(state.desired().is_none());
    let pending = state.pending_actions();
    assert_eq!(pending.cleanup.len(), 1);
    assert_eq!(pending.cleanup[0].params.lifetime, 0);

    assert_eq!(state.remove_desired(), RemoveDesiredOutcome::WasAbsent);
}

#[test]
fn cleanup_confirmation_drains_matching_entries() {
    let mut state = State::new(mapping(1, 120));
    let _ = state.update_desired(mapping(2, 120));
    let _ = state.remove_desired();
    assert_eq!(state.pending_actions().cleanup.len(), 2);

    // Both queue entries share the exposed resource of the confirmation.
    state.handle_server_notification(cleanup_confirmation(&mapping(1, 0)));
    assert_eq!(state.pending_actions().cleanup.len(), 0);
}

#[test]
fn effective_cleared_when_nothing_is_left() {
    let mut state = State::new(mapping(1, 120));

    // A success report for the desired mapping becomes effective.
    let mut report = cleanup_confirmation(&mapping(1, 120));
    report.packet_header.lifetime = 110;
    state.handle_server_notification(report);
    assert!(state.effective().is_some());

    // Withdraw, then confirm the cleanup: nothing desired, nothing
    // queued, so the effective report is cleared.
    let _ = state.remove_desired();
    state.handle_server_notification(cleanup_confirmation(&mapping(1, 0)));
    assert!(state.desired().is_none());
    assert_eq!(state.pending_actions().cleanup.len(), 0);
    assert!(state.effective().is_none());
}

#[test]
fn unrelated_cleanup_confirmation_leaves_the_queue() {
    let mut state = State::new(mapping(1, 120));
    let _ = state.remove_desired();

    let mut other = cleanup_confirmation(&mapping(1, 0));
    other.packet_opcode.internal_port = 81; // a different exposed resource
    other.received_on = 0xffff_0a00_0005;
    state.handle_server_notification(other);
    assert_eq!(state.pending_actions().cleanup.len(), 1);
}

#[test]
fn non_success_report_does_not_drain_the_queue() {
    let mut state = State::new(mapping(1, 120));
    let _ = state.remove_desired();

    let mut failed = cleanup_confirmation(&mapping(1, 0));
    failed.packet_header.result_code = consts::result_code::NETWORK_FAILURE;
    state.handle_server_notification(failed);
    assert_eq!(state.pending_actions().cleanup.len(), 1);
}
