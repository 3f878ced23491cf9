//! Tests for the client engine: create, renew, tear down, and inbound
//! handling.

use port_forward_controller::client::{
    encode_request, ApplyOutcome, Client, Command, Reply,
};
use port_forward_controller::consts;
use port_forward_controller::data::response;
use port_forward_controller::decode;
use port_forward_controller::encode;
use port_forward_controller::mapping::{Id, Incoming, Mapping, Params};

/// 10.0.0.5 in its IPv4-mapped form.
const INTERNAL_IP: u128 = 0xffff_0a00_0005;

/// 203.0.113.4 in its IPv4-mapped form.
const ASSIGNED_IP: u128 = 0xffff_cb00_7104;

fn sample_mapping(lifetime: u32) -> Mapping {
    Mapping {
        id: Id {
            protocol: consts::protocol::TCP,
            internal_ip: INTERNAL_IP,
            internal_port: 80,
            nonce: 0x0102_0304_0506_0708_090A_0B0C,
        },
        params: Params {
            lifetime,
            external_port: 8080,
            external_ip: 0,
            third_party: None,
            prefer_failure: None,
            filters: None,
        },
    }
}

fn server_reply(mapping: &Mapping, result_code: u8, lifetime: u32) -> Vec<u8> {
    encode::NeedsR::new_owned()
        .response()
        .map(
            response::Header {
                result_code,
                lifetime,
                epoch_time: 1,
            },
            response::MapBody {
                mapping_nonce: mapping.id.nonce,
                protocol: mapping.id.protocol,
                internal_port: mapping.id.internal_port,
                assigned_external_port: 8081,
                assigned_external_ip_address: ASSIGNED_IP,
            },
        )
        .finish()
}

#[test]
fn create_renew_teardown_round_trip() {
    let mut client = Client::new();
    let mapping = sample_mapping(120);

    // Upsert: one MAP request with the desired lifetime goes out.
    assert!(client.handle_command(Command::UpsertDesired(mapping)).is_none());
    let sends = client.reconcile_collect();
    assert_eq!(sends.len(), 1);
    assert_eq!(sends[0].mapping.params.lifetime, 120);
    let packet = encode_request(&sends[0].mapping);
    let decoded = decode::State::new(&packet).map_request_data().unwrap();
    assert_eq!(decoded.0.requested_lifetime, 120);
    assert_eq!(decoded.0.client_ip_address, INTERNAL_IP);

    // The server acknowledges: the report becomes effective and a
    // notification is handed out.
    let reply = server_reply(&mapping, consts::result_code::SUCCESS, 110);
    let outcome = client.apply_incoming(&reply, INTERNAL_IP);
    let incoming = match outcome {
        ApplyOutcome::Applied(incoming) => incoming,
        other => panic!("expected Applied, got {:?}", other),
    };
    assert_eq!(incoming.packet_header.lifetime, 110);
    assert_eq!(incoming.packet_opcode.assigned_external_port, 8081);
    assert_eq!(
        client.handle_command(Command::GetEffective(mapping.id)),
        Some(Reply::Effective(Some(incoming)))
    );

    // Tear down: the desired mapping moves to the cleanup queue and a
    // lifetime-0 request goes out.
    assert!(client.handle_command(Command::RemoveDesired(mapping.id)).is_none());
    let sends = client.reconcile_collect();
    assert_eq!(sends.len(), 1);
    assert_eq!(sends[0].mapping.params.lifetime, 0);

    // The server confirms the delete: the queue drains, and the next
    // reconcile evicts the stale identity.
    let confirmation = server_reply(&mapping, consts::result_code::SUCCESS, 0);
    match client.apply_incoming(&confirmation, INTERNAL_IP) {
        ApplyOutcome::Applied(_) => {}
        other => panic!("expected Applied, got {:?}", other),
    }
    assert_eq!(client.reconcile_collect().len(), 0);
    let failed: Vec<Id> = Vec::new();
    client.evict_stale_except(&failed);
    assert_eq!(
        client.handle_command(Command::HasState(mapping.id)),
        Some(Reply::HasState(false))
    );
}

#[test]
fn identity_change_sends_cleanup_and_renew_in_one_cycle() {
    let mut client = Client::new();
    let with_nonce_a = sample_mapping(120);
    let mut with_nonce_b = with_nonce_a;
    with_nonce_b.id.nonce = 0x0D0E_0F10_1112_1314_1516_1718;

    client.upsert_desired(with_nonce_a);
    let reply = server_reply(&with_nonce_a, consts::result_code::SUCCESS, 110);
    match client.apply_incoming(&reply, INTERNAL_IP) {
        ApplyOutcome::Applied(_) => {}
        other => panic!("expected Applied, got {:?}", other),
    }

    // The nonce changes: under its table identity the old mapping is
    // superseded, so its delete and the new renewal go out together.
    let mut table_state = port_forward_controller::lifecycle::State::new(with_nonce_a);
    let outcome = table_state.update_desired(with_nonce_b);
    assert_eq!(
        outcome,
        port_forward_controller::lifecycle::UpdateDesiredOutcome::Recreated
    );
    let pending = table_state.pending_actions();
    assert_eq!(pending.cleanup.len(), 1);
    assert_eq!(pending.cleanup[0].id.nonce, with_nonce_a.id.nonce);
    assert_eq!(pending.cleanup[0].params.lifetime, 0);
    assert_eq!(pending.renew.unwrap().id.nonce, with_nonce_b.id.nonce);

    // The server confirms the cleanup of the old nonce: the queue
    // drains.
    let confirmation = Incoming {
        received_on: INTERNAL_IP,
        packet_header: response::Header {
            result_code: consts::result_code::SUCCESS,
            lifetime: 0,
            epoch_time: 2,
        },
        packet_opcode: response::MapBody {
            mapping_nonce: with_nonce_a.id.nonce,
            protocol: with_nonce_a.id.protocol,
            internal_port: with_nonce_a.id.internal_port,
            assigned_external_port: 8080,
            assigned_external_ip_address: 0,
        },
    };
    table_state.handle_server_notification(confirmation);
    assert_eq!(table_state.pending_actions().cleanup.len(), 0);
}

#[test]
fn malformed_inbound_changes_nothing() {
    let mut client = Client::new();
    let mapping = sample_mapping(120);
    client.upsert_desired(mapping);

    // A full-size buffer that is not a MAP response is dropped silently.
    let garbage = vec![0xAAu8; 1100];
    assert_eq!(
        client.apply_incoming(&garbage, INTERNAL_IP),
        ApplyOutcome::NotMapResponse
    );
    assert_eq!(
        client.handle_command(Command::HasState(mapping.id)),
        Some(Reply::HasState(true))
    );
    assert_eq!(
        client.handle_command(Command::GetEffective(mapping.id)),
        Some(Reply::Effective(None))
    );
}

#[test]
fn notification_for_unknown_mapping_is_reported() {
    let mut client = Client::new();
    let mapping = sample_mapping(120);
    let reply = server_reply(&mapping, consts::result_code::SUCCESS, 110);
    match client.apply_incoming(&reply, INTERNAL_IP) {
        ApplyOutcome::UnknownMapping(incoming) => {
            assert_eq!(incoming.packet_header.lifetime, 110);
        }
        other => panic!("expected UnknownMapping, got {:?}", other),
    }
}

#[test]
fn failed_send_keeps_the_stale_identity() {
    let mut client = Client::new();
    let mapping = sample_mapping(120);
    client.upsert_desired(mapping);
    client.remove_desired(mapping.id);
    let confirmation = server_reply(&mapping, consts::result_code::SUCCESS, 0);
    match client.apply_incoming(&confirmation, INTERNAL_IP) {
        ApplyOutcome::Applied(_) => {}
        other => panic!("expected Applied, got {:?}", other),
    }

    // The identity is stale, but its send failed: it survives this pass
    // and is evicted only once a pass succeeds.
    let failed = vec![mapping.id];
    client.evict_stale_except(&failed);
    assert!(client.has_state(mapping.id));

    let none_failed: Vec<Id> = Vec::new();
    client.evict_stale_except(&none_failed);
    assert!(!client.has_state(mapping.id));
}
