//! Tests for the status listener and the resource indexer.

use port_forward_controller::consts;
use port_forward_controller::convert::{Converter, PCPMap, PCPMapSpec, ProtocolField};
use port_forward_controller::data::response;
use port_forward_controller::indexer::{Event, Indexer};
use port_forward_controller::ip::{IpAddress, SocketAddress};
use port_forward_controller::mapping::Incoming;
use port_forward_controller::status::Listener;

/// 10.0.0.5 in its IPv4-mapped form.
const INTERNAL_IP: u128 = 0xffff_0a00_0005;

/// 203.0.113.4 in its IPv4-mapped form.
const ASSIGNED_IP: u128 = 0xffff_cb00_7104;

fn converter() -> Converter {
    Converter {
        nonce: 0,
        lifetime: 120,
    }
}

fn resource() -> PCPMap {
    PCPMap {
        namespace: Some("default".to_string()),
        name: Some("web".to_string()),
        spec: PCPMapSpec {
            protocol: ProtocolField::Named("tcp".to_string()),
            from: 8080,
            to: SocketAddress {
                ip: IpAddress::V4(0x0a00_0005),
                port: 80,
            },
        },
    }
}

fn notification() -> Incoming {
    Incoming {
        received_on: INTERNAL_IP,
        packet_header: response::Header {
            result_code: consts::result_code::SUCCESS,
            lifetime: 110,
            epoch_time: 3,
        },
        packet_opcode: response::MapBody {
            mapping_nonce: 0,
            protocol: consts::protocol::TCP,
            internal_port: 80,
            assigned_external_port: 8081,
            assigned_external_ip_address: ASSIGNED_IP,
        },
    }
}

#[test]
fn notification_before_ready_is_stashed_then_patched() {
    let mut listener = Listener::new(Indexer::new(converter()));

    // Before any watch event the indexer is not ready: stash.
    assert!(listener.on_notification(notification()).is_none());

    // Ready, but the index knows nothing for the identity: the drain
    // silently discards the stashed notification.
    let patches = listener.on_watch_event(Event::InitDone);
    assert!(patches.is_empty());

    // A watch apply maps the identity to (namespace, name); the same
    // notification now produces a status patch.
    let patches = listener.on_watch_event(Event::Apply(resource()));
    assert!(patches.is_empty());
    let patch = listener.on_notification(notification()).unwrap();
    assert_eq!(patch.namespace, "default");
    assert_eq!(patch.name, "web");
    let endpoint = patch.status.external_endpoint.unwrap();
    assert_eq!(endpoint.ip, IpAddress::V4(0xcb00_7104)); // 203.0.113.4
    assert_eq!(endpoint.port, 8081);
    assert!(patch.status.protocol_number.is_none());
    assert!(patch.status.internal_ip.is_none());
}

#[test]
fn stash_drains_through_a_ready_index() {
    let mut listener = Listener::new(Indexer::new(converter()));
    assert!(listener.on_notification(notification()).is_none());

    // The resource arrives during the initial list; InitDone drains the
    // stash through the now-ready index.
    let patches = listener.on_watch_event(Event::InitApply(resource()));
    assert!(patches.is_empty());
    let patches = listener.on_watch_event(Event::InitDone);
    assert_eq!(patches.len(), 1);
    assert_eq!(patches[0].namespace, "default");
    assert_eq!(patches[0].name, "web");

    // The stash was drained: a repeated InitDone finds it empty.
    let patches = listener.on_watch_event(Event::InitDone);
    assert!(patches.is_empty());
}

#[test]
fn a_newer_stashed_notification_replaces_the_older() {
    let mut listener = Listener::new(Indexer::new(converter()));
    assert!(listener.on_notification(notification()).is_none());
    let mut newer = notification();
    newer.packet_opcode.assigned_external_port = 9000;
    assert!(listener.on_notification(newer).is_none());

    let patches = listener.on_watch_event(Event::InitApply(resource()));
    assert!(patches.is_empty());
    let patches = listener.on_watch_event(Event::InitDone);
    assert_eq!(patches.len(), 1);
    assert_eq!(
        patches[0].status.external_endpoint.unwrap().port,
        9000
    );
}

#[test]
fn deleted_resource_resolves_no_more() {
    let mut listener = Listener::new(Indexer::new(converter()));
    let patches = listener.on_watch_event(Event::InitDone);
    assert!(patches.is_empty());
    let patches = listener.on_watch_event(Event::Apply(resource()));
    assert!(patches.is_empty());
    assert!(listener.on_notification(notification()).is_some());

    let patches = listener.on_watch_event(Event::Delete(resource()));
    assert!(patches.is_empty());
    assert!(listener.on_notification(notification()).is_none());
}

#[test]
fn init_clears_the_index_and_readiness() {
    let mut indexer = Indexer::new(converter());
    indexer.handle_event(Event::InitDone);
    assert!(indexer.reader().is_ok());

    indexer.handle_event(Event::Init);
    assert!(indexer.reader().is_err());
}

#[test]
fn resource_without_name_is_skipped() {
    let mut listener = Listener::new(Indexer::new(converter()));
    let mut unnamed = resource();
    unnamed.name = None;
    let patches = listener.on_watch_event(Event::InitDone);
    assert!(patches.is_empty());
    let patches = listener.on_watch_event(Event::Apply(unnamed));
    assert!(patches.is_empty());
    assert!(listener.on_notification(notification()).is_none());
}
