//! Tests for default-gateway selection.

use port_forward_controller::ip::IpAddress;
use port_forward_controller::route::{try_route, RouteAddress, RouteEntry};

fn v4(a: u8, b: u8, c: u8, d: u8) -> u32 {
    u32::from_be_bytes([a, b, c, d])
}

#[test]
fn filtering() {
    let sample = RouteEntry {
        destination_prefix_length: 0,
        source_prefix_length: 0,
        gateway: Some(RouteAddress::Inet(v4(192, 168, 0, 1))),
        pref_source: Some(RouteAddress::Inet(v4(192, 168, 0, 10))),
    };

    assert_eq!(
        try_route(IpAddress::V4(v4(192, 168, 0, 10)), sample),
        Some(IpAddress::V4(v4(192, 168, 0, 1)))
    );
}

#[test]
fn non_default_route_is_skipped() {
    let sample = RouteEntry {
        destination_prefix_length: 24,
        source_prefix_length: 0,
        gateway: Some(RouteAddress::Inet(v4(192, 168, 0, 1))),
        pref_source: None,
    };
    assert_eq!(try_route(IpAddress::V4(v4(192, 168, 0, 10)), sample), None);
}

#[test]
fn mismatched_source_is_skipped() {
    let sample = RouteEntry {
        destination_prefix_length: 0,
        source_prefix_length: 0,
        gateway: Some(RouteAddress::Inet(v4(192, 168, 0, 1))),
        pref_source: Some(RouteAddress::Inet(v4(192, 168, 0, 11))),
    };
    assert_eq!(try_route(IpAddress::V4(v4(192, 168, 0, 10)), sample), None);

    // A family mismatch between source and interface is a mismatch too.
    let sample = RouteEntry {
        pref_source: Some(RouteAddress::Inet6(1)),
        ..sample
    };
    assert_eq!(try_route(IpAddress::V4(v4(192, 168, 0, 10)), sample), None);
}

#[test]
fn route_without_gateway_is_skipped() {
    let sample = RouteEntry {
        destination_prefix_length: 0,
        source_prefix_length: 0,
        gateway: None,
        pref_source: None,
    };
    assert_eq!(try_route(IpAddress::V4(v4(192, 168, 0, 10)), sample), None);
}

#[test]
fn route_without_source_matches_any_interface() {
    let sample = RouteEntry {
        destination_prefix_length: 0,
        source_prefix_length: 0,
        gateway: Some(RouteAddress::Inet6(0x2001)),
        pref_source: None,
    };
    assert_eq!(
        try_route(IpAddress::V6(7), sample),
        Some(IpAddress::V6(0x2001))
    );
}
