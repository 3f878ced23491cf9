//! Tests for the resource-to-mapping conversion and the address
//! unification.

use port_forward_controller::convert::{
    ConversionError, Converter, PCPMap, PCPMapSpec, ProtocolField,
};
use port_forward_controller::ip::{split, unify, IpAddress, SocketAddress};

fn converter() -> Converter {
    Converter {
        nonce: 7,
        lifetime: 120,
    }
}

fn resource(protocol: ProtocolField) -> PCPMap {
    PCPMap {
        namespace: Some("default".to_string()),
        name: Some("web".to_string()),
        spec: PCPMapSpec {
            protocol,
            from: 8080,
            to: SocketAddress {
                ip: IpAddress::V4(0x0a00_0005), // 10.0.0.5
                port: 80,
            },
        },
    }
}

#[test]
fn converts_symbolic_protocol_names_case_insensitively() {
    let cases = [
        ("any", 0u8),
        ("tcp", 6),
        ("TCP", 6),
        ("Udp", 17),
        ("sctp", 132),
        ("DCCP", 33),
    ];
    for (name, number) in cases {
        let crd = resource(ProtocolField::Named(name.to_string()));
        let id = converter().mapping_id_from_crd(&crd).unwrap();
        assert_eq!(id.protocol, number);
        assert_eq!(id.internal_ip, 0xffff_0a00_0005);
        assert_eq!(id.internal_port, 80);
        assert_eq!(id.nonce, 7);
    }
}

#[test]
fn converts_protocol_numbers() {
    let crd = resource(ProtocolField::Number(17));
    let id = converter().mapping_id_from_crd(&crd).unwrap();
    assert_eq!(id.protocol, 17);
}

#[test]
fn rejects_out_of_range_protocol_numbers() {
    for number in [-1, 256, 4096] {
        let crd = resource(ProtocolField::Number(number));
        let error = converter().mapping_id_from_crd(&crd).unwrap_err();
        assert_eq!(error, ConversionError::InvalidProtocolNumber(number));
    }
}

#[test]
fn rejects_unknown_protocol_names() {
    let crd = resource(ProtocolField::Named("quic".to_string()));
    let error = converter().mapping_id_from_crd(&crd).unwrap_err();
    assert_eq!(
        error,
        ConversionError::UnknownProtocolName("quic".to_string())
    );
}

#[test]
fn params_ask_for_prefer_failure() {
    let crd = resource(ProtocolField::Named("tcp".to_string()));
    let params = converter().mapping_params_from_crd(&crd).unwrap();
    assert_eq!(params.lifetime, 120);
    assert_eq!(params.external_port, 8080);
    assert_eq!(params.external_ip, 0);
    assert!(params.third_party.is_none());
    let prefer_failure = params.prefer_failure.unwrap();
    assert!(!prefer_failure.is_optional);
    assert!(params.filters.is_none());
}

#[test]
fn mapping_from_crd_combines_identity_and_params() {
    let crd = resource(ProtocolField::Named("udp".to_string()));
    let mapping = converter().mapping_from_crd(&crd).unwrap();
    assert_eq!(mapping.id.protocol, 17);
    assert_eq!(mapping.params.lifetime, 120);

    let crd = resource(ProtocolField::Number(-3));
    assert!(converter().mapping_from_crd(&crd).is_err());
}

#[test]
fn unify_and_split_are_inverse() {
    let v4 = IpAddress::V4(0x0102_0304);
    assert_eq!(unify(v4), 0xffff_0102_0304);
    assert_eq!(split(unify(v4)), v4);

    let v6 = IpAddress::V6(0x2001_0db8_0000_0000_0000_0000_0000_0001);
    assert_eq!(unify(v6), 0x2001_0db8_0000_0000_0000_0000_0000_0001);
    assert_eq!(split(unify(v6)), v6);

    // A raw IPv6 value inside the IPv4-mapped block splits to IPv4: the
    // two forms name the same address.
    assert_eq!(split(0xffff_0102_0304), IpAddress::V4(0x0102_0304));
}
