//! Tests for the packet codec: bit-exact encoding, decoding and the
//! round trip.

use port_forward_controller::client::{encode_request, SendItem};
use port_forward_controller::consts;
use port_forward_controller::data::{request, response};
use port_forward_controller::decode;
use port_forward_controller::encode;
use port_forward_controller::mapping::option::PcpOption;
use port_forward_controller::mapping::{Id, Mapping, Params};

fn assert_packet(packet: &[u8], assertion: &[u8]) {
    assert_eq!(&packet[..assertion.len()], assertion);
    assert!(packet[assertion.len()..].iter().all(|&byte| byte == 0));
}

/// The IPv4-mapped form of 1.2.3.4.
const CLIENT_IP: u128 = 0xffff_0102_0304;

fn sample_header() -> request::Header {
    request::Header {
        requested_lifetime: 60,
        client_ip_address: CLIENT_IP,
    }
}

fn sample_map() -> request::MapBody {
    request::MapBody {
        mapping_nonce: 0x0102_0304_0506_0708_090A_0B0C,
        protocol: consts::protocol::TCP,
        internal_port: 80,
        suggested_external_port: 80,
        suggested_external_ip_address: 0,
    }
}

#[test]
fn encode() {
    let packet = encode::NeedsR::new_owned()
        .request()
        .map(sample_header(), sample_map())
        .finish();

    let expected = [
        0x02, // version
        0x01, // r and opcode for MAP request
        0, 0, // reserved, zeroes
        0, 0, 0, 60, // lifetime, 60 seconds
        0, 0, 0, 0, 0, 0, 0, 0, 0, 0, 0xff, 0xff, 1, 2, 3, 4, // client IP address
        0x01, 0x02, 0x03, 0x04, 0x05, 0x06, 0x07, 0x08, 0x09, 0x0A, 0x0B, 0x0C, // nonce
        6,    // protocol, TCP
        0, 0, 0, // reserved, zeroes
        0, 80, // internal port
        0, 80, // suggested external port
        0, 0, 0, 0, 0, 0, 0, 0, 0, 0, 0, 0, 0, 0, 0, 0, // suggested external IP address
    ];

    assert_packet(&packet, &expected);
}

#[test]
fn decode() {
    let sample_header = sample_header();
    let sample_map = sample_map();

    let packet = encode::NeedsR::new_owned()
        .request()
        .map(sample_header, sample_map)
        .finish();

    let decoder = decode::State::new(&packet);

    assert_eq!(
        decoder.map_request_data().unwrap(),
        (sample_header, sample_map)
    );
}

#[test]
fn response_round_trip() {
    let header = response::Header {
        result_code: consts::result_code::SUCCESS,
        lifetime: 110,
        epoch_time: 4242,
    };
    let body = response::MapBody {
        mapping_nonce: 0x0102_0304_0506_0708_090A_0B0C,
        protocol: consts::protocol::TCP,
        internal_port: 80,
        assigned_external_port: 8081,
        assigned_external_ip_address: 0xffff_cb00_7104, // 203.0.113.4, IPv4-mapped
    };

    let packet = encode::NeedsR::new_owned()
        .response()
        .map(header, body)
        .finish();
    assert_eq!(packet.len(), 1100);

    let decoder = decode::State::new(&packet);
    assert_eq!(decoder.map_response_data().unwrap(), (header, body));
    // A response does not decode as a request.
    assert!(decoder.map_request_data().is_none());
}

#[test]
fn output_is_fixed_size_and_padded() {
    let packet = encode::NeedsR::new_owned()
        .request()
        .map(sample_header(), sample_map())
        .finish();
    assert_eq!(packet.len(), 1100);
    assert!(packet[60..].iter().all(|&byte| byte == 0));
}

fn sample_mapping(prefer_failure: Option<PcpOption<()>>) -> Mapping {
    Mapping {
        id: Id {
            protocol: consts::protocol::TCP,
            internal_ip: CLIENT_IP,
            internal_port: 80,
            nonce: 0x0102_0304_0506_0708_090A_0B0C,
        },
        params: Params {
            lifetime: 60,
            external_port: 80,
            external_ip: 0,
            third_party: None,
            prefer_failure,
            filters: None,
        },
    }
}

#[test]
fn equal_mappings_encode_to_identical_packets() {
    let first = encode_request(&sample_mapping(None));
    let second = encode_request(&sample_mapping(None));
    assert_eq!(first, second);

    let first = encode_request(&sample_mapping(Some(PcpOption {
        is_optional: false,
        payload: (),
    })));
    let second = encode_request(&sample_mapping(Some(PcpOption {
        is_optional: false,
        payload: (),
    })));
    assert_eq!(first, second);
}

#[test]
fn prefer_failure_option_bytes() {
    let packet = encode_request(&sample_mapping(Some(PcpOption {
        is_optional: false,
        payload: (),
    })));
    assert_eq!(packet.len(), 1100);
    // After the 24-byte header and the 36-byte MAP body: the option
    // header, with code 2 (mandatory: MSB clear), a reserved zero byte
    // and a zero 16-bit length.
    assert_eq!(&packet[60..64], &[2, 0, 0, 0]);
    assert!(packet[64..].iter().all(|&byte| byte == 0));

    let packet = encode_request(&sample_mapping(Some(PcpOption {
        is_optional: true,
        payload: (),
    })));
    assert_eq!(&packet[60..64], &[130, 0, 0, 0]);
}

#[test]
fn wrong_version_or_direction_is_not_this_kind_of_packet() {
    let mut packet = encode::NeedsR::new_owned()
        .request()
        .map(sample_header(), sample_map())
        .finish();
    // Flip the version byte: the decoder refuses the buffer.
    packet[0] = 1;
    let decoder = decode::State::new(&packet);
    assert!(decoder.map_request_data().is_none());
    assert!(decoder.map_response_data().is_none());

    // Restore the version: a request still is not a response.
    packet[0] = 2;
    let decoder = decode::State::new(&packet);
    assert!(decoder.map_request_data().is_some());
    assert!(decoder.map_response_data().is_none());
}

#[test]
fn send_item_holds_the_mapping() {
    let mapping = sample_mapping(None);
    let item = SendItem {
        id: mapping.id,
        mapping,
    };
    assert_eq!(item.mapping.params.lifetime, 60);
}

#[test]
fn generic_opcode_rejects_r_bit_collision() {
    let data: Vec<u8> = Vec::new();
    let staged = encode::NeedsR::new_owned().request();
    let refused = staged.opcode(sample_header(), 128, &data);
    assert!(refused.is_err());

    let staged = encode::NeedsR::new_owned().request();
    let accepted = staged.opcode(sample_header(), 3, &data);
    assert!(accepted.is_ok());
}
