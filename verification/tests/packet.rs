//! Tests for the direction/opcode byte.

use port_forward_controller::packet::RAndOpcode;

#[test]
fn creation() {
    let cases = [
        (RAndOpcode::from_parts(false, 0), 0b0000_0000),
        (RAndOpcode::from_parts(true, 0), 0b1000_0000),
        //
        (RAndOpcode::from_parts(false, 1), 0b0000_0001),
        (RAndOpcode::from_parts(true, 1), 0b1000_0001),
        //
        (RAndOpcode::from_parts(false, 2), 0b0000_0010),
        (RAndOpcode::from_parts(false, 3), 0b0000_0011),
        (RAndOpcode::from_parts(true, 2), 0b1000_0010),
        (RAndOpcode::from_parts(true, 3), 0b1000_0011),
    ];

    for (actual, expected) in cases {
        assert_eq!(actual.unwrap().0, expected);
    }
}

#[test]
fn debug() {
    let cases = [
        (RAndOpcode::from_parts(false, 0), "[R=0; OPCODE=0]"),
        (RAndOpcode::from_parts(true, 0), "[R=1; OPCODE=0]"),
        //
        (RAndOpcode::from_parts(false, 1), "[R=0; OPCODE=1]"),
        (RAndOpcode::from_parts(true, 1), "[R=1; OPCODE=1]"),
        //
        (RAndOpcode::from_parts(false, 2), "[R=0; OPCODE=2]"),
        (RAndOpcode::from_parts(false, 3), "[R=0; OPCODE=3]"),
        (RAndOpcode::from_parts(true, 2), "[R=1; OPCODE=2]"),
        (RAndOpcode::from_parts(true, 3), "[R=1; OPCODE=3]"),
    ];

    for (actual, expected) in cases {
        assert_eq!(actual.unwrap().debug_string(), expected);
    }
}

#[test]
fn rejects_opcode_colliding_with_r_bit() {
    assert!(RAndOpcode::from_parts(false, 128).is_none());
    assert!(RAndOpcode::from_parts(true, 128).is_none());
    assert!(RAndOpcode::from_parts(false, 255).is_none());
    assert!(RAndOpcode::from_parts(false, 127).is_some());
}

#[test]
fn splits_into_parts() {
    let joined = RAndOpcode::from_parts(true, 1).unwrap();
    assert!(joined.is_response());
    assert_eq!(joined.opcode(), 1);

    let joined = RAndOpcode::from_parts(false, 2).unwrap();
    assert!(!joined.is_response());
    assert_eq!(joined.opcode(), 2);
}
