//! Validation of the meta bytes of a received packet.

use vstd::prelude::*;
use crate::packet::{spec_is_response, spec_opcode, Meta};
use crate::primitives::Opcode;

verus! {

/// Whether the meta bytes carry the expected version, direction and opcode.
pub open spec fn spec_meta_matches(
    m: Meta,
    expected_is_response: bool,
    expected_opcode: Opcode,
) -> bool {
    &&& m.version == crate::consts::VERSION
    &&& spec_is_response(m.r_and_opcode.0) == expected_is_response
    &&& spec_opcode(m.r_and_opcode.0) == expected_opcode
}

/// Check the version, direction and opcode of a received packet.
pub fn meta(m: &Meta, expected_is_response: bool, expected_opcode: Opcode) -> (r: bool)
    ensures
        r == spec_meta_matches(*m, expected_is_response, expected_opcode),
{
    m.version == crate::consts::VERSION && m.r_and_opcode.is_response() == expected_is_response
        && m.r_and_opcode.opcode() == expected_opcode
}

} // verus!
