//! The fixed layout of a PCP packet.
//!
//! Every packet on the wire is exactly [`LEN`] bytes. The common header is
//! [`HEADER_LEN`] bytes, the `MAP` opcode body [`MAP_LEN`] bytes, and each
//! option starts with an [`OPTION_HEADER_LEN`]-byte option header.

use vstd::prelude::*;

verus! {

/// The size of every PCP packet on the wire.
pub const LEN: usize = 1100;

/// The size of the common request/response header.
pub const HEADER_LEN: usize = 24;

/// The size of the `MAP` opcode body.
pub const MAP_LEN: usize = 36;

/// The size of an option header.
pub const OPTION_HEADER_LEN: usize = 4;

/// The value of the `R` bit within the second packet byte.
pub const IS_RESPONSE_BIT: u8 = 128;

/// The second byte of every packet: the `R` direction bit joined with the
/// 7-bit opcode.
#[derive(Clone, Copy, PartialEq, Eq, Structural, Hash, Debug)]
pub struct RAndOpcode(pub u8);

/// The first two bytes of every packet: the version, the direction and the
/// opcode.
#[derive(Clone, Copy, PartialEq, Eq, Structural, Hash, Debug)]
pub struct Meta {
    pub version: u8,
    pub r_and_opcode: RAndOpcode,
}

impl RAndOpcode {
    /// Join a direction and an opcode; an opcode that would collide with
    /// the `R` bit is refused.
    pub fn from_parts(is_response: bool, opcode: u8) -> (r: Option<Self>)
        ensures
            opcode >= IS_RESPONSE_BIT <==> r is None,
            opcode < IS_RESPONSE_BIT ==> r == Some(
                RAndOpcode(spec_r_and_opcode(is_response, opcode)),
            ),
    {
        if opcode >= IS_RESPONSE_BIT {
            return None;
        }

        let val: u8 = if is_response {
            opcode + IS_RESPONSE_BIT
        } else {
            opcode
        };

        Some(RAndOpcode(val))
    }

    /// The 7-bit opcode.
    pub fn opcode(self) -> (r: u8)
        ensures
            r == spec_opcode(self.0),
    {
        self.0 % IS_RESPONSE_BIT
    }

    /// The `R` bit: whether the packet is a response.
    pub fn is_response(self) -> (r: bool)
        ensures
            r == spec_is_response(self.0),
    {
        self.0 >= IS_RESPONSE_BIT
    }

    /// Render the byte the way a maintainer reads it in a log:
    /// `[R=<bit>; OPCODE=<number>]`.
    pub fn debug_string(self) -> (r: String)
        ensures
            r@ == spec_debug_chars(self.0),
    {
        let mut out = String::new();
        out.append("[R=");
        proof {
            reveal_strlit("[R=");
            assert(out@ =~= seq!['[', 'R', '=']);
        }
        if self.0 >= IS_RESPONSE_BIT {
            out.append("1");
            proof {
                reveal_strlit("1");
            }
        } else {
            out.append("0");
            proof {
                reveal_strlit("0");
            }
        }
        out.append("; OPCODE=");
        proof {
            reveal_strlit("; OPCODE=");
            assert("; OPCODE="@ =~= seq![';', ' ', 'O', 'P', 'C', 'O', 'D', 'E', '=']);
        }
        let digits = crate::packet::decimal_string(self.opcode());
        out.append(digits.as_str());
        out.append("]");
        proof {
            reveal_strlit("]");
            assert(out@ =~= spec_debug_chars(self.0));
        }
        out
    }
}

/// The log rendering of a direction/opcode byte, character by
/// character.
pub open spec fn spec_debug_chars(value: u8) -> Seq<char> {
    seq!['[', 'R', '='] + seq![if spec_is_response(value) { '1' } else { '0' }] + seq![
        ';',
        ' ',
        'O',
        'P',
        'C',
        'O',
        'D',
        'E',
        '=',
    ] + spec_decimal_chars(spec_opcode(value)) + seq![']']
}

/// The decimal digits of a byte value, most significant first, without
/// leading zeros (a lone zero for 0).
pub open spec fn spec_decimal_chars(value: u8) -> Seq<char> {
    if value >= 100 {
        seq![
            spec_digit_char((value / 100) as u8),
            spec_digit_char(((value / 10) % 10) as u8),
            spec_digit_char((value % 10) as u8),
        ]
    } else if value >= 10 {
        seq![spec_digit_char((value / 10) as u8), spec_digit_char((value % 10) as u8)]
    } else {
        seq![spec_digit_char(value)]
    }
}

/// The character of one decimal digit.
pub open spec fn spec_digit_char(digit: u8) -> char
    recommends
        digit < 10,
{
    ((digit + 48) as u8) as char
}

/// The wire byte for a direction and a 7-bit opcode.
pub open spec fn spec_r_and_opcode(is_response: bool, opcode: u8) -> u8
    recommends
        opcode < IS_RESPONSE_BIT,
{
    if is_response {
        (opcode + IS_RESPONSE_BIT) as u8
    } else {
        opcode
    }
}

/// The opcode half of a joined byte.
pub open spec fn spec_opcode(value: u8) -> u8 {
    (value % IS_RESPONSE_BIT) as u8
}

/// The direction half of a joined byte.
pub open spec fn spec_is_response(value: u8) -> bool {
    value >= IS_RESPONSE_BIT
}

/// The decimal digits of a byte value, as a string.
pub fn decimal_string(value: u8) -> (r: String)
    ensures
        r@ == spec_decimal_chars(value),
{
    let mut out = String::new();
    if value >= 100 {
        out.append(digit_str(value / 100));
        out.append(digit_str((value / 10) % 10));
        out.append(digit_str(value % 10));
    } else if value >= 10 {
        out.append(digit_str(value / 10));
        out.append(digit_str(value % 10));
    } else {
        out.append(digit_str(value));
    }
    proof {
        assert(out@ =~= spec_decimal_chars(value));
    }
    out
}

/// The one-character string for a decimal digit.
fn digit_str(digit: u8) -> (r: &'static str)
    requires
        digit < 10,
    ensures
        r@ == seq![spec_digit_char(digit)],
{
    let r: &'static str = if digit == 0 {
        "0"
    } else if digit == 1 {
        "1"
    } else if digit == 2 {
        "2"
    } else if digit == 3 {
        "3"
    } else if digit == 4 {
        "4"
    } else if digit == 5 {
        "5"
    } else if digit == 6 {
        "6"
    } else if digit == 7 {
        "7"
    } else if digit == 8 {
        "8"
    } else {
        "9"
    };
    proof {
        reveal_strlit("0");
        reveal_strlit("1");
        reveal_strlit("2");
        reveal_strlit("3");
        reveal_strlit("4");
        reveal_strlit("5");
        reveal_strlit("6");
        reveal_strlit("7");
        reveal_strlit("8");
        reveal_strlit("9");
        assert(r@ =~= seq![spec_digit_char(digit)]);
    }
    r
}

} // verus!
