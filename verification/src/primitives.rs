//! The primitive wire-value types of the PCP protocol.
//!
//! IPv4 and IPv6 addresses are unified: an address is the 128-bit integer
//! value of its 16 network-order bytes, and an IPv4 address is carried as
//! its IPv4-mapped-IPv6 form. The 96-bit mapping nonce is carried in a
//! `u128` whose value stays below [`NONCE_LIMIT`].

use vstd::prelude::*;

verus! {

/// An IANA protocol number; 0 means "any protocol".
pub type Protocol = u8;

/// A TCP/UDP port number; 0 means "any port".
pub type Port = u16;

/// A mapping lifetime in seconds; 0 requests deletion.
pub type LifetimeSeconds = u32;

/// A unified IPv4/IPv6 address: the integer value of its 16 bytes.
pub type Address = u128;

/// The 96-bit client-chosen mapping nonce, held in the low 96 bits.
pub type Nonce = u128;

/// A PCP result code.
pub type ResultCode = u8;

/// The PCP version byte.
pub type PcpVersion = u8;

/// The server epoch-time counter.
pub type EpochTime = u32;

/// A PCP option code.
pub type OptionCode = u8;

/// A 7-bit value specifying the operation.
pub type Opcode = u8;

/// A prefix length for filter options.
pub type PrefixLength = u8;

/// The exclusive upper bound of a valid 96-bit nonce value.
pub const NONCE_LIMIT: u128 = 0x1_0000_0000_0000_0000_0000_0000;

/// A nonce is valid when it fits in the 96 bits the wire carries.
pub open spec fn nonce_valid(nonce: Nonce) -> bool {
    nonce < NONCE_LIMIT
}

} // verus!
