//! Protocol constants of PCP (RFC 6887).

use vstd::prelude::*;

pub mod opcode;
pub mod option;
pub mod port;
pub mod protocol;
pub mod result_code;

verus! {

/// The PCP version this library speaks.
pub const VERSION: crate::primitives::PcpVersion = 2;

/// The standard port the PCP server listens on.
pub const PCP_SERVER_PORT: u16 = 5351;

/// The standard port the PCP client listens on for `ANNOUNCE` packets.
pub const PCP_CLIENT_LISTEN_PORT: u16 = 5350;

} // verus!
