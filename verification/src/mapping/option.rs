//! PCP options a request may carry.

use vstd::prelude::*;
use crate::primitives::Address;

verus! {

/// One PCP option of a request.
#[derive(Debug, Clone, Copy, PartialEq, Eq)]
pub struct PcpOption<T> {
    /// Whether handling the option is optional for the server. Sets the
    /// most significant bit of the option code on the wire (RFC 6887
    /// section 7.3).
    pub is_optional: bool,
    /// The payload of the option.
    pub payload: T,
}

/// The `THIRD_PARTY` option: the mapping's internal IP is not the client's.
pub type ThirdParty = PcpOption<Address>;

/// The `PREFER_FAILURE` option; it carries no payload.
pub type PreferFailure = PcpOption<()>;

/// The `FILTER` option flag; its payload is not modeled, the core protocol
/// path never sends it.
pub type Filters = PcpOption<()>;

} // verus!
