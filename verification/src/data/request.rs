//! Field values of a PCP request.

use vstd::prelude::*;
use crate::primitives::{Address, LifetimeSeconds, Nonce, Port, Protocol};

verus! {

/// The common request header fields.
#[derive(Debug, Clone, Copy, PartialEq, Eq, Structural, Hash)]
pub struct Header {
    pub requested_lifetime: LifetimeSeconds,
    pub client_ip_address: Address,
}

/// The `MAP` request body fields.
#[derive(Debug, Clone, Copy, PartialEq, Eq, Structural, Hash)]
pub struct MapBody {
    pub mapping_nonce: Nonce,
    pub protocol: Protocol,
    pub internal_port: Port,
    pub suggested_external_port: Port,
    pub suggested_external_ip_address: Address,
}

} // verus!
