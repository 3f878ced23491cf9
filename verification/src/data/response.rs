//! Field values of a PCP response.

use vstd::prelude::*;
use crate::primitives::{Address, EpochTime, LifetimeSeconds, Nonce, Port, Protocol, ResultCode};

verus! {

/// The common response header fields.
#[derive(Debug, Clone, Copy, PartialEq, Eq, Structural, Hash)]
pub struct Header {
    pub result_code: ResultCode,
    pub lifetime: LifetimeSeconds,
    pub epoch_time: EpochTime,
}

/// The `MAP` response body fields.
#[derive(Debug, Clone, Copy, PartialEq, Eq, Structural, Hash)]
pub struct MapBody {
    pub mapping_nonce: Nonce,
    pub protocol: Protocol,
    pub internal_port: Port,
    pub assigned_external_port: Port,
    pub assigned_external_ip_address: Address,
}

} // verus!
