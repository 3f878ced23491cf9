//! IANA protocol numbers used by the controller.

use vstd::prelude::*;

verus! {

pub const ANY: crate::primitives::Protocol = 0;

pub const TCP: crate::primitives::Protocol = 6;

pub const UDP: crate::primitives::Protocol = 17;

pub const DCCP: crate::primitives::Protocol = 33;

pub const SCTP: crate::primitives::Protocol = 132;

} // verus!
