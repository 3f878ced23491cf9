//! Result codes of PCP responses (RFC 6887 section 7.4), and their
//! error-lifetime class.

use vstd::prelude::*;

verus! {

/// Success.
pub const SUCCESS: crate::primitives::ResultCode = 0;

/// The version in the request header is not recognized. Long lifetime.
pub const UNSUPP_VERSION: crate::primitives::ResultCode = 1;

/// The operation is disabled for this client. Long lifetime.
pub const NOT_AUTHORIZED: crate::primitives::ResultCode = 2;

/// The request could not be parsed. Long lifetime.
pub const MALFORMED_REQUEST: crate::primitives::ResultCode = 3;

/// Unsupported opcode. Long lifetime.
pub const UNSUPP_OPCODE: crate::primitives::ResultCode = 4;

/// Unsupported mandatory-to-process option. Long lifetime.
pub const UNSUPP_OPTION: crate::primitives::ResultCode = 5;

/// Malformed option. Long lifetime.
pub const MALFORMED_OPTION: crate::primitives::ResultCode = 6;

/// The server or its device has a network failure. Short lifetime.
pub const NETWORK_FAILURE: crate::primitives::ResultCode = 7;

/// The server lacks the resources for the operation right now. Short
/// lifetime.
pub const NO_RESOURCES: crate::primitives::ResultCode = 8;

/// Unsupported transport protocol. Long lifetime.
pub const UNSUPP_PROTOCOL: crate::primitives::ResultCode = 9;

/// The mapping would exceed the subscriber's port quota. Short lifetime.
pub const USER_EX_QUOTA: crate::primitives::ResultCode = 10;

/// The suggested external port or address cannot be provided. Returned
/// only for requests that carry `PREFER_FAILURE` (or imply it).
pub const CANNOT_PROVIDE_EXTERNAL: crate::primitives::ResultCode = 11;

/// The request's source address does not match its client-address field.
/// Long lifetime.
pub const ADDRESS_MISMATCH: crate::primitives::ResultCode = 12;

/// The server could not create the requested filters. Long lifetime.
pub const EXCESSIVE_REMOTE_PEERS: crate::primitives::ResultCode = 13;

/// Whether an error code carries short-lifetime semantics: the condition
/// is expected to clear soon, so the next keepalive tick retries it.
pub fn is_short_lifetime_error(code: crate::primitives::ResultCode) -> (short: bool)
    ensures
        short == spec_is_short_lifetime_error(code),
{
    code == NETWORK_FAILURE || code == NO_RESOURCES || code == USER_EX_QUOTA
}

/// The short-lifetime error codes: `NETWORK_FAILURE`, `NO_RESOURCES` and
/// `USER_EX_QUOTA`.
pub open spec fn spec_is_short_lifetime_error(code: crate::primitives::ResultCode) -> bool {
    code == NETWORK_FAILURE || code == NO_RESOURCES || code == USER_EX_QUOTA
}

} // verus!
