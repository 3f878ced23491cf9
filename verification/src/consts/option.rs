//! Option codes (RFC 6887 section 13).

use vstd::prelude::*;

verus! {

pub const THIRD_PARTY: crate::primitives::OptionCode = 1;

pub const PREFER_FAILURE: crate::primitives::OptionCode = 2;

pub const FILTER: crate::primitives::OptionCode = 3;

} // verus!
