//! Port numbers with a special meaning.

use vstd::prelude::*;

verus! {

/// Any port.
///
/// As the internal port of a request it asks the mapping to apply to every
/// port; as the external port it lets the server pick any available port.
/// See RFC 6887 section 11.1.
pub const ANY: crate::primitives::Port = 0;

} // verus!
