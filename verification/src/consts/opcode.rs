//! Opcode numbers.

use vstd::prelude::*;

verus! {

pub const ANNOUNCE: crate::primitives::Opcode = 0;

pub const MAP: crate::primitives::Opcode = 1;

pub const PEER: crate::primitives::Opcode = 2;

} // verus!
