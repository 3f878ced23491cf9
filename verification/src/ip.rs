//! IP address unification.
//!
//! On the wire, and throughout the engine, an address is one 128-bit
//! value: an IPv4 address travels as its IPv4-mapped-IPv6 form
//! `::ffff:a.b.c.d`. [`unify`] maps either family into that form;
//! [`split`] maps a unified address back to its canonical family.

use vstd::prelude::*;
use crate::primitives::Address;

verus! {

/// An IPv4 or IPv6 address as plain integers: an IPv4 address is the
/// 32-bit value of its four octets, an IPv6 address the 128-bit value of
/// its sixteen.
#[derive(Debug, Clone, Copy, PartialEq, Eq, Structural, Hash)]
pub enum IpAddress {
    V4(u32),
    V6(u128),
}

/// An IP endpoint: an address and a port.
#[derive(Debug, Clone, Copy, PartialEq, Eq, Structural, Hash)]
pub struct SocketAddress {
    pub ip: IpAddress,
    pub port: u16,
}

/// The IPv4-mapped-IPv6 block `::ffff:0:0`: 80 zero bits, 16 one bits,
/// then the 32 IPv4 bits.
pub const V4_MAPPED_BASE: u128 = 0xffff_0000_0000;

/// The unified form of an address.
pub open spec fn spec_unify(ip: IpAddress) -> Address {
    match ip {
        IpAddress::V4(v) => (V4_MAPPED_BASE + v) as u128,
        IpAddress::V6(v) => v,
    }
}

/// The canonical family of a unified address: an address inside the
/// IPv4-mapped block is IPv4, any other is IPv6.
pub open spec fn spec_split(address: Address) -> IpAddress {
    if V4_MAPPED_BASE <= address < V4_MAPPED_BASE + 0x1_0000_0000 {
        IpAddress::V4((address - V4_MAPPED_BASE) as u32)
    } else {
        IpAddress::V6(address)
    }
}

/// Represent an address of either family as a unified 128-bit address.
pub fn unify(ip: IpAddress) -> (r: Address)
    ensures
        r == spec_unify(ip),
{
    match ip {
        IpAddress::V4(v) => V4_MAPPED_BASE + (v as u128),
        IpAddress::V6(v) => v,
    }
}

/// Convert a unified address back into its canonical family.
pub fn split(address: Address) -> (r: IpAddress)
    ensures
        r == spec_split(address),
{
    if V4_MAPPED_BASE <= address && address < V4_MAPPED_BASE + 0x1_0000_0000 {
        IpAddress::V4((address - V4_MAPPED_BASE) as u32)
    } else {
        IpAddress::V6(address)
    }
}

/// Splitting a unified address and unifying the result gives the address
/// back: the two forms name the same address.
pub proof fn lemma_unify_split_roundtrip(address: Address)
    ensures
        spec_unify(spec_split(address)) == address,
{
}

/// Unifying and splitting gives the address back, except for an IPv6
/// address that itself lies in the IPv4-mapped block, whose canonical
/// form is the IPv4 address it maps.
pub proof fn lemma_split_unify_roundtrip(ip: IpAddress)
    requires
        ip matches IpAddress::V6(v) ==> !(V4_MAPPED_BASE <= v < V4_MAPPED_BASE + 0x1_0000_0000),
    ensures
        spec_split(spec_unify(ip)) == ip,
{
}

} // verus!
