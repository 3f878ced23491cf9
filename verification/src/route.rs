//! Default-gateway selection from routing-table entries.
//!
//! The host's routing table is read elsewhere; each route arrives here as
//! plain values, and [`try_route`] decides whether it supplies the
//! default gateway for the given interface address.

use vstd::prelude::*;
use crate::ip::IpAddress;

verus! {

/// An address attribute of a route, by family.
#[derive(Debug, Clone, Copy, PartialEq, Eq, Structural, Hash)]
pub enum RouteAddress {
    Inet(u32),
    Inet6(u128),
    Other,
}

/// One routing-table entry, reduced to the fields the selection reads:
/// its prefix lengths, its gateway attribute and its preferred-source
/// attribute, if present.
#[derive(Debug, Clone, Copy, PartialEq, Eq, Structural, Hash)]
pub struct RouteEntry {
    pub destination_prefix_length: u8,
    pub source_prefix_length: u8,
    pub gateway: Option<RouteAddress>,
    pub pref_source: Option<RouteAddress>,
}

/// Whether the candidate is covered by the mask with the given prefix.
/// The prefix is not yet honored: only an exact match passes.
pub fn ipv4_matches(mask: u32, prefix: u8, candidate: u32) -> (r: bool)
    ensures
        r == (mask == candidate),
{
    mask == candidate
}

/// Whether the candidate is covered by the mask with the given prefix.
/// The prefix is not yet honored: only an exact match passes.
pub fn ipv6_matches(mask: u128, prefix: u8, candidate: u128) -> (r: bool)
    ensures
        r == (mask == candidate),
{
    mask == candidate
}

/// The gateway a route supplies for the interface, if it does: the route
/// must be a default route, carry a gateway address of a known family,
/// and either name no preferred source or name the interface itself.
pub open spec fn spec_try_route(interface: IpAddress, route: RouteEntry) -> Option<IpAddress> {
    if route.destination_prefix_length != 0 {
        None
    } else {
        match route.gateway {
            None => None,
            Some(gateway) => {
                let source_matched = match (route.pref_source, interface) {
                    (Some(RouteAddress::Inet(source)), IpAddress::V4(candidate)) => source
                        == candidate,
                    (Some(RouteAddress::Inet6(source)), IpAddress::V6(candidate)) => source
                        == candidate,
                    (None, _) => true,
                    _ => false,
                };
                if !source_matched {
                    None
                } else {
                    match gateway {
                        RouteAddress::Inet(ip) => Some(IpAddress::V4(ip)),
                        RouteAddress::Inet6(ip) => Some(IpAddress::V6(ip)),
                        RouteAddress::Other => None,
                    }
                }
            },
        }
    }
}

/// Filter the route and extract a gateway if it fits.
pub fn try_route(interface: IpAddress, route: RouteEntry) -> (r: Option<IpAddress>)
    ensures
        r == spec_try_route(interface, route),
{
    let is_default_route = route.destination_prefix_length == 0;
    if !is_default_route {
        return None;
    }

    let gateway = match route.gateway {
        Some(gateway) => gateway,
        None => {
            return None;
        },
    };

    let source_matched = match (route.pref_source, interface) {
        (Some(RouteAddress::Inet(source)), IpAddress::V4(candidate)) => ipv4_matches(
            source,
            route.source_prefix_length,
            candidate,
        ),
        (Some(RouteAddress::Inet6(source)), IpAddress::V6(candidate)) => ipv6_matches(
            source,
            route.source_prefix_length,
            candidate,
        ),
        (None, _) => true,
        _ => false,
    };
    if !source_matched {
        return None;
    }

    match gateway {
        RouteAddress::Inet(ip) => Some(IpAddress::V4(ip)),
        RouteAddress::Inet6(ip) => Some(IpAddress::V6(ip)),
        RouteAddress::Other => None,
    }
}

} // verus!
