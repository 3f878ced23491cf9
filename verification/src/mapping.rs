//! The engine's view of one managed mapping.
//!
//! [`Id`] holds the fields that name a mapping on the gateway; changing any
//! of them makes a different mapping. [`Params`] holds the fields that may
//! change in place. [`Incoming`] is a decoded `MAP` response paired with
//! the local address it arrived on.

pub mod option;

use vstd::prelude::*;
use crate::data::response;
use crate::primitives::{Address, LifetimeSeconds, Nonce, Port, Protocol};

verus! {

/// The identity of a mapping: protocol, internal endpoint and nonce.
#[derive(Debug, Clone, Copy, PartialEq, Eq, Structural, Hash)]
pub struct Id {
    /// The protocol; the server must accept it or reject with
    /// `UNSUPP_PROTOCOL`.
    pub protocol: Protocol,
    /// The internal IP. The server identifies the mapping by the source
    /// address it sees, so this cannot be chosen freely.
    pub internal_ip: Address,
    /// The internal port.
    pub internal_port: Port,
    /// The client-chosen mapping nonce.
    pub nonce: Nonce,
}

/// The changeable parameters of a mapping.
#[derive(Debug, Clone, Copy, PartialEq, Eq)]
pub struct Params {
    /// The requested lifetime in seconds; 0 requests deletion.
    pub lifetime: LifetimeSeconds,
    /// The external port; the client may suggest one, the server assigns.
    pub external_port: Port,
    /// The external IP; the client may suggest one, the server assigns.
    pub external_ip: Address,
    /// The `THIRD_PARTY` option, if requested.
    pub third_party: Option<option::ThirdParty>,
    /// The `PREFER_FAILURE` option, if requested.
    pub prefer_failure: Option<option::PreferFailure>,
    /// The `FILTER` option flag; modeled but unused by the core path.
    pub filters: Option<option::Filters>,
}

/// A desired mapping: its identity and its parameters.
#[derive(Debug, Clone, Copy, PartialEq, Eq)]
pub struct Mapping {
    /// The fields that constitute the mapping identity.
    pub id: Id,
    /// The fields that only select mapping parameters.
    pub params: Params,
}

/// A server notification: the decoded `MAP` response and the local address
/// on which it was received.
#[derive(Debug, Clone, Copy, PartialEq, Eq, Structural, Hash)]
pub struct Incoming {
    pub received_on: Address,
    pub packet_header: response::Header,
    pub packet_opcode: response::MapBody,
}

impl Mapping {
    /// Whether two mappings address the same server-visible slot:
    /// protocol, internal IP and internal port match.
    pub open spec fn spec_same_exposed_resource(self, other: Mapping) -> bool {
        &&& self.id.protocol == other.id.protocol
        &&& self.id.internal_ip == other.id.internal_ip
        &&& self.id.internal_port == other.id.internal_port
    }

    /// Whether `self` and `other` address the same server-visible slot.
    pub fn is_same_exposed_resource(&self, other: &Mapping) -> (r: bool)
        ensures
            r == self.spec_same_exposed_resource(*other),
    {
        self.id.protocol == other.id.protocol && self.id.internal_ip == other.id.internal_ip
            && self.id.internal_port == other.id.internal_port
    }

    /// Whether `self` and `other` carry the same nonce.
    pub fn is_same_nonce(&self, other: &Mapping) -> (r: bool)
        ensures
            r == (self.id.nonce == other.id.nonce),
    {
        self.id.nonce == other.id.nonce
    }

    /// Whether two mappings are the same mapping instance: the full
    /// identity, nonce included, must match.
    pub open spec fn spec_same_mapping_instance(self, other: Mapping) -> bool {
        self.id == other.id
    }

    /// Whether `self` and `other` are the same mapping instance.
    pub fn is_same_mapping_instance(&self, other: &Mapping) -> (r: bool)
        ensures
            r == self.spec_same_mapping_instance(*other),
    {
        self.id == other.id
    }

    /// The same mapping turned into an explicit delete request.
    pub open spec fn spec_into_cleanup(self) -> Mapping {
        Mapping { id: self.id, params: Params { lifetime: 0, ..self.params } }
    }

    /// Turn the mapping into an explicit delete request: lifetime 0.
    pub fn into_cleanup(self) -> (r: Mapping)
        ensures
            r == self.spec_into_cleanup(),
    {
        let mut mapping = self;
        mapping.params.lifetime = 0;
        mapping
    }

    /// Make the mapping an explicit delete request in place.
    pub fn set_cleanup(&mut self)
        ensures
            *final(self) == old(self).spec_into_cleanup(),
    {
        self.params.lifetime = 0;
    }

    /// Whether the mapping is a delete request: lifetime 0.
    pub fn is_cleanup(&self) -> (r: bool)
        ensures
            r == (self.params.lifetime == 0),
    {
        self.params.lifetime == 0
    }
}

impl Incoming {
    /// The identity this notification speaks of. The internal IP is taken
    /// from the local address the datagram arrived on, never from packet
    /// fields: PCP identifies mappings by the apparent source from the
    /// server's point of view.
    pub open spec fn spec_id(self) -> Id {
        Id {
            protocol: self.packet_opcode.protocol,
            internal_ip: self.received_on,
            internal_port: self.packet_opcode.internal_port,
            nonce: self.packet_opcode.mapping_nonce,
        }
    }

    /// The identity this notification speaks of.
    pub fn id(&self) -> (r: Id)
        ensures
            r == self.spec_id(),
    {
        Id {
            protocol: self.packet_opcode.protocol,
            internal_ip: self.received_on,
            internal_port: self.packet_opcode.internal_port,
            nonce: self.packet_opcode.mapping_nonce,
        }
    }

    /// Whether the notification addresses the same server-visible slot as
    /// the mapping: protocol, internal IP and internal port match. The
    /// nonce takes no part: two nonces can fight over one slot.
    pub open spec fn spec_same_exposed_resource(self, other: Mapping) -> bool {
        &&& self.received_on == other.id.internal_ip
        &&& self.packet_opcode.protocol == other.id.protocol
        &&& self.packet_opcode.internal_port == other.id.internal_port
    }

    /// Whether the notification addresses the same server-visible slot.
    pub fn is_same_exposed_resource(&self, other: &Mapping) -> (r: bool)
        ensures
            r == self.spec_same_exposed_resource(*other),
    {
        self.received_on == other.id.internal_ip && self.packet_opcode.protocol
            == other.id.protocol && self.packet_opcode.internal_port == other.id.internal_port
    }

    /// Whether the notification confirms a deletion: success with
    /// lifetime 0.
    pub open spec fn spec_is_cleanup(self) -> bool {
        self.packet_header.result_code == crate::consts::result_code::SUCCESS
            && self.packet_header.lifetime == 0
    }

    /// Whether the notification confirms a deletion.
    pub fn is_cleanup(&self) -> (r: bool)
        ensures
            r == self.spec_is_cleanup(),
    {
        self.packet_header.result_code == crate::consts::result_code::SUCCESS
            && self.packet_header.lifetime == 0
    }
}

} // verus!
