//! Conversion from the declarative resource to the engine's types.
//!
//! A `PCPMap` resource declares "expose internal endpoint `to` on the
//! gateway's external port `from`, for `protocol`". The [`Converter`]
//! turns a resource into a mapping identity and parameters: the nonce is
//! a controller-wide constant, the requested lifetime derives from the
//! keepalive interval.

use vstd::prelude::*;
use crate::ip::{spec_unify, unify, IpAddress, SocketAddress};
use crate::mapping::{option::PcpOption, Id, Mapping, Params};
use crate::primitives::{nonce_valid, LifetimeSeconds, Nonce, Port, Protocol};

verus! {

/// The `protocol` field of a resource: an IANA number, or a symbolic
/// name such as `tcp`.
#[derive(Debug, Clone, PartialEq, Eq)]
pub enum ProtocolField {
    Number(i32),
    Named(String),
}

/// The declared intent of a `PCPMap` resource.
#[derive(Debug, Clone, PartialEq, Eq)]
pub struct PCPMapSpec {
    /// The protocol to forward.
    pub protocol: ProtocolField,
    /// The external port to forward from.
    pub from: Port,
    /// The internal endpoint to forward to.
    pub to: SocketAddress,
}

/// The observed status of a `PCPMap` resource.
#[derive(Debug, Clone, PartialEq, Eq)]
pub struct PCPMapStatus {
    /// The effective protocol number.
    pub protocol_number: Option<Protocol>,
    /// The effective internal IP the traffic goes to.
    pub internal_ip: Option<IpAddress>,
    /// The endpoint that reaches the forwarded port from the outside.
    pub external_endpoint: Option<SocketAddress>,
}

impl Default for PCPMapStatus {
    /// An empty status: nothing observed yet.
    fn default() -> (r: Self)
        ensures
            r.protocol_number is None,
            r.internal_ip is None,
            r.external_endpoint is None,
    {
        PCPMapStatus { protocol_number: None, internal_ip: None, external_endpoint: None }
    }
}

/// A `PCPMap` resource: its object metadata and its declared intent.
#[derive(Debug, Clone, PartialEq, Eq)]
pub struct PCPMap {
    /// The namespace of the resource, if set.
    pub namespace: Option<String>,
    /// The name of the resource, if set.
    pub name: Option<String>,
    /// The declared intent.
    pub spec: PCPMapSpec,
}

/// Why a resource could not be converted.
#[derive(Debug, Clone, PartialEq, Eq)]
pub enum ConversionError {
    /// The protocol number is negative or does not fit in 8 bits.
    InvalidProtocolNumber(i32),
    /// The protocol name is not one the controller knows.
    UnknownProtocolName(String),
}

/// Converts resources into mapping identities and parameters.
#[derive(Debug, Clone, PartialEq, Eq)]
pub struct Converter {
    /// The nonce used for every managed mapping.
    pub nonce: Nonce,
    /// The lifetime requested for every managed mapping.
    pub lifetime: LifetimeSeconds,
}

/// An ASCII upper-case letter folded to lower case; any other character
/// kept as it is.
pub open spec fn spec_lower_char(c: char) -> char {
    if 'A' <= c <= 'Z' {
        ((c as u8) + 32) as char
    } else {
        c
    }
}

/// The protocol number of a symbolic name, compared without regard to
/// ASCII case; `None` for a name the controller does not know.
pub open spec fn spec_protocol_of_name(name: Seq<char>) -> Option<Protocol> {
    let lowered = name.map_values(|c: char| spec_lower_char(c));
    if lowered == "any"@ {
        Some(crate::consts::protocol::ANY)
    } else if lowered == "tcp"@ {
        Some(crate::consts::protocol::TCP)
    } else if lowered == "udp"@ {
        Some(crate::consts::protocol::UDP)
    } else if lowered == "sctp"@ {
        Some(crate::consts::protocol::SCTP)
    } else if lowered == "dccp"@ {
        Some(crate::consts::protocol::DCCP)
    } else {
        None
    }
}

/// The protocol number a resource's protocol field denotes, if any.
pub open spec fn spec_protocol_number(field: ProtocolField) -> Option<Protocol> {
    match field {
        ProtocolField::Number(value) => {
            if 0 <= value <= 255 {
                Some(value as Protocol)
            } else {
                None
            }
        },
        ProtocolField::Named(name) => spec_protocol_of_name(name@),
    }
}

/// The mapping identity a converter derives from a resource, if its
/// protocol field converts.
pub open spec fn spec_mapping_id(converter: Converter, crd: PCPMap) -> Option<Id> {
    match spec_protocol_number(crd.spec.protocol) {
        Some(protocol) => Some(
            Id {
                protocol,
                internal_ip: spec_unify(crd.spec.to.ip),
                internal_port: crd.spec.to.port,
                nonce: converter.nonce,
            },
        ),
        None => None,
    }
}

/// The mapping parameters a converter derives from a resource: the
/// configured lifetime, the declared external port, no suggested
/// external address, and `PREFER_FAILURE` mandatory for the server.
pub open spec fn spec_mapping_params(converter: Converter, crd: PCPMap) -> Params {
    Params {
        lifetime: converter.lifetime,
        external_port: crd.spec.from,
        external_ip: 0,
        third_party: None,
        prefer_failure: Some(PcpOption { is_optional: false, payload: () }),
        filters: None,
    }
}

/// Whether folding `name` to ASCII lower case yields exactly `target`.
fn name_matches(name: &str, target: &str) -> (r: bool)
    ensures
        r == (name@.map_values(|c: char| spec_lower_char(c)) == target@),
{
    let ghost lowered = name@.map_values(|c: char| spec_lower_char(c));
    let name_len = name.unicode_len();
    let target_len = target.unicode_len();
    if name_len != target_len {
        return false;
    }
    let mut i: usize = 0;
    while i < name_len
        invariant
            i <= name_len,
            name_len == name@.len(),
            name_len == target@.len(),
            lowered == name@.map_values(|c: char| spec_lower_char(c)),
            forall|j: int| 0 <= j < i ==> lowered[j] == target@[j],
        decreases name_len - i,
    {
        let c = name.get_char(i);
        let folded: char = if c >= 'A' && c <= 'Z' {
            (((c as u8) + 32) as char)
        } else {
            c
        };
        proof {
            assert(folded == spec_lower_char(name@[i as int]));
            assert(lowered[i as int] == spec_lower_char(name@[i as int]));
        }
        if folded != target.get_char(i) {
            proof {
                assert(lowered[i as int] != target@[i as int]);
            }
            return false;
        }
        i = i + 1;
    }
    proof {
        assert(lowered =~= target@);
    }
    true
}

impl Converter {
    /// The controller-wide nonce fits the 96 bits the wire carries.
    pub open spec fn wf(&self) -> bool {
        nonce_valid(self.nonce)
    }

    /// Create a PCP client mapping from a corresponding resource.
    pub fn mapping_from_crd(&self, crd: &PCPMap) -> (r: Result<Mapping, ConversionError>)
        requires
            self.wf(),
        ensures
            match spec_mapping_id(*self, *crd) {
                Some(id) => r == Ok::<_, ConversionError>(
                    Mapping { id, params: spec_mapping_params(*self, *crd) },
                ),
                None => r is Err,
            },
            r matches Err(e) ==> spec_conversion_error_fits(e, crd.spec.protocol),
    {
        let id = match self.mapping_id_from_crd(crd) {
            Ok(id) => id,
            Err(e) => {
                return Err(e);
            },
        };
        let params = match self.mapping_params_from_crd(crd) {
            Ok(params) => params,
            Err(e) => {
                return Err(e);
            },
        };
        Ok(Mapping { id, params })
    }

    /// Create a PCP client mapping identity from a corresponding
    /// resource. The internal endpoint comes from the `to` field, with
    /// its address unified; the nonce is the controller-wide constant.
    pub fn mapping_id_from_crd(&self, crd: &PCPMap) -> (r: Result<Id, ConversionError>)
        requires
            self.wf(),
        ensures
            match spec_mapping_id(*self, *crd) {
                Some(id) => r == Ok::<_, ConversionError>(id),
                None => r is Err,
            },
            r matches Err(e) ==> spec_conversion_error_fits(e, crd.spec.protocol),
            r matches Ok(id) ==> nonce_valid(id.nonce),
    {
        let protocol: Protocol = match &crd.spec.protocol {
            ProtocolField::Number(value) => {
                if 0 <= *value && *value <= 255 {
                    *value as Protocol
                } else {
                    return Err(ConversionError::InvalidProtocolNumber(*value));
                }
            },
            ProtocolField::Named(name) => {
                if name_matches(name.as_str(), "any") {
                    crate::consts::protocol::ANY
                } else if name_matches(name.as_str(), "tcp") {
                    crate::consts::protocol::TCP
                } else if name_matches(name.as_str(), "udp") {
                    crate::consts::protocol::UDP
                } else if name_matches(name.as_str(), "sctp") {
                    crate::consts::protocol::SCTP
                } else if name_matches(name.as_str(), "dccp") {
                    crate::consts::protocol::DCCP
                } else {
                    return Err(ConversionError::UnknownProtocolName(name.clone()));
                }
            },
        };

        Ok(
            Id {
                protocol,
                internal_ip: unify(crd.spec.to.ip),
                internal_port: crd.spec.to.port,
                nonce: self.nonce,
            },
        )
    }

    /// Create PCP client mapping parameters from a corresponding
    /// resource.
    pub fn mapping_params_from_crd(&self, crd: &PCPMap) -> (r: Result<Params, ConversionError>)
        ensures
            r == Ok::<_, ConversionError>(spec_mapping_params(*self, *crd)),
    {
        Ok(
            Params {
                lifetime: self.lifetime,
                external_port: crd.spec.from,
                external_ip: 0,
                third_party: None,
                prefer_failure: Some(PcpOption { is_optional: false, payload: () }),
                filters: None,
            },
        )
    }
}

/// The error a protocol field that does not convert produces: its number
/// when the number is out of range, its name when the name is unknown.
pub open spec fn spec_conversion_error_fits(e: ConversionError, field: ProtocolField) -> bool {
    match field {
        ProtocolField::Number(value) => e == ConversionError::InvalidProtocolNumber(value),
        ProtocolField::Named(name) => e == ConversionError::UnknownProtocolName(name),
    }
}

} // verus!
