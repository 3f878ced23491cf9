//! A verified core for a PCP (RFC 6887) port-forward controller.
//!
//! The library contains the protocol constants, the bit-exact MAP packet
//! codec, the per-mapping lifecycle algebra, the client engine state, the
//! allocation registry, the resource indexer, the reconciler bridge and the
//! status listener logic. Everything that touches the network, the
//! orchestrator or the clock lives outside this crate and drives these
//! functions with plain values.

pub mod assoc;
pub mod bytes;
pub mod client;
pub mod consts;
pub mod convert;
pub mod data;
pub mod decode;
pub mod encode;
pub mod indexer;
pub mod ip;
pub mod lifecycle;
pub mod mapping;
pub mod packet;
pub mod primitives;
pub mod reconciler;
pub mod registry;
pub mod route;
pub mod status;
