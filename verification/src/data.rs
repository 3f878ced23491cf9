//! The decoded field values of PCP packets.

pub mod request;
pub mod response;
