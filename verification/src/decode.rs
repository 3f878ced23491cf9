//! The PCP packet decoder.
//!
//! A decoder looks at a full-size received buffer. `map_request_data` and
//! `map_response_data` validate the version, the direction bit and the
//! opcode; a mismatch yields `None` ("not this kind of packet", so the
//! caller may try another decoder), a match yields the typed header and
//! body fields read in big-endian.

pub mod check;

use vstd::prelude::*;
use crate::bytes::{
    from_be, lemma_be_bytes_len, lemma_from_be_be_bytes, lemma_from_be_bounds, lemma_pow256_values,
    read_be,
};
use crate::data;
use crate::packet::{Meta, RAndOpcode, HEADER_LEN, LEN, MAP_LEN};

verus! {

/// The meta bytes of a buffer: its version and direction/opcode byte.
pub open spec fn spec_meta(s: Seq<u8>) -> Meta
    recommends
        s.len() >= 2,
{
    Meta { version: s[0], r_and_opcode: RAndOpcode(s[1]) }
}

/// The fields a matching `MAP` request buffer decodes to, or `None` when
/// the buffer is not a `MAP` request.
pub open spec fn spec_decode_map_request(s: Seq<u8>) -> Option<
    (data::request::Header, data::request::MapBody),
>
    recommends
        s.len() == LEN,
{
    if !check::spec_meta_matches(spec_meta(s), false, crate::consts::opcode::MAP) {
        None
    } else {
        Some(
            (
                data::request::Header {
                    requested_lifetime: from_be(s.subrange(4, 8)) as u32,
                    client_ip_address: from_be(s.subrange(8, 24)) as u128,
                },
                data::request::MapBody {
                    mapping_nonce: from_be(s.subrange(24, 36)) as u128,
                    protocol: s[36],
                    internal_port: from_be(s.subrange(40, 42)) as u16,
                    suggested_external_port: from_be(s.subrange(42, 44)) as u16,
                    suggested_external_ip_address: from_be(s.subrange(44, 60)) as u128,
                },
            ),
        )
    }
}

/// The fields a matching `MAP` response buffer decodes to, or `None` when
/// the buffer is not a `MAP` response.
pub open spec fn spec_decode_map_response(s: Seq<u8>) -> Option<
    (data::response::Header, data::response::MapBody),
>
    recommends
        s.len() == LEN,
{
    if !check::spec_meta_matches(spec_meta(s), true, crate::consts::opcode::MAP) {
        None
    } else {
        Some(
            (
                data::response::Header {
                    result_code: s[3],
                    lifetime: from_be(s.subrange(4, 8)) as u32,
                    epoch_time: from_be(s.subrange(8, 12)) as u32,
                },
                data::response::MapBody {
                    mapping_nonce: from_be(s.subrange(24, 36)) as u128,
                    protocol: s[36],
                    internal_port: from_be(s.subrange(40, 42)) as u16,
                    assigned_external_port: from_be(s.subrange(42, 44)) as u16,
                    assigned_external_ip_address: from_be(s.subrange(44, 60)) as u128,
                },
            ),
        )
    }
}

/// A decoder over a received full-size buffer.
pub struct State<'p> {
    pub packet: &'p Vec<u8>,
}

impl<'p> State<'p> {
    /// The decoder looks at a full-size buffer.
    pub open spec fn wf(&self) -> bool {
        self.packet@.len() == LEN
    }

    pub fn new(packet: &'p Vec<u8>) -> (r: Self)
        requires
            packet@.len() == LEN,
        ensures
            r.packet == packet,
            r.wf(),
    {
        Self { packet }
    }

    /// The version and direction/opcode bytes of the buffer.
    pub fn meta(&self) -> (r: Meta)
        requires
            self.wf(),
        ensures
            r == spec_meta(self.packet@),
    {
        Meta { version: self.packet[0], r_and_opcode: RAndOpcode(self.packet[1]) }
    }

    /// Decode the buffer as a `MAP` request.
    pub fn map_request_data(&self) -> (r: Option<
        (data::request::Header, data::request::MapBody),
    >)
        requires
            self.wf(),
        ensures
            r == spec_decode_map_request(self.packet@),
    {
        let meta = self.meta();
        if !check::meta(&meta, false, crate::consts::opcode::MAP) {
            return None;
        }

        proof {
            lemma_pow256_values();
            lemma_from_be_bounds(self.packet@.subrange(4, 8));
            lemma_from_be_bounds(self.packet@.subrange(8, 24));
            lemma_from_be_bounds(self.packet@.subrange(24, 36));
            lemma_from_be_bounds(self.packet@.subrange(40, 42));
            lemma_from_be_bounds(self.packet@.subrange(42, 44));
            lemma_from_be_bounds(self.packet@.subrange(44, 60));
        }

        let header = data::request::Header {
            requested_lifetime: read_be(self.packet, 4, 4) as u32,
            client_ip_address: read_be(self.packet, 8, 16),
        };
        let body = data::request::MapBody {
            mapping_nonce: read_be(self.packet, 24, 12),
            protocol: self.packet[36],
            internal_port: read_be(self.packet, 40, 2) as u16,
            suggested_external_port: read_be(self.packet, 42, 2) as u16,
            suggested_external_ip_address: read_be(self.packet, 44, 16),
        };

        Some((header, body))
    }

    /// Decode the buffer as a `MAP` response.
    pub fn map_response_data(&self) -> (r: Option<
        (data::response::Header, data::response::MapBody),
    >)
        requires
            self.wf(),
        ensures
            r == spec_decode_map_response(self.packet@),
    {
        let meta = self.meta();
        if !check::meta(&meta, true, crate::consts::opcode::MAP) {
            return None;
        }

        proof {
            lemma_pow256_values();
            lemma_from_be_bounds(self.packet@.subrange(4, 8));
            lemma_from_be_bounds(self.packet@.subrange(8, 12));
            lemma_from_be_bounds(self.packet@.subrange(24, 36));
            lemma_from_be_bounds(self.packet@.subrange(40, 42));
            lemma_from_be_bounds(self.packet@.subrange(42, 44));
            lemma_from_be_bounds(self.packet@.subrange(44, 60));
        }

        let header = data::response::Header {
            result_code: self.packet[3],
            lifetime: read_be(self.packet, 4, 4) as u32,
            epoch_time: read_be(self.packet, 8, 4) as u32,
        };
        let body = data::response::MapBody {
            mapping_nonce: read_be(self.packet, 24, 12),
            protocol: self.packet[36],
            internal_port: read_be(self.packet, 40, 2) as u16,
            assigned_external_port: read_be(self.packet, 42, 2) as u16,
            assigned_external_ip_address: read_be(self.packet, 44, 16),
        };

        Some((header, body))
    }
}

/// Decoding an encoded `MAP` request yields exactly the encoded fields.
pub proof fn lemma_map_request_roundtrip(h: data::request::Header, m: data::request::MapBody)
    requires
        crate::primitives::nonce_valid(m.mapping_nonce),
    ensures
        spec_decode_map_request(crate::encode::spec_map_request_packet(h, m)) == Some((h, m)),
{
    lemma_pow256_values();
    lemma_be_bytes_len(h.requested_lifetime as int, 4);
    lemma_be_bytes_len(h.client_ip_address as int, 16);
    lemma_be_bytes_len(m.mapping_nonce as int, 12);
    lemma_be_bytes_len(m.internal_port as int, 2);
    lemma_be_bytes_len(m.suggested_external_port as int, 2);
    lemma_be_bytes_len(m.suggested_external_ip_address as int, 16);
    let s = crate::encode::spec_map_request_packet(h, m);
    assert(s[0] == crate::consts::VERSION);
    assert(s[1] == 1);
    assert(s.subrange(4, 8) =~= crate::bytes::be_bytes(h.requested_lifetime as int, 4));
    lemma_from_be_be_bytes(h.requested_lifetime as int, 4);
    assert(s.subrange(8, 24) =~= crate::bytes::be_bytes(h.client_ip_address as int, 16));
    lemma_from_be_be_bytes(h.client_ip_address as int, 16);
    assert(s.subrange(24, 36) =~= crate::bytes::be_bytes(m.mapping_nonce as int, 12));
    lemma_from_be_be_bytes(m.mapping_nonce as int, 12);
    assert(s[36] == m.protocol);
    assert(s.subrange(40, 42) =~= crate::bytes::be_bytes(m.internal_port as int, 2));
    lemma_from_be_be_bytes(m.internal_port as int, 2);
    assert(s.subrange(42, 44) =~= crate::bytes::be_bytes(m.suggested_external_port as int, 2));
    lemma_from_be_be_bytes(m.suggested_external_port as int, 2);
    assert(s.subrange(44, 60) =~= crate::bytes::be_bytes(
        m.suggested_external_ip_address as int,
        16,
    ));
    lemma_from_be_be_bytes(m.suggested_external_ip_address as int, 16);
}

/// Decoding an encoded `MAP` response yields exactly the encoded fields.
pub proof fn lemma_map_response_roundtrip(h: data::response::Header, m: data::response::MapBody)
    requires
        crate::primitives::nonce_valid(m.mapping_nonce),
    ensures
        spec_decode_map_response(crate::encode::spec_map_response_packet(h, m)) == Some((h, m)),
{
    lemma_pow256_values();
    lemma_be_bytes_len(h.lifetime as int, 4);
    lemma_be_bytes_len(h.epoch_time as int, 4);
    lemma_be_bytes_len(m.mapping_nonce as int, 12);
    lemma_be_bytes_len(m.internal_port as int, 2);
    lemma_be_bytes_len(m.assigned_external_port as int, 2);
    lemma_be_bytes_len(m.assigned_external_ip_address as int, 16);
    let s = crate::encode::spec_map_response_packet(h, m);
    assert(s[0] == crate::consts::VERSION);
    assert(s[1] == 129);
    assert(s[3] == h.result_code);
    assert(s.subrange(4, 8) =~= crate::bytes::be_bytes(h.lifetime as int, 4));
    lemma_from_be_be_bytes(h.lifetime as int, 4);
    assert(s.subrange(8, 12) =~= crate::bytes::be_bytes(h.epoch_time as int, 4));
    lemma_from_be_be_bytes(h.epoch_time as int, 4);
    assert(s.subrange(24, 36) =~= crate::bytes::be_bytes(m.mapping_nonce as int, 12));
    lemma_from_be_be_bytes(m.mapping_nonce as int, 12);
    assert(s[36] == m.protocol);
    assert(s.subrange(40, 42) =~= crate::bytes::be_bytes(m.internal_port as int, 2));
    lemma_from_be_be_bytes(m.internal_port as int, 2);
    assert(s.subrange(42, 44) =~= crate::bytes::be_bytes(m.assigned_external_port as int, 2));
    lemma_from_be_be_bytes(m.assigned_external_port as int, 2);
    assert(s.subrange(44, 60) =~= crate::bytes::be_bytes(
        m.assigned_external_ip_address as int,
        16,
    ));
    lemma_from_be_be_bytes(m.assigned_external_ip_address as int, 16);
}

/// The encoder pads: a `MAP` request packet is full size and zero beyond
/// its written fields.
pub proof fn lemma_map_request_packet_padded(h: data::request::Header, m: data::request::MapBody)
    ensures
        crate::encode::spec_map_request_packet(h, m).len() == LEN,
        forall|j: int|
            HEADER_LEN + MAP_LEN <= j < LEN ==> crate::encode::spec_map_request_packet(h, m)[j]
                == 0u8,
{
    lemma_be_bytes_len(h.requested_lifetime as int, 4);
    lemma_be_bytes_len(h.client_ip_address as int, 16);
    lemma_be_bytes_len(m.mapping_nonce as int, 12);
    lemma_be_bytes_len(m.internal_port as int, 2);
    lemma_be_bytes_len(m.suggested_external_port as int, 2);
    lemma_be_bytes_len(m.suggested_external_ip_address as int, 16);
}

/// The encoder pads: a `MAP` response packet is full size and zero
/// beyond its written fields.
pub proof fn lemma_map_response_packet_padded(h: data::response::Header, m: data::response::MapBody)
    ensures
        crate::encode::spec_map_response_packet(h, m).len() == LEN,
        forall|j: int|
            HEADER_LEN + MAP_LEN <= j < LEN ==> crate::encode::spec_map_response_packet(h, m)[j]
                == 0u8,
{
    lemma_be_bytes_len(h.lifetime as int, 4);
    lemma_be_bytes_len(h.epoch_time as int, 4);
    lemma_be_bytes_len(m.mapping_nonce as int, 12);
    lemma_be_bytes_len(m.internal_port as int, 2);
    lemma_be_bytes_len(m.assigned_external_port as int, 2);
    lemma_be_bytes_len(m.assigned_external_ip_address as int, 16);
}

} // verus!
