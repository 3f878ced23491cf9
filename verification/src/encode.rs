//! The staged PCP packet encoder.
//!
//! A packet is built in stages: obtain a zeroed buffer ([`NeedsR`]), choose
//! the direction ([`NeedsRequestOpcode`] or [`NeedsResponseOpcode`]), write
//! an opcode-specific header and body, then add zero or more options and
//! [`NeedsOptions::finish`]. Each stage's contract pins every byte of the
//! buffer, so the finished packet is exactly the specification-level byte
//! string of its fields.

use vstd::prelude::*;
use crate::bytes::{be_bytes, lemma_be_bytes_len, lemma_pow256_values, write_be, write_bytes, zeros};
use crate::data;
use crate::packet::{spec_r_and_opcode, HEADER_LEN, IS_RESPONSE_BIT, LEN, MAP_LEN};
use crate::primitives::{nonce_valid, Opcode, OptionCode};

verus! {

/// A byte string extended with zeros to the fixed packet size.
pub open spec fn pad_to_packet(s: Seq<u8>) -> Seq<u8>
    recommends
        s.len() <= LEN,
{
    s + zeros((LEN - s.len()) as nat)
}

/// The 24 header bytes of a request with the given opcode.
pub open spec fn spec_request_header(h: data::request::Header, opcode: Opcode) -> Seq<u8>
    recommends
        opcode < IS_RESPONSE_BIT,
{
    seq![crate::consts::VERSION, spec_r_and_opcode(false, opcode), 0u8, 0u8] + be_bytes(
        h.requested_lifetime as int,
        4,
    ) + be_bytes(h.client_ip_address as int, 16)
}

/// The 24 header bytes of a response with the given opcode.
pub open spec fn spec_response_header(h: data::response::Header, opcode: Opcode) -> Seq<u8>
    recommends
        opcode < IS_RESPONSE_BIT,
{
    seq![crate::consts::VERSION, spec_r_and_opcode(true, opcode), 0u8, h.result_code] + be_bytes(
        h.lifetime as int,
        4,
    ) + be_bytes(h.epoch_time as int, 4) + zeros(12)
}

/// The 36 body bytes of a `MAP` request.
pub open spec fn spec_map_request_body(m: data::request::MapBody) -> Seq<u8>
    recommends
        nonce_valid(m.mapping_nonce),
{
    be_bytes(m.mapping_nonce as int, 12) + seq![m.protocol, 0u8, 0u8, 0u8] + be_bytes(
        m.internal_port as int,
        2,
    ) + be_bytes(m.suggested_external_port as int, 2) + be_bytes(
        m.suggested_external_ip_address as int,
        16,
    )
}

/// The 36 body bytes of a `MAP` response.
pub open spec fn spec_map_response_body(m: data::response::MapBody) -> Seq<u8>
    recommends
        nonce_valid(m.mapping_nonce),
{
    be_bytes(m.mapping_nonce as int, 12) + seq![m.protocol, 0u8, 0u8, 0u8] + be_bytes(
        m.internal_port as int,
        2,
    ) + be_bytes(m.assigned_external_port as int, 2) + be_bytes(
        m.assigned_external_ip_address as int,
        16,
    )
}

/// The 4 header bytes of an option.
pub open spec fn spec_option_header(option_code: OptionCode, length: u16) -> Seq<u8> {
    seq![option_code, 0u8] + be_bytes(length as int, 2)
}

/// The full wire packet of a `MAP` request.
pub open spec fn spec_map_request_packet(h: data::request::Header, m: data::request::MapBody) -> Seq<
    u8,
> {
    pad_to_packet(spec_request_header(h, crate::consts::opcode::MAP) + spec_map_request_body(m))
}

/// The full wire packet of a `MAP` response.
pub open spec fn spec_map_response_packet(h: data::response::Header, m: data::response::MapBody) -> Seq<
    u8,
> {
    pad_to_packet(spec_response_header(h, crate::consts::opcode::MAP) + spec_map_response_body(m))
}

/// A fresh all-zero packet buffer.
fn zeroed_packet_buffer() -> (r: Vec<u8>)
    ensures
        r@ =~= zeros(LEN as nat),
{
    let mut buf: Vec<u8> = Vec::new();
    let mut i: usize = 0;
    while i < LEN
        invariant
            i <= LEN,
            buf@ =~= zeros(i as nat),
        decreases LEN - i,
    {
        buf.push(0u8);
        proof {
            assert(buf@ =~= zeros((i + 1) as nat));
        }
        i = i + 1;
    }
    buf
}

/// The first stage: a zeroed buffer that still needs its direction.
pub struct NeedsR {
    pub packet: Vec<u8>,
}

/// The second stage of a request: the buffer needs an opcode.
pub struct NeedsRequestOpcode {
    pub packet: Vec<u8>,
}

/// The second stage of a response: the buffer needs an opcode.
pub struct NeedsResponseOpcode {
    pub packet: Vec<u8>,
}

/// The last stage: header and body stand in the buffer; options may follow.
pub struct NeedsOptions {
    pub packet: Vec<u8>,
    pub next_option_offset: usize,
}

impl NeedsR {
    /// The stage invariant: a full-size, still all-zero buffer.
    pub open spec fn wf(&self) -> bool {
        self.packet@ == zeros(LEN as nat)
    }

    /// Start encoding into a fresh buffer.
    pub fn new_owned() -> (r: Self)
        ensures
            r.wf(),
    {
        Self { packet: zeroed_packet_buffer() }
    }

    /// Start encoding into a caller-supplied buffer, first zeroing it.
    pub fn new(packet: Vec<u8>) -> (r: Self)
        requires
            packet@.len() == LEN,
        ensures
            r.wf(),
    {
        let mut packet = packet;
        let mut i: usize = 0;
        while i < LEN
            invariant
                i <= LEN,
                packet@.len() == LEN,
                forall|j: int| 0 <= j < i ==> packet@[j] == 0u8,
            decreases LEN - i,
        {
            packet.set(i, 0u8);
            i = i + 1;
        }
        proof {
            assert(packet@ =~= zeros(LEN as nat));
        }
        Self { packet }
    }

    /// Adopt a buffer the caller shows to be zeroed already.
    pub fn from_zeroed_unchecked(packet: Vec<u8>) -> (r: Self)
        requires
            packet@ == zeros(LEN as nat),
        ensures
            r.wf(),
    {
        Self { packet }
    }

    /// Encode a request.
    pub fn request(self) -> (r: NeedsRequestOpcode)
        requires
            self.wf(),
        ensures
            r.wf(),
    {
        NeedsRequestOpcode { packet: self.packet }
    }

    /// Encode a response.
    pub fn response(self) -> (r: NeedsResponseOpcode)
        requires
            self.wf(),
        ensures
            r.wf(),
    {
        NeedsResponseOpcode { packet: self.packet }
    }
}

impl NeedsRequestOpcode {
    /// The stage invariant: a full-size, still all-zero buffer.
    pub open spec fn wf(&self) -> bool {
        self.packet@ == zeros(LEN as nat)
    }

    /// Write the request header and an arbitrary opcode body. An opcode
    /// that would collide with the `R` bit is refused and the stage handed
    /// back unchanged.
    pub fn opcode(self, request_header: data::request::Header, opcode: Opcode, opcode_data: &Vec<u8>)
        -> (r: Result<NeedsOptions, Self>)
        requires
            self.wf(),
            opcode_data@.len() <= LEN - HEADER_LEN,
        ensures
            opcode >= IS_RESPONSE_BIT <==> r is Err,
            r is Err ==> r->Err_0 == self,
            r is Ok ==> ({
                let out = r->Ok_0;
                &&& out.wf()
                &&& out.packet@ == pad_to_packet(
                    spec_request_header(request_header, opcode) + opcode_data@,
                )
                &&& out.next_option_offset == HEADER_LEN + opcode_data@.len()
            }),
    {
        if opcode >= IS_RESPONSE_BIT {
            return Err(self);
        }

        let mut packet = self.packet;
        write_request_header(&mut packet, request_header, opcode);
        write_bytes(&mut packet, HEADER_LEN, opcode_data);
        let next_option_offset: usize = HEADER_LEN + opcode_data.len();
        proof {
            lemma_header_spec_len();
            assert(packet@ =~= pad_to_packet(
                spec_request_header(request_header, opcode) + opcode_data@,
            ));
        }
        Ok(NeedsOptions { packet, next_option_offset })
    }

    /// Write the request header and a `MAP` request body.
    pub fn map(self, request_header: data::request::Header, request_data: data::request::MapBody) -> (r:
        NeedsOptions)
        requires
            self.wf(),
            nonce_valid(request_data.mapping_nonce),
        ensures
            r.wf(),
            r.packet@ == spec_map_request_packet(request_header, request_data),
            r.next_option_offset == HEADER_LEN + MAP_LEN,
    {
        let mut packet = self.packet;
        write_request_header(&mut packet, request_header, crate::consts::opcode::MAP);
        write_map_request_body(&mut packet, request_data);
        proof {
            lemma_header_spec_len();
            lemma_body_spec_len();
            assert(packet@ =~= spec_map_request_packet(request_header, request_data));
        }
        NeedsOptions { packet, next_option_offset: HEADER_LEN + MAP_LEN }
    }
}

impl NeedsResponseOpcode {
    /// The stage invariant: a full-size, still all-zero buffer.
    pub open spec fn wf(&self) -> bool {
        self.packet@ == zeros(LEN as nat)
    }

    /// Write the response header and an arbitrary opcode body. An opcode
    /// that would collide with the `R` bit is refused and the stage handed
    /// back unchanged.
    pub fn opcode(
        self,
        response_header: data::response::Header,
        opcode: Opcode,
        opcode_data: &Vec<u8>,
    ) -> (r: Result<NeedsOptions, Self>)
        requires
            self.wf(),
            opcode_data@.len() <= LEN - HEADER_LEN,
        ensures
            opcode >= IS_RESPONSE_BIT <==> r is Err,
            r is Err ==> r->Err_0 == self,
            r is Ok ==> ({
                let out = r->Ok_0;
                &&& out.wf()
                &&& out.packet@ == pad_to_packet(
                    spec_response_header(response_header, opcode) + opcode_data@,
                )
                &&& out.next_option_offset == HEADER_LEN + opcode_data@.len()
            }),
    {
        if opcode >= IS_RESPONSE_BIT {
            return Err(self);
        }

        let mut packet = self.packet;
        write_response_header(&mut packet, response_header, opcode);
        write_bytes(&mut packet, HEADER_LEN, opcode_data);
        let next_option_offset: usize = HEADER_LEN + opcode_data.len();
        proof {
            lemma_header_spec_len();
            assert(packet@ =~= pad_to_packet(
                spec_response_header(response_header, opcode) + opcode_data@,
            ));
        }
        Ok(NeedsOptions { packet, next_option_offset })
    }

    /// Write the response header and a `MAP` response body.
    pub fn map(
        self,
        response_header: data::response::Header,
        response_data: data::response::MapBody,
    ) -> (r: NeedsOptions)
        requires
            self.wf(),
            nonce_valid(response_data.mapping_nonce),
        ensures
            r.wf(),
            r.packet@ == spec_map_response_packet(response_header, response_data),
            r.next_option_offset == HEADER_LEN + MAP_LEN,
    {
        let mut packet = self.packet;
        write_response_header(&mut packet, response_header, crate::consts::opcode::MAP);
        write_map_response_body(&mut packet, response_data);
        proof {
            lemma_header_spec_len();
            lemma_body_spec_len();
            assert(packet@ =~= spec_map_response_packet(response_header, response_data));
        }
        NeedsOptions { packet, next_option_offset: HEADER_LEN + MAP_LEN }
    }
}

impl NeedsOptions {
    /// The stage invariant: a full-size buffer whose bytes from
    /// `next_option_offset` on are still zero.
    pub open spec fn wf(&self) -> bool {
        &&& self.packet@.len() == LEN
        &&& HEADER_LEN <= self.next_option_offset <= LEN
        &&& forall|j: int|
            self.next_option_offset <= j < LEN ==> self.packet@[j] == 0u8
    }

    /// Append one option: its 4-byte header, then its payload.
    pub fn add_option(self, option_code: OptionCode, option_data: &Vec<u8>) -> (r: Self)
        requires
            self.wf(),
            self.next_option_offset + crate::packet::OPTION_HEADER_LEN + option_data@.len() <= LEN,
        ensures
            r.wf(),
            r.packet@ == pad_to_packet(
                self.packet@.take(self.next_option_offset as int) + spec_option_header(
                    option_code,
                    option_data@.len() as u16,
                ) + option_data@,
            ),
            r.next_option_offset == self.next_option_offset + crate::packet::OPTION_HEADER_LEN
                + option_data@.len(),
    {
        let offset = self.next_option_offset;
        let mut packet = self.packet;
        packet.set(offset, option_code);
        packet.set(offset + 1, 0u8);
        proof {
            lemma_pow256_values();
        }
        write_be(&mut packet, offset + 2, 2, option_data.len() as u128);
        write_bytes(&mut packet, offset + 4, option_data);
        let next_option_offset: usize = offset + 4 + option_data.len();
        proof {
            lemma_be_bytes_len(option_data@.len() as int, 2);
            assert(packet@ =~= pad_to_packet(
                self.packet@.take(offset as int) + spec_option_header(
                    option_code,
                    option_data@.len() as u16,
                ) + option_data@,
            ));
        }
        NeedsOptions { packet, next_option_offset }
    }

    /// Yield the finished fixed-size packet.
    pub fn finish(self) -> (r: Vec<u8>)
        requires
            self.wf(),
        ensures
            r@ == self.packet@,
            r@.len() == LEN,
    {
        self.packet
    }
}

proof fn lemma_header_spec_len()
    ensures
        forall|h: data::request::Header, opcode: Opcode|
            (#[trigger] spec_request_header(h, opcode)).len() == HEADER_LEN,
        forall|h: data::response::Header, opcode: Opcode|
            (#[trigger] spec_response_header(h, opcode)).len() == HEADER_LEN,
{
    assert forall|h: data::request::Header, opcode: Opcode|
        (#[trigger] spec_request_header(h, opcode)).len() == HEADER_LEN by {
        lemma_be_bytes_len(h.requested_lifetime as int, 4);
        lemma_be_bytes_len(h.client_ip_address as int, 16);
    }
    assert forall|h: data::response::Header, opcode: Opcode|
        (#[trigger] spec_response_header(h, opcode)).len() == HEADER_LEN by {
        lemma_be_bytes_len(h.lifetime as int, 4);
        lemma_be_bytes_len(h.epoch_time as int, 4);
    }
}

proof fn lemma_body_spec_len()
    ensures
        forall|m: data::request::MapBody| (#[trigger] spec_map_request_body(m)).len() == MAP_LEN,
        forall|m: data::response::MapBody| (#[trigger] spec_map_response_body(m)).len() == MAP_LEN,
{
    assert forall|m: data::request::MapBody| (#[trigger] spec_map_request_body(m)).len() == MAP_LEN by {
        lemma_be_bytes_len(m.mapping_nonce as int, 12);
        lemma_be_bytes_len(m.internal_port as int, 2);
        lemma_be_bytes_len(m.suggested_external_port as int, 2);
        lemma_be_bytes_len(m.suggested_external_ip_address as int, 16);
    }
    assert forall|m: data::response::MapBody|
        (#[trigger] spec_map_response_body(m)).len() == MAP_LEN by {
        lemma_be_bytes_len(m.mapping_nonce as int, 12);
        lemma_be_bytes_len(m.internal_port as int, 2);
        lemma_be_bytes_len(m.assigned_external_port as int, 2);
        lemma_be_bytes_len(m.assigned_external_ip_address as int, 16);
    }
}

/// Write the 24 request header bytes at the start of the buffer.
fn write_request_header(buf: &mut Vec<u8>, h: data::request::Header, opcode: Opcode)
    requires
        old(buf)@.len() == LEN,
        opcode < IS_RESPONSE_BIT,
    ensures
        final(buf)@ =~= spec_request_header(h, opcode) + old(buf)@.skip(HEADER_LEN as int),
        final(buf)@.len() == LEN,
{
    buf.set(0, crate::consts::VERSION);
    buf.set(1, opcode);
    buf.set(2, 0u8);
    buf.set(3, 0u8);
    proof {
        lemma_pow256_values();
    }
    write_be(buf, 4, 4, h.requested_lifetime as u128);
    write_be(buf, 8, 16, h.client_ip_address);
    proof {
        lemma_be_bytes_len(h.requested_lifetime as int, 4);
        lemma_be_bytes_len(h.client_ip_address as int, 16);
    }
}

/// Write the 24 response header bytes at the start of the buffer.
fn write_response_header(buf: &mut Vec<u8>, h: data::response::Header, opcode: Opcode)
    requires
        old(buf)@.len() == LEN,
        opcode < IS_RESPONSE_BIT,
        forall|j: int| 12 <= j < HEADER_LEN ==> old(buf)@[j] == 0u8,
    ensures
        final(buf)@ =~= spec_response_header(h, opcode) + old(buf)@.skip(HEADER_LEN as int),
        final(buf)@.len() == LEN,
{
    buf.set(0, crate::consts::VERSION);
    buf.set(1, opcode + IS_RESPONSE_BIT);
    buf.set(2, 0u8);
    buf.set(3, h.result_code);
    proof {
        lemma_pow256_values();
    }
    write_be(buf, 4, 4, h.lifetime as u128);
    write_be(buf, 8, 4, h.epoch_time as u128);
    proof {
        lemma_be_bytes_len(h.lifetime as int, 4);
        lemma_be_bytes_len(h.epoch_time as int, 4);
    }
}

/// Write the 36 `MAP` request body bytes after the header.
fn write_map_request_body(buf: &mut Vec<u8>, m: data::request::MapBody)
    requires
        old(buf)@.len() == LEN,
        nonce_valid(m.mapping_nonce),
        forall|j: int| 37 <= j < 40 ==> old(buf)@[j] == 0u8,
    ensures
        final(buf)@ =~= old(buf)@.take(HEADER_LEN as int) + spec_map_request_body(m) + old(
            buf,
        )@.skip((HEADER_LEN + MAP_LEN) as int),
        final(buf)@.len() == LEN,
{
    proof {
        lemma_pow256_values();
    }
    write_be(buf, 24, 12, m.mapping_nonce);
    buf.set(36, m.protocol);
    write_be(buf, 40, 2, m.internal_port as u128);
    write_be(buf, 42, 2, m.suggested_external_port as u128);
    write_be(buf, 44, 16, m.suggested_external_ip_address);
    proof {
        lemma_be_bytes_len(m.mapping_nonce as int, 12);
        lemma_be_bytes_len(m.internal_port as int, 2);
        lemma_be_bytes_len(m.suggested_external_port as int, 2);
        lemma_be_bytes_len(m.suggested_external_ip_address as int, 16);
    }
}

/// Write the 36 `MAP` response body bytes after the header.
fn write_map_response_body(buf: &mut Vec<u8>, m: data::response::MapBody)
    requires
        old(buf)@.len() == LEN,
        nonce_valid(m.mapping_nonce),
        forall|j: int| 37 <= j < 40 ==> old(buf)@[j] == 0u8,
    ensures
        final(buf)@ =~= old(buf)@.take(HEADER_LEN as int) + spec_map_response_body(m) + old(
            buf,
        )@.skip((HEADER_LEN + MAP_LEN) as int),
        final(buf)@.len() == LEN,
{
    proof {
        lemma_pow256_values();
    }
    write_be(buf, 24, 12, m.mapping_nonce);
    buf.set(36, m.protocol);
    write_be(buf, 40, 2, m.internal_port as u128);
    write_be(buf, 42, 2, m.assigned_external_port as u128);
    write_be(buf, 44, 16, m.assigned_external_ip_address);
    proof {
        lemma_be_bytes_len(m.mapping_nonce as int, 12);
        lemma_be_bytes_len(m.internal_port as int, 2);
        lemma_be_bytes_len(m.assigned_external_port as int, 2);
        lemma_be_bytes_len(m.assigned_external_ip_address as int, 16);
    }
}

} // verus!
