//! The PCP client engine state.
//!
//! The engine owns the mapping table: one lifecycle [`State`] per mapping
//! identity. The functions here are the engine's decisions — what to send,
//! what a received packet means, what a command changes. The surrounding
//! event loop performs the I/O: it encodes and transmits what
//! [`Client::reconcile_collect`] hands out, feeds received buffers to
//! [`Client::apply_incoming`], forwards notifications, and evicts stale
//! identities with [`Client::evict_stale_except`] after the sends.

use vstd::prelude::*;
use crate::encode::{
    pad_to_packet, spec_map_request_body, spec_request_header, NeedsR,
};
use crate::lifecycle::State;
use crate::mapping::{Id, Incoming, Mapping};
use crate::packet::LEN;
use crate::primitives::{nonce_valid, Address};

verus! {

/// A command for the engine.
#[derive(Debug)]
pub enum Command {
    /// Insert or update the desired mapping of its identity's state, then
    /// reconcile.
    UpsertDesired(Mapping),
    /// Mark the identity's desired mapping for cleanup, then reconcile.
    RemoveDesired(Id),
    /// Ask whether the identity still has state in the table.
    HasState(Id),
    /// Ask for the identity's current effective report.
    GetEffective(Id),
}

/// The value a command asks back, if it asks one.
#[derive(Debug, Clone, Copy, PartialEq, Eq)]
pub enum Reply {
    /// The answer to [`Command::HasState`].
    HasState(bool),
    /// The answer to [`Command::GetEffective`].
    Effective(Option<Incoming>),
}

/// One `MAP` request a reconciliation pass owes the server: the table
/// identity it belongs to and the mapping to encode.
#[derive(Debug, Clone, Copy, PartialEq, Eq)]
pub struct SendItem {
    /// The table identity the request belongs to.
    pub id: Id,
    /// The mapping whose fields the request carries.
    pub mapping: Mapping,
}

/// What an inbound buffer meant.
#[derive(Debug, Clone, Copy, PartialEq, Eq)]
pub enum ApplyOutcome {
    /// Not a `MAP` response; the buffer is dropped silently.
    NotMapResponse,
    /// A `MAP` response for an identity the table does not hold; the
    /// notification is still emitted.
    UnknownMapping(Incoming),
    /// A `MAP` response applied to its identity's state; the notification
    /// is emitted and a reconciliation pass is due.
    Applied(Incoming),
}

/// No two table entries hold the same identity.
pub open spec fn ids_unique(s: Seq<(Id, State)>) -> bool {
    forall|i: int, j: int| 0 <= i < j < s.len() ==> (#[trigger] s[i]).0 != (#[trigger] s[j]).0
}

/// Whether the table holds the identity.
pub open spec fn has_id(s: Seq<(Id, State)>, id: Id) -> bool {
    exists|i: int| 0 <= i < s.len() && (#[trigger] s[i]).0 == id
}

/// The index holding the identity; with unique identities it is the only
/// one.
pub open spec fn index_of(s: Seq<(Id, State)>, id: Id) -> int {
    choose|i: int| 0 <= i < s.len() && (#[trigger] s[i]).0 == id
}

/// Every mapping a state stores carries a valid 96-bit nonce, so each can
/// be encoded.
pub open spec fn state_nonces_valid(st: State) -> bool {
    &&& (st.spec_desired() matches Some(m) ==> nonce_valid(m.id.nonce))
    &&& forall|j: int|
        0 <= j < st.spec_cleanup_queue().len() ==> nonce_valid(
            (#[trigger] st.spec_cleanup_queue()[j]).id.nonce,
        )
}

/// How `update_desired` changes a state.
pub open spec fn state_updated(old_st: State, new_st: State, mapping: Mapping) -> bool {
    &&& new_st.spec_desired() == Some(mapping)
    &&& new_st.spec_effective() == old_st.spec_effective()
    &&& new_st.spec_cleanup_queue() == (match old_st.spec_desired() {
        None => old_st.spec_cleanup_queue(),
        Some(old_mapping) => {
            if old_mapping.spec_same_mapping_instance(mapping) {
                old_st.spec_cleanup_queue()
            } else {
                old_st.spec_cleanup_queue().push(old_mapping.spec_into_cleanup())
            }
        },
    })
}

/// How `remove_desired` changes a state.
pub open spec fn state_removed(old_st: State, new_st: State) -> bool {
    &&& new_st.spec_desired() is None
    &&& new_st.spec_effective() == old_st.spec_effective()
    &&& new_st.spec_cleanup_queue() == (match old_st.spec_desired() {
        None => old_st.spec_cleanup_queue(),
        Some(old_mapping) => old_st.spec_cleanup_queue().push(old_mapping.spec_into_cleanup()),
    })
}

/// How `handle_server_notification` changes a state.
pub open spec fn state_notified(old_st: State, new_st: State, incoming: Incoming) -> bool {
    &&& new_st.spec_desired() == old_st.spec_desired()
    &&& new_st.spec_cleanup_queue() == (if incoming.spec_is_cleanup() {
        old_st.spec_cleanup_queue().filter(
            |m: Mapping| !incoming.spec_same_exposed_resource(m),
        )
    } else {
        old_st.spec_cleanup_queue()
    })
    &&& new_st.spec_effective() == ({
        let matched = old_st.spec_desired() is Some && incoming.spec_same_exposed_resource(
            old_st.spec_desired()->0,
        );
        let updated = if matched {
            Some(incoming)
        } else {
            old_st.spec_effective()
        };
        if new_st.spec_is_stale() {
            None
        } else {
            updated
        }
    })
}

/// The delete requests one table entry owes, paired with its identity.
pub open spec fn cleanup_items(e: (Id, State)) -> Seq<SendItem> {
    e.1.spec_cleanup_queue().map_values(|m: Mapping| SendItem { id: e.0, mapping: m })
}

/// Every queued delete of every entry, in table order.
pub open spec fn spec_cleanup_sends(s: Seq<(Id, State)>) -> Seq<SendItem>
    decreases s.len(),
{
    if s.len() == 0 {
        Seq::empty()
    } else {
        spec_cleanup_sends(s.drop_last()) + cleanup_items(s.last())
    }
}

/// Every desired renewal, in table order.
pub open spec fn spec_renew_sends(s: Seq<(Id, State)>) -> Seq<SendItem>
    decreases s.len(),
{
    if s.len() == 0 {
        Seq::empty()
    } else {
        spec_renew_sends(s.drop_last()) + (match s.last().1.spec_desired() {
            Some(m) => seq![SendItem { id: s.last().0, mapping: m }],
            None => Seq::empty(),
        })
    }
}

/// The wire packet a mapping's `MAP` request carries: its header and body
/// fields, and the `PREFER_FAILURE` option when the mapping asks for it.
pub open spec fn spec_request_packet(m: Mapping) -> Seq<u8>
    recommends
        nonce_valid(m.id.nonce),
{
    let header = crate::data::request::Header {
        requested_lifetime: m.params.lifetime,
        client_ip_address: m.id.internal_ip,
    };
    let body = crate::data::request::MapBody {
        mapping_nonce: m.id.nonce,
        protocol: m.id.protocol,
        internal_port: m.id.internal_port,
        suggested_external_port: m.params.external_port,
        suggested_external_ip_address: m.params.external_ip,
    };
    match m.params.prefer_failure {
        None => crate::encode::spec_map_request_packet(header, body),
        Some(pf) => pad_to_packet(
            spec_request_header(header, crate::consts::opcode::MAP) + spec_map_request_body(body)
                + crate::encode::spec_option_header(spec_prefer_failure_code(pf), 0),
        ),
    }
}

/// The option code byte of a `PREFER_FAILURE` option: code 2, with the
/// most significant bit set when handling it is optional for the server.
pub open spec fn spec_prefer_failure_code(pf: crate::mapping::option::PreferFailure) -> u8 {
    if pf.is_optional {
        (crate::consts::option::PREFER_FAILURE + 128) as u8
    } else {
        crate::consts::option::PREFER_FAILURE
    }
}

/// Encode one mapping's `MAP` request.
pub fn encode_request(mapping: &Mapping) -> (r: Vec<u8>)
    requires
        nonce_valid(mapping.id.nonce),
    ensures
        r@ == spec_request_packet(*mapping),
        r@.len() == LEN,
{
    let header = crate::data::request::Header {
        requested_lifetime: mapping.params.lifetime,
        client_ip_address: mapping.id.internal_ip,
    };
    let body = crate::data::request::MapBody {
        mapping_nonce: mapping.id.nonce,
        protocol: mapping.id.protocol,
        internal_port: mapping.id.internal_port,
        suggested_external_port: mapping.params.external_port,
        suggested_external_ip_address: mapping.params.external_ip,
    };
    let staged = NeedsR::new_owned().request().map(header, body);
    match mapping.params.prefer_failure {
        Some(pf) => {
            let option_code: u8 = if pf.is_optional {
                crate::consts::option::PREFER_FAILURE + 128
            } else {
                crate::consts::option::PREFER_FAILURE
            };
            let no_payload: Vec<u8> = Vec::new();
            let staged = staged.add_option(option_code, &no_payload);
            let packet = staged.finish();
            proof {
                let fields = spec_request_header(header, crate::consts::opcode::MAP)
                    + spec_map_request_body(body);
                crate::bytes::lemma_be_bytes_len(header.requested_lifetime as int, 4);
                crate::bytes::lemma_be_bytes_len(header.client_ip_address as int, 16);
                crate::bytes::lemma_be_bytes_len(body.mapping_nonce as int, 12);
                crate::bytes::lemma_be_bytes_len(body.internal_port as int, 2);
                crate::bytes::lemma_be_bytes_len(body.suggested_external_port as int, 2);
                crate::bytes::lemma_be_bytes_len(body.suggested_external_ip_address as int, 16);
                assert(crate::encode::spec_map_request_packet(header, body).take(60) =~= fields);
                assert(no_payload@ =~= Seq::<u8>::empty());
                assert(packet@ =~= pad_to_packet(
                    fields + crate::encode::spec_option_header(option_code, 0),
                ));
            }
            packet
        },
        None => staged.finish(),
    }
}

/// Two `MAP` requests built from the same identity and the same
/// parameters are byte-identical packets.
pub proof fn lemma_request_encoding_deterministic(a: Mapping, b: Mapping)
    requires
        a.id == b.id,
        a.params == b.params,
    ensures
        spec_request_packet(a) == spec_request_packet(b),
{
    assert(a == b);
}

/// Whether the list holds the identity.
fn contains_id(ids: &Vec<Id>, id: &Id) -> (r: bool)
    ensures
        r == ids@.contains(*id),
{
    let mut i: usize = 0;
    while i < ids.len()
        invariant
            i <= ids@.len(),
            forall|j: int| 0 <= j < i ==> ids@[j] != *id,
        decreases ids@.len() - i,
    {
        if ids[i] == *id {
            proof {
                assert(ids@[i as int] == *id);
            }
            return true;
        }
        i = i + 1;
    }
    false
}

/// All but the entry at `i` are unchanged, and that entry keeps its
/// identity.
pub open spec fn only_entry_changed(
    old_s: Seq<(Id, State)>,
    new_s: Seq<(Id, State)>,
    i: int,
) -> bool {
    &&& new_s.len() == old_s.len()
    &&& new_s[i].0 == old_s[i].0
    &&& forall|j: int| 0 <= j < old_s.len() && j != i ==> new_s[j] == old_s[j]
}

/// The PCP client engine: the mapping table.
pub struct Client {
    mappings: Vec<(Id, State)>,
}

impl Client {
    /// The mapping table: one lifecycle state per identity, in insertion
    /// order.
    pub closed spec fn spec_mappings(&self) -> Seq<(Id, State)> {
        self.mappings@
    }

    /// Whether the table holds the identity.
    pub open spec fn spec_contains(&self, id: Id) -> bool {
        has_id(self.spec_mappings(), id)
    }

    /// The table invariant: unique identities, each state well-formed with
    /// encodable nonces.
    pub open spec fn wf(&self) -> bool {
        &&& ids_unique(self.spec_mappings())
        &&& forall|i: int|
            0 <= i < self.spec_mappings().len() ==> (#[trigger] self.spec_mappings()[i]).1.wf()
        &&& forall|i: int|
            0 <= i < self.spec_mappings().len() ==> state_nonces_valid(
                (#[trigger] self.spec_mappings()[i]).1,
            )
    }

    /// An engine with an empty mapping table.
    pub fn new() -> (r: Self)
        ensures
            r.spec_mappings() == Seq::<(Id, State)>::empty(),
            r.wf(),
    {
        let mappings: Vec<(Id, State)> = Vec::new();
        proof {
            assert(mappings@ =~= Seq::<(Id, State)>::empty());
        }
        Self { mappings }
    }

    /// The index of the identity in the table, if present.
    fn find_index(&self, id: Id) -> (r: Option<usize>)
        ensures
            match r {
                Some(i) => i < self.spec_mappings().len() && self.spec_mappings()[i as int].0 == id,
                None => !self.spec_contains(id),
            },
    {
        let mut i: usize = 0;
        while i < self.mappings.len()
            invariant
                i <= self.mappings@.len(),
                forall|j: int| 0 <= j < i ==> (#[trigger] self.mappings@[j]).0 != id,
            decreases self.mappings@.len() - i,
        {
            if self.mappings[i].0 == id {
                return Some(i);
            }
            i = i + 1;
        }
        None
    }

    /// Insert or update the desired mapping of the identity's state.
    pub fn upsert_desired(&mut self, mapping: Mapping)
        requires
            old(self).wf(),
            nonce_valid(mapping.id.nonce),
        ensures
            final(self).wf(),
            if old(self).spec_contains(mapping.id) {
                let i = index_of(old(self).spec_mappings(), mapping.id);
                &&& only_entry_changed(old(self).spec_mappings(), final(self).spec_mappings(), i)
                &&& state_updated(
                    old(self).spec_mappings()[i].1,
                    final(self).spec_mappings()[i].1,
                    mapping,
                )
            } else {
                &&& final(self).spec_mappings().len() == old(self).spec_mappings().len() + 1
                &&& final(self).spec_mappings().drop_last() == old(self).spec_mappings()
                &&& final(self).spec_mappings().last().0 == mapping.id
                &&& final(self).spec_mappings().last().1.spec_desired() == Some(mapping)
                &&& final(self).spec_mappings().last().1.spec_effective() is None
                &&& final(self).spec_mappings().last().1.spec_cleanup_queue() == Seq::<
                    Mapping,
                >::empty()
            },
    {
        match self.find_index(mapping.id) {
            Some(i) => {
                proof {
                    assert(self.mappings@[i as int].0 == mapping.id);
                    assert(index_of(self.mappings@, mapping.id) == i) by {
                        let k = index_of(self.mappings@, mapping.id);
                        assert(has_id(self.mappings@, mapping.id));
                        if k != i {
                            assert(self.mappings@[k].0 == self.mappings@[i as int].0);
                        }
                    }
                }
                let (id, mut state) = self.mappings.remove(i);
                let _ = state.update_desired(mapping);
                self.mappings.insert(i, (id, state));
                proof {
                    assert(only_entry_changed(
                        old(self).spec_mappings(),
                        self.spec_mappings(),
                        i as int,
                    ));
                }
            },
            None => {
                let state = State::new(mapping);
                self.mappings.push((mapping.id, state));
                proof {
                    assert(self.mappings@.drop_last() =~= old(self).mappings@);
                    assert(ids_unique(self.mappings@)) by {
                        assert forall|a: int, b: int|
                            0 <= a < b < self.mappings@.len() implies (
                        #[trigger] self.mappings@[a]).0 != (#[trigger] self.mappings@[b]).0 by {
                            if b == self.mappings@.len() - 1 {
                                assert(self.mappings@[a] == old(self).mappings@[a]);
                                assert(!has_id(old(self).mappings@, mapping.id));
                            } else {
                                assert(self.mappings@[a] == old(self).mappings@[a]);
                                assert(self.mappings@[b] == old(self).mappings@[b]);
                            }
                        }
                    }
                }
            },
        }
    }

    /// Mark the identity's desired mapping for cleanup. An identity
    /// without state is ignored.
    pub fn remove_desired(&mut self, id: Id)
        requires
            old(self).wf(),
        ensures
            final(self).wf(),
            if old(self).spec_contains(id) {
                let i = index_of(old(self).spec_mappings(), id);
                &&& only_entry_changed(old(self).spec_mappings(), final(self).spec_mappings(), i)
                &&& state_removed(old(self).spec_mappings()[i].1, final(self).spec_mappings()[i].1)
            } else {
                final(self).spec_mappings() == old(self).spec_mappings()
            },
    {
        match self.find_index(id) {
            Some(i) => {
                proof {
                    assert(index_of(self.mappings@, id) == i) by {
                        let k = index_of(self.mappings@, id);
                        assert(has_id(self.mappings@, id));
                        if k != i {
                            assert(self.mappings@[k].0 == self.mappings@[i as int].0);
                        }
                    }
                }
                let (entry_id, mut state) = self.mappings.remove(i);
                let _ = state.remove_desired();
                self.mappings.insert(i, (entry_id, state));
                proof {
                    assert(only_entry_changed(
                        old(self).spec_mappings(),
                        self.spec_mappings(),
                        i as int,
                    ));
                }
            },
            None => {},
        }
    }

    /// Whether the identity still has state in the table.
    pub fn has_state(&self, id: Id) -> (r: bool)
        ensures
            r == self.spec_contains(id),
    {
        self.find_index(id).is_some()
    }

    /// The identity's current effective report, if any.
    pub fn effective_mapping(&self, id: Id) -> (r: Option<Incoming>)
        requires
            self.wf(),
        ensures
            r == (if self.spec_contains(id) {
                self.spec_mappings()[index_of(self.spec_mappings(), id)].1.spec_effective()
            } else {
                None::<Incoming>
            }),
    {
        match self.find_index(id) {
            Some(i) => {
                proof {
                    assert(index_of(self.mappings@, id) == i) by {
                        let k = index_of(self.mappings@, id);
                        assert(has_id(self.mappings@, id));
                        if k != i {
                            assert(self.mappings@[k].0 == self.mappings@[i as int].0);
                        }
                    }
                }
                match self.mappings[i].1.effective() {
                    Some(incoming) => Some(*incoming),
                    None => None,
                }
            },
            None => None,
        }
    }

    /// Collect the `MAP` requests one reconciliation pass owes the
    /// server: first every queued delete of every identity, in table
    /// order, then every desired renewal, in table order.
    pub fn reconcile_collect(&self) -> (sends: Vec<SendItem>)
        requires
            self.wf(),
        ensures
            sends@ == spec_cleanup_sends(self.spec_mappings()) + spec_renew_sends(
                self.spec_mappings(),
            ),
            forall|k: int|
                0 <= k < sends@.len() ==> nonce_valid((#[trigger] sends@[k]).mapping.id.nonce),
    {
        let ghost entries = self.mappings@;
        let mut cleanups: Vec<SendItem> = Vec::new();
        let mut renews: Vec<SendItem> = Vec::new();
        let mut i: usize = 0;
        proof {
            assert(entries.take(0) =~= Seq::<(Id, State)>::empty());
        }
        while i < self.mappings.len()
            invariant
                self.wf(),
                self.mappings@ == entries,
                i <= entries.len(),
                cleanups@ == spec_cleanup_sends(entries.take(i as int)),
                renews@ == spec_renew_sends(entries.take(i as int)),
                forall|k: int|
                    0 <= k < cleanups@.len() ==> nonce_valid(
                        (#[trigger] cleanups@[k]).mapping.id.nonce,
                    ),
                forall|k: int|
                    0 <= k < renews@.len() ==> nonce_valid(
                        (#[trigger] renews@[k]).mapping.id.nonce,
                    ),
            decreases entries.len() - i,
        {
            let entry = &self.mappings[i];
            let ghost e = entries[i as int];
            let pending = entry.1.pending_actions();
            let ghost items = cleanup_items(e);
            let ghost before = cleanups@;
            let mut j: usize = 0;
            while j < pending.cleanup.len()
                invariant
                    pending.cleanup@ == e.1.spec_cleanup_queue(),
                    entry.0 == e.0,
                    items == cleanup_items(e),
                    j <= pending.cleanup@.len(),
                    state_nonces_valid(e.1),
                    cleanups@ == before + items.take(j as int),
                    forall|k: int|
                        0 <= k < before.len() ==> nonce_valid(
                            (#[trigger] before[k]).mapping.id.nonce,
                        ),
                    forall|k: int|
                        0 <= k < cleanups@.len() ==> nonce_valid(
                            (#[trigger] cleanups@[k]).mapping.id.nonce,
                        ),
                decreases pending.cleanup@.len() - j,
            {
                let item = SendItem { id: entry.0, mapping: pending.cleanup[j] };
                cleanups.push(item);
                proof {
                    assert(items.take(j + 1) =~= items.take(j as int).push(item));
                    assert(cleanups@ =~= before + items.take(j + 1));
                }
                j = j + 1;
            }
            proof {
                assert(items.take(items.len() as int) =~= items);
                assert(entries.take(i + 1).drop_last() =~= entries.take(i as int));
                assert(entries.take(i + 1).last() == e);
                assert(cleanups@ == spec_cleanup_sends(entries.take(i + 1)));
            }
            match pending.renew {
                Some(mapping) => {
                    let item = SendItem { id: entry.0, mapping: *mapping };
                    renews.push(item);
                    proof {
                        assert(renews@ =~= spec_renew_sends(entries.take(i as int)) + seq![item]);
                        assert(renews@ == spec_renew_sends(entries.take(i + 1)));
                    }
                },
                None => {
                    proof {
                        assert(spec_renew_sends(entries.take(i + 1)) =~= spec_renew_sends(
                            entries.take(i as int),
                        ) + Seq::<SendItem>::empty());
                    }
                },
            }
            i = i + 1;
        }
        proof {
            assert(entries.take(entries.len() as int) =~= entries);
        }
        let mut sends = cleanups;
        let mut renews = renews;
        sends.append(&mut renews);
        sends
    }

    /// Drop every identity that is stale — nothing desired, nothing
    /// awaiting cleanup — except those whose send just failed; a failed
    /// send is retried on the next pass.
    pub fn evict_stale_except(&mut self, failed: &Vec<Id>)
        requires
            old(self).wf(),
        ensures
            final(self).wf(),
            final(self).spec_mappings() == old(self).spec_mappings().filter(
                |e: (Id, State)| !(e.1.spec_is_stale() && !failed@.contains(e.0)),
            ),
    {
        let ghost pred = |e: (Id, State)| !(e.1.spec_is_stale() && !failed@.contains(e.0));
        let ghost original = self.mappings@;
        let mut kept: Vec<(Id, State)> = Vec::new();
        let ghost mut i: int = 0;
        proof {
            assert(original.take(0) =~= Seq::<(Id, State)>::empty());
            assert(original.skip(0) =~= original);
        }
        while self.mappings.len() > 0
            invariant
                old(self).wf(),
                original == old(self).spec_mappings(),
                0 <= i <= original.len(),
                self.mappings@ == original.skip(i),
                pred == (|e: (Id, State)| !(e.1.spec_is_stale() && !failed@.contains(e.0))),
                kept@ == original.take(i).filter(pred),
                ids_unique(kept@),
                forall|k: int|
                    0 <= k < kept@.len() ==> exists|j: int|
                        0 <= j < i && original[j] == #[trigger] kept@[k],
            decreases self.mappings@.len(),
        {
            let entry = self.mappings.remove(0);
            let ghost e = original[i];
            proof {
                assert(entry == original.skip(i)[0]);
                assert(self.mappings@ =~= original.skip(i + 1));
                original.take(i).lemma_filter_push(e, pred);
                assert(original.take(i).push(e) =~= original.take(i + 1));
            }
            let keep = {
                let pending = entry.1.pending_actions();
                pending.renew.is_some() || pending.cleanup.len() > 0
                    || contains_id(failed, &entry.0)
            };
            proof {
                assert(keep == pred(e));
            }
            if keep {
                proof {
                    assert forall|k: int| 0 <= k < kept@.len() implies (#[trigger] kept@[k]).0
                        != e.0 by {
                        let j = choose|j: int| 0 <= j < i && original[j] == kept@[k];
                        assert(original[j].0 != original[i].0);
                    }
                }
                kept.push(entry);
                proof {
                    assert(kept@.last() == e);
                    assert(kept@ == original.take(i + 1).filter(pred));
                }
            } else {
                proof {
                    assert(kept@ == original.take(i + 1).filter(pred));
                }
            }
            proof {
                i = i + 1;
            }
        }
        proof {
            assert(original.skip(i).len() == 0);
            assert(i == original.len());
            assert(original.take(original.len() as int) =~= original);
        }
        self.mappings = kept;
        proof {
            assert forall|k: int| 0 <= k < self.spec_mappings().len() implies (
            #[trigger] self.spec_mappings()[k]).1.wf() && state_nonces_valid(
                self.spec_mappings()[k].1,
            ) by {
                let j = choose|j: int|
                    0 <= j < original.len() && original[j] == self.spec_mappings()[k];
                assert(original[j].1.wf());
                assert(state_nonces_valid(original[j].1));
            }
        }
    }

    /// Apply an inbound buffer. A non-`MAP`-response is dropped. A `MAP`
    /// response is turned into a notification — to emit whether or not the
    /// identity is known — and, when the identity has state, applied to it.
    pub fn apply_incoming(&mut self, packet: &Vec<u8>, received_on: Address) -> (r: ApplyOutcome)
        requires
            old(self).wf(),
            packet@.len() == LEN,
        ensures
            final(self).wf(),
            match crate::decode::spec_decode_map_response(packet@) {
                None => {
                    &&& *final(self) == *old(self)
                    &&& r == ApplyOutcome::NotMapResponse
                },
                Some(decoded) => {
                    let incoming = Incoming {
                        received_on,
                        packet_header: decoded.0,
                        packet_opcode: decoded.1,
                    };
                    if !old(self).spec_contains(incoming.spec_id()) {
                        &&& *final(self) == *old(self)
                        &&& r == ApplyOutcome::UnknownMapping(incoming)
                    } else {
                        let i = index_of(old(self).spec_mappings(), incoming.spec_id());
                        &&& only_entry_changed(
                            old(self).spec_mappings(),
                            final(self).spec_mappings(),
                            i,
                        )
                        &&& state_notified(
                            old(self).spec_mappings()[i].1,
                            final(self).spec_mappings()[i].1,
                            incoming,
                        )
                        &&& r == ApplyOutcome::Applied(incoming)
                    }
                },
            },
    {
        let decoder = crate::decode::State::new(packet);
        let decoded = match decoder.map_response_data() {
            Some(decoded) => decoded,
            None => {
                return ApplyOutcome::NotMapResponse;
            },
        };
        let incoming = Incoming {
            received_on,
            packet_header: decoded.0,
            packet_opcode: decoded.1,
        };
        let id = incoming.id();
        match self.find_index(id) {
            None => ApplyOutcome::UnknownMapping(incoming),
            Some(i) => {
                proof {
                    assert(index_of(self.mappings@, id) == i) by {
                        let k = index_of(self.mappings@, id);
                        assert(has_id(self.mappings@, id));
                        if k != i {
                            assert(self.mappings@[k].0 == self.mappings@[i as int].0);
                        }
                    }
                }
                let (entry_id, mut state) = self.mappings.remove(i);
                state.handle_server_notification(incoming);
                self.mappings.insert(i, (entry_id, state));
                proof {
                    assert(only_entry_changed(
                        old(self).spec_mappings(),
                        self.spec_mappings(),
                        i as int,
                    ));
                }
                ApplyOutcome::Applied(incoming)
            },
        }
    }

    /// Dispatch one command. Queries return their reply; mutating commands
    /// return none, and the caller owes a reconciliation pass.
    pub fn handle_command(&mut self, command: Command) -> (r: Option<Reply>)
        requires
            old(self).wf(),
            command matches Command::UpsertDesired(m) ==> nonce_valid(m.id.nonce),
        ensures
            final(self).wf(),
            match command {
                Command::UpsertDesired(_) | Command::RemoveDesired(_) => r is None,
                Command::HasState(id) => {
                    &&& *final(self) == *old(self)
                    &&& r == Some(Reply::HasState(old(self).spec_contains(id)))
                },
                Command::GetEffective(id) => {
                    &&& *final(self) == *old(self)
                    &&& r == Some(
                        Reply::Effective(
                            if old(self).spec_contains(id) {
                                old(self).spec_mappings()[index_of(
                                    old(self).spec_mappings(),
                                    id,
                                )].1.spec_effective()
                            } else {
                                None::<Incoming>
                            },
                        ),
                    )
                },
            },
            command matches Command::UpsertDesired(m) ==> (if old(self).spec_contains(m.id) {
                let i = index_of(old(self).spec_mappings(), m.id);
                &&& only_entry_changed(old(self).spec_mappings(), final(self).spec_mappings(), i)
                &&& state_updated(old(self).spec_mappings()[i].1, final(self).spec_mappings()[i].1, m)
            } else {
                &&& final(self).spec_mappings().len() == old(self).spec_mappings().len() + 1
                &&& final(self).spec_mappings().drop_last() == old(self).spec_mappings()
                &&& final(self).spec_mappings().last().0 == m.id
                &&& final(self).spec_mappings().last().1.spec_desired() == Some(m)
            }),
            command matches Command::RemoveDesired(id) ==> (if old(self).spec_contains(id) {
                let i = index_of(old(self).spec_mappings(), id);
                &&& only_entry_changed(old(self).spec_mappings(), final(self).spec_mappings(), i)
                &&& state_removed(old(self).spec_mappings()[i].1, final(self).spec_mappings()[i].1)
            } else {
                final(self).spec_mappings() == old(self).spec_mappings()
            }),
    {
        match command {
            Command::UpsertDesired(mapping) => {
                self.upsert_desired(mapping);
                None
            },
            Command::RemoveDesired(id) => {
                self.remove_desired(id);
                None
            },
            Command::HasState(id) => Some(Reply::HasState(self.has_state(id))),
            Command::GetEffective(id) => Some(Reply::Effective(self.effective_mapping(id))),
        }
    }
}

} // verus!
