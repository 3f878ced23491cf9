//! The status listener.
//!
//! It consumes the engine's notifications and relays server-assigned
//! external endpoints into resource status. A notification that arrives
//! before the indexer is ready is stashed, one per mapping identity, and
//! drained through the index as soon as a watch event makes it ready; a
//! notification whose identity the index does not know is discarded.

use vstd::prelude::*;
use crate::assoc::{assoc_map, keys_unique, lemma_assoc_map_push, lemma_assoc_map_update};
use crate::convert::PCPMapStatus;
use crate::indexer::{Event, Indexer, ObjectRef, Reader};
use crate::ip::{spec_split, split, SocketAddress};
use crate::mapping::{Id, Incoming};

verus! {

/// One status patch owed to the orchestrator: the resource it addresses
/// and the status to apply.
#[derive(Debug, Clone, PartialEq, Eq)]
pub struct StatusPatch {
    /// The namespace of the resource.
    pub namespace: String,
    /// The name of the resource.
    pub name: String,
    /// The status to apply.
    pub status: PCPMapStatus,
}

/// The external endpoint a notification reports: the assigned address,
/// split back to its canonical family, and the assigned port.
pub open spec fn spec_endpoint(incoming: Incoming) -> SocketAddress {
    SocketAddress {
        ip: spec_split(incoming.packet_opcode.assigned_external_ip_address),
        port: incoming.packet_opcode.assigned_external_port,
    }
}

/// The patch a resolved notification produces: only the external
/// endpoint is set.
pub open spec fn spec_patch(object_ref: ObjectRef, incoming: Incoming) -> StatusPatch {
    StatusPatch {
        namespace: object_ref.namespace,
        name: object_ref.name,
        status: PCPMapStatus {
            protocol_number: None,
            internal_ip: None,
            external_endpoint: Some(spec_endpoint(incoming)),
        },
    }
}

/// The patch a notification produces under an index, if its identity
/// resolves.
pub open spec fn spec_resolve(index: Map<Id, ObjectRef>, incoming: Incoming) -> Option<
    StatusPatch,
> {
    if index.contains_key(incoming.spec_id()) {
        Some(spec_patch(index[incoming.spec_id()], incoming))
    } else {
        None
    }
}

/// The patches draining a stash through an index produces, in stash
/// order; unresolved notifications are dropped.
pub open spec fn spec_drained(stash: Seq<(Id, Incoming)>, index: Map<Id, ObjectRef>) -> Seq<
    StatusPatch,
>
    decreases stash.len(),
{
    if stash.len() == 0 {
        Seq::empty()
    } else {
        spec_drained(stash.drop_last(), index) + (match spec_resolve(index, stash.last().1) {
            Some(patch) => seq![patch],
            None => Seq::empty(),
        })
    }
}

/// The status listener: the index of resources and the stash of
/// notifications that arrived before the index was ready.
#[derive(Debug)]
pub struct Listener {
    /// The indexer for the resources.
    pub indexer: Indexer,
    /// The notifications held back until the indexer is ready, one per
    /// identity.
    pub stash: Vec<(Id, Incoming)>,
}

impl Listener {
    /// The stashed notifications as a map from identity to the latest
    /// notification for it.
    pub closed spec fn spec_stash(&self) -> Map<Id, Incoming> {
        assoc_map(self.stash@)
    }

    /// The stash contents in arrival order.
    pub closed spec fn spec_stash_entries(&self) -> Seq<(Id, Incoming)> {
        self.stash@
    }

    /// The listener invariant: a well-formed indexer, and a stash with
    /// unique identities, each the identity of its notification.
    pub open spec fn wf(&self) -> bool {
        &&& self.indexer.wf()
        &&& keys_unique(self.spec_stash_entries())
        &&& forall|i: int|
            0 <= i < self.spec_stash_entries().len() ==> (#[trigger] self.spec_stash_entries()[i]).0
                == self.spec_stash_entries()[i].1.spec_id()
    }

    /// A listener around an indexer, with nothing stashed.
    pub fn new(indexer: Indexer) -> (r: Self)
        requires
            indexer.wf(),
        ensures
            r.wf(),
            r.indexer == indexer,
            r.spec_stash_entries() == Seq::<(Id, Incoming)>::empty(),
    {
        Self { indexer, stash: Vec::new() }
    }

    /// Take in one notification. Before the indexer is ready it is
    /// stashed, replacing any earlier notification for the same
    /// identity. With a ready indexer it resolves to a patch, or to
    /// nothing when the index does not know its identity.
    pub fn on_notification(&mut self, incoming: Incoming) -> (r: Option<StatusPatch>)
        requires
            old(self).wf(),
        ensures
            final(self).wf(),
            final(self).indexer == old(self).indexer,
            if old(self).indexer.spec_ready() {
                &&& r == spec_resolve(old(self).indexer.view(), incoming)
                &&& final(self).spec_stash_entries() == old(self).spec_stash_entries()
            } else {
                &&& r is None
                &&& final(self).spec_stash() == old(self).spec_stash().insert(
                    incoming.spec_id(),
                    incoming,
                )
            },
    {
        let reader = match self.indexer.reader() {
            Ok(reader) => reader,
            Err(_) => {
                self.stash_put(incoming);
                return None;
            },
        };
        resolve(&reader, incoming)
    }

    /// Handle one watch event. When the event leaves the indexer ready,
    /// the stash is drained through it: every stashed notification whose
    /// identity now resolves becomes a patch, the rest are discarded.
    pub fn on_watch_event(&mut self, event: Event) -> (patches: Vec<StatusPatch>)
        requires
            old(self).wf(),
        ensures
            final(self).wf(),
            crate::indexer::spec_after_event(old(self).indexer, final(self).indexer, event),
            if final(self).indexer.spec_ready() {
                &&& patches@ == spec_drained(
                    old(self).spec_stash_entries(),
                    final(self).indexer.view(),
                )
                &&& final(self).spec_stash_entries() == Seq::<(Id, Incoming)>::empty()
            } else {
                &&& patches@ == Seq::<StatusPatch>::empty()
                &&& final(self).spec_stash_entries() == old(self).spec_stash_entries()
            },
    {
        self.indexer.handle_event(event);

        let mut patches: Vec<StatusPatch> = Vec::new();
        if self.indexer.reader().is_err() {
            proof {
                assert(patches@ =~= Seq::<StatusPatch>::empty());
            }
            return patches;
        }

        let ghost original = self.stash@;
        let ghost indexer_after = self.indexer;
        let ghost mut i: int = 0;
        proof {
            assert(original.take(0) =~= Seq::<(Id, Incoming)>::empty());
            assert(original.skip(0) =~= original);
        }
        while self.stash.len() > 0
            invariant
                self.indexer == indexer_after,
                crate::indexer::spec_after_event(old(self).indexer, indexer_after, event),
                self.indexer.wf(),
                self.indexer.spec_ready(),
                0 <= i <= original.len(),
                self.stash@ == original.skip(i),
                patches@ == spec_drained(original.take(i), self.indexer.view()),
            decreases self.stash@.len(),
        {
            let entry = self.stash.remove(0);
            proof {
                assert(entry == original.skip(i)[0]);
                assert(self.stash@ =~= original.skip(i + 1));
                assert(original.take(i + 1).drop_last() =~= original.take(i));
                assert(original.take(i + 1).last() == original[i]);
            }
            let reader = match self.indexer.reader() {
                Ok(reader) => reader,
                Err(_) => {
                    proof {
                        assert(false);
                    }
                    return patches;
                },
            };
            match resolve(&reader, entry.1) {
                Some(patch) => {
                    patches.push(patch);
                    proof {
                        assert(patches@ =~= spec_drained(original.take(i), self.indexer.view())
                            + seq![patch]);
                    }
                },
                None => {
                    proof {
                        assert(patches@ =~= spec_drained(original.take(i), self.indexer.view())
                            + Seq::<StatusPatch>::empty());
                    }
                },
            }
            proof {
                i = i + 1;
            }
        }
        proof {
            assert(original.skip(i).len() == 0);
            assert(i == original.len());
            assert(original.take(original.len() as int) =~= original);
            assert(self.stash@ =~= Seq::<(Id, Incoming)>::empty());
        }
        patches
    }

    /// Stash a notification, replacing any earlier one for its identity.
    fn stash_put(&mut self, incoming: Incoming)
        requires
            old(self).wf(),
        ensures
            final(self).wf(),
            final(self).indexer == old(self).indexer,
            final(self).spec_stash() == old(self).spec_stash().insert(
                incoming.spec_id(),
                incoming,
            ),
    {
        let id = incoming.id();
        let mut i: usize = 0;
        while i < self.stash.len()
            invariant
                old(self).wf(),
                *self == *old(self),
                i <= self.stash@.len(),
                id == incoming.spec_id(),
                forall|j: int| 0 <= j < i ==> (#[trigger] self.stash@[j]).0 != id,
            decreases self.stash@.len() - i,
        {
            if self.stash[i].0 == id {
                proof {
                    lemma_assoc_map_update(self.stash@, i as int, incoming);
                }
                self.stash.set(i, (id, incoming));
                proof {
                    assert(keys_unique(self.stash@)) by {
                        assert forall|a: int, b: int| 0 <= a < b < self.stash@.len() implies (
                        #[trigger] self.stash@[a]).0 != (#[trigger] self.stash@[b]).0 by {
                            assert(old(self).stash@[a].0 == self.stash@[a].0);
                            assert(old(self).stash@[b].0 == self.stash@[b].0);
                        }
                    }
                }
                return ;
            }
            i = i + 1;
        }
        proof {
            lemma_assoc_map_push(self.stash@, id, incoming);
        }
        self.stash.push((id, incoming));
    }
}

/// Resolve one notification through a ready index: the patch for the
/// resource the identity names, or nothing when the index does not know
/// it.
fn resolve(reader: &Reader<'_>, incoming: Incoming) -> (r: Option<StatusPatch>)
    requires
        reader.spec_indexer().wf(),
    ensures
        r == spec_resolve(reader.spec_indexer().view(), incoming),
{
    let id = incoming.id();
    let object_ref = match reader.get(&id) {
        Some(object_ref) => object_ref,
        None => {
            return None;
        },
    };

    let external_endpoint = SocketAddress {
        ip: split(incoming.packet_opcode.assigned_external_ip_address),
        port: incoming.packet_opcode.assigned_external_port,
    };

    Some(
        StatusPatch {
            namespace: object_ref.namespace.clone(),
            name: object_ref.name.clone(),
            status: PCPMapStatus {
                protocol_number: None,
                internal_ip: None,
                external_endpoint: Some(external_endpoint),
            },
        },
    )
}

} // verus!
