//! The per-mapping lifecycle algebra.
//!
//! Each managed mapping identity has one [`State`]: the desired mapping,
//! the last effective server report, and the queue of superseded mappings
//! that still await a server-confirmed delete. The well-formedness
//! invariant [`State::wf`] holds two laws at every step: every entry of
//! the cleanup queue has lifetime 0, and a state with no desired mapping
//! and an empty cleanup queue holds no effective report.

use vstd::prelude::*;
use crate::mapping::{Incoming, Mapping};

verus! {

/// Every entry of `new_queue` already stood somewhere in `old_queue`.
pub open spec fn queue_drawn_from(new_queue: Seq<Mapping>, old_queue: Seq<Mapping>) -> bool {
    forall|k: int|
        0 <= k < new_queue.len() ==> old_queue.contains(#[trigger] new_queue[k])
}

/// Each element of a filtered sequence is an element of the original.
proof fn lemma_filter_element_of(q: Seq<Mapping>, pred: spec_fn(Mapping) -> bool, k: int)
    requires
        0 <= k < q.filter(pred).len(),
    ensures
        exists|j: int| 0 <= j < q.len() && q[j] == q.filter(pred)[k],
{
    q.filter(pred).lemma_index_contains(k);
    q.lemma_filter_contains_rev(pred, q.filter(pred)[k]);
}

/// A filtered queue is drawn from the queue it was filtered from.
proof fn lemma_filter_drawn_from(q: Seq<Mapping>, pred: spec_fn(Mapping) -> bool)
    ensures
        queue_drawn_from(q.filter(pred), q),
{
    assert forall|k: int| 0 <= k < q.filter(pred).len() implies q.contains(
        #[trigger] q.filter(pred)[k],
    ) by {
        q.filter(pred).lemma_index_contains(k);
        q.lemma_filter_contains_rev(pred, q.filter(pred)[k]);
    }
}

/// The lifecycle state of one mapping identity.
#[derive(Debug)]
pub struct State {
    /// The desired state: our prior demand, kept so that we never issue
    /// conflicting requests.
    desired: Option<Mapping>,
    /// The effective state as last reported by the server.
    effective: Option<Incoming>,
    /// Superseded mappings awaiting a server-confirmed delete; every entry
    /// carries lifetime 0.
    cleanup_queue: Vec<Mapping>,
}

/// What a reconciliation pass must do for one mapping identity.
#[derive(Debug)]
pub struct PendingActions<'a> {
    /// The mapping to renew, if one is desired.
    pub renew: Option<&'a Mapping>,
    /// The delete requests still owed to the server.
    pub cleanup: &'a Vec<Mapping>,
}

/// The outcome of [`State::update_desired`].
#[derive(Debug, Clone, Copy, PartialEq, Eq, Structural)]
pub enum UpdateDesiredOutcome {
    /// The desired value was updated in place; the identity is unchanged.
    InPlace,
    /// The desired value was replaced by a different identity; the old one
    /// was queued for cleanup and the state should be reconciled.
    Recreated,
}

/// The outcome of [`State::remove_desired`].
#[derive(Debug, Clone, Copy, PartialEq, Eq, Structural)]
pub enum RemoveDesiredOutcome {
    /// The desired value was removed and queued for cleanup; the state
    /// should be reconciled.
    Removed,
    /// There was no desired value; nothing changed.
    WasAbsent,
}

impl State {
    /// The desired mapping, if any.
    pub closed spec fn spec_desired(&self) -> Option<Mapping> {
        self.desired
    }

    /// The last effective server report, if any.
    pub closed spec fn spec_effective(&self) -> Option<Incoming> {
        self.effective
    }

    /// The cleanup queue contents, in order.
    pub closed spec fn spec_cleanup_queue(&self) -> Seq<Mapping> {
        self.cleanup_queue@
    }

    /// The state invariant: every cleanup entry has lifetime 0, and a
    /// state with nothing desired and nothing to clean holds no effective
    /// report.
    pub open spec fn wf(&self) -> bool {
        &&& forall|i: int|
            0 <= i < self.spec_cleanup_queue().len()
                ==> #[trigger] self.spec_cleanup_queue()[i].params.lifetime == 0
        &&& (self.spec_desired() is None && self.spec_cleanup_queue().len() == 0
            ==> self.spec_effective() is None)
    }

    /// A state is garbage-collectable when nothing is desired and nothing
    /// awaits cleanup.
    pub open spec fn spec_is_stale(&self) -> bool {
        self.spec_desired() is None && self.spec_cleanup_queue().len() == 0
    }

    /// Begin managing a mapping: it is desired, nothing is effective yet,
    /// nothing awaits cleanup.
    pub fn new(mapping: Mapping) -> (r: Self)
        ensures
            r.spec_desired() == Some(mapping),
            r.spec_effective() is None,
            r.spec_cleanup_queue() == Seq::<Mapping>::empty(),
            r.wf(),
    {
        let desired = Some(mapping);
        let effective = None;
        let cleanup_queue = Vec::new();
        proof {
            assert(cleanup_queue@ =~= Seq::<Mapping>::empty());
        }
        Self { desired, effective, cleanup_queue }
    }

    /// Replace the desired mapping. A replacement under the same identity
    /// happens in place; a replacement under a different identity queues
    /// the old mapping, with lifetime 0, for an explicit delete — issuing
    /// a new nonce without tearing the old one down would leave a ghost
    /// mapping the server might keep renewing. An update that keeps the
    /// identity never appends to the cleanup queue.
    pub fn update_desired(&mut self, new_mapping: Mapping) -> (o: UpdateDesiredOutcome)
        requires
            old(self).wf(),
        ensures
            final(self).wf(),
            final(self).spec_desired() == Some(new_mapping),
            final(self).spec_effective() == old(self).spec_effective(),
            match old(self).spec_desired() {
                None => {
                    &&& final(self).spec_cleanup_queue() == old(self).spec_cleanup_queue()
                    &&& o == UpdateDesiredOutcome::InPlace
                },
                Some(old_mapping) => {
                    if old_mapping.spec_same_mapping_instance(new_mapping) {
                        &&& final(self).spec_cleanup_queue() == old(self).spec_cleanup_queue()
                        &&& o == UpdateDesiredOutcome::InPlace
                    } else {
                        &&& final(self).spec_cleanup_queue() == old(self).spec_cleanup_queue().push(
                            old_mapping.spec_into_cleanup(),
                        )
                        &&& o == UpdateDesiredOutcome::Recreated
                    }
                },
            },
    {
        let old_mapping = self.desired;
        self.desired = Some(new_mapping);
        match old_mapping {
            None => UpdateDesiredOutcome::InPlace,
            Some(old_mapping) => {
                if old_mapping.is_same_mapping_instance(&new_mapping) {
                    UpdateDesiredOutcome::InPlace
                } else {
                    let cleanup_mapping = old_mapping.into_cleanup();
                    self.cleanup_queue.push(cleanup_mapping);
                    UpdateDesiredOutcome::Recreated
                }
            },
        }
    }

    /// Withdraw the desired mapping: if one was present, it moves, with
    /// lifetime 0, onto the cleanup queue.
    pub fn remove_desired(&mut self) -> (o: RemoveDesiredOutcome)
        requires
            old(self).wf(),
        ensures
            final(self).wf(),
            final(self).spec_desired() is None,
            final(self).spec_effective() == old(self).spec_effective(),
            match old(self).spec_desired() {
                None => {
                    &&& final(self).spec_cleanup_queue() == old(self).spec_cleanup_queue()
                    &&& o == RemoveDesiredOutcome::WasAbsent
                },
                Some(old_mapping) => {
                    &&& final(self).spec_cleanup_queue() == old(self).spec_cleanup_queue().push(
                        old_mapping.spec_into_cleanup(),
                    )
                    &&& o == RemoveDesiredOutcome::Removed
                },
            },
    {
        match self.desired.take() {
            None => RemoveDesiredOutcome::WasAbsent,
            Some(old_mapping) => {
                let cleanup_mapping = old_mapping.into_cleanup();
                self.cleanup_queue.push(cleanup_mapping);
                RemoveDesiredOutcome::Removed
            },
        }
    }

    /// What a reconciliation pass must do for this identity: renew the
    /// desired mapping and send every queued delete.
    pub fn pending_actions<'a>(&'a self) -> (r: PendingActions<'a>)
        ensures
            match self.spec_desired() {
                None => r.renew is None,
                Some(mapping) => r.renew is Some && *r.renew->0 == mapping,
            },
            r.cleanup@ == self.spec_cleanup_queue(),
    {
        PendingActions { renew: self.desired.as_ref(), cleanup: &self.cleanup_queue }
    }

    /// Apply a server notification.
    ///
    /// A confirmed delete (success, lifetime 0) removes from the cleanup
    /// queue every entry that shares the notification's exposed resource;
    /// afterwards no such entry remains. A notification for the desired
    /// mapping's exposed resource becomes the effective report. When
    /// nothing is desired and nothing awaits cleanup any more, the
    /// effective report is cleared.
    pub fn handle_server_notification(&mut self, incoming: Incoming)
        requires
            old(self).wf(),
        ensures
            final(self).wf(),
            final(self).spec_desired() == old(self).spec_desired(),
            final(self).spec_cleanup_queue() == (if incoming.spec_is_cleanup() {
                old(self).spec_cleanup_queue().filter(
                    |m: Mapping| !incoming.spec_same_exposed_resource(m),
                )
            } else {
                old(self).spec_cleanup_queue()
            }),
            incoming.spec_is_cleanup() ==> forall|i: int|
                0 <= i < final(self).spec_cleanup_queue().len()
                    ==> !incoming.spec_same_exposed_resource(
                    #[trigger] final(self).spec_cleanup_queue()[i],
                ),
            incoming.spec_is_cleanup() ==> queue_drawn_from(
                final(self).spec_cleanup_queue(),
                old(self).spec_cleanup_queue(),
            ),
            final(self).spec_effective() == ({
                let matched = old(self).spec_desired() is Some
                    && incoming.spec_same_exposed_resource(old(self).spec_desired()->0);
                let updated = if matched {
                    Some(incoming)
                } else {
                    old(self).spec_effective()
                };
                if final(self).spec_is_stale() {
                    None
                } else {
                    updated
                }
            }),
            final(self).spec_is_stale() ==> final(self).spec_effective() is None,
    {
        if incoming.is_cleanup() {
            self.retain_other_exposed_resources(incoming);
        }

        let matched = match &self.desired {
            Some(desired) => incoming.is_same_exposed_resource(desired),
            None => false,
        };
        if matched {
            self.effective = Some(incoming);
        }

        if self.cleanup_queue.len() == 0 && self.desired.is_none() {
            self.effective = None;
        }
        proof {
            if incoming.spec_is_cleanup() {
                let q0 = old(self).spec_cleanup_queue();
                let pred = |m: Mapping| !incoming.spec_same_exposed_resource(m);
                assert(self.spec_cleanup_queue() == q0.filter(pred));
                lemma_filter_drawn_from(q0, pred);
                assert(queue_drawn_from(self.spec_cleanup_queue(), q0));
                assert forall|i: int| 0 <= i < self.spec_cleanup_queue().len() implies #[trigger] self.spec_cleanup_queue()[i].params.lifetime
                    == 0 by {
                    lemma_filter_element_of(q0, pred, i);
                    let j = choose|j: int| 0 <= j < q0.len() && q0[j] == q0.filter(pred)[i];
                    assert(old(self).spec_cleanup_queue()[j].params.lifetime == 0);
                }
            }
        }
    }

    /// Drop every cleanup entry that shares the notification's exposed
    /// resource.
    fn retain_other_exposed_resources(&mut self, incoming: Incoming)
        ensures
            final(self).spec_desired() == old(self).spec_desired(),
            final(self).spec_effective() == old(self).spec_effective(),
            final(self).spec_cleanup_queue() == old(self).spec_cleanup_queue().filter(
                |m: Mapping| !incoming.spec_same_exposed_resource(m),
            ),
    {
        let ghost pred = |m: Mapping| !incoming.spec_same_exposed_resource(m);
        let ghost original = self.cleanup_queue@;
        let mut kept: Vec<Mapping> = Vec::new();
        let mut i: usize = 0;
        proof {
            assert(original.take(0) =~= Seq::<Mapping>::empty());
            reveal(Seq::<_>::filter);
            assert(kept@ == original.take(0).filter(pred));
        }
        while i < self.cleanup_queue.len()
            invariant
                i <= original.len(),
                self.cleanup_queue@ == original,
                pred == (|m: Mapping| !incoming.spec_same_exposed_resource(m)),
                kept@ == original.take(i as int).filter(pred),
            decreases original.len() - i,
        {
            let entry = self.cleanup_queue[i];
            proof {
                assert(pred(entry) == !incoming.spec_same_exposed_resource(entry));
                original.take(i as int).lemma_filter_push(entry, pred);
                assert(original.take(i as int).push(entry) =~= original.take(i + 1));
            }
            if !incoming.is_same_exposed_resource(&entry) {
                kept.push(entry);
                proof {
                    assert(pred(entry));
                    assert(kept@ == original.take(i + 1).filter(pred));
                }
            } else {
                proof {
                    assert(!pred(entry));
                    assert(kept@ == original.take(i + 1).filter(pred));
                }
            }
            i = i + 1;
        }
        proof {
            assert(original.take(original.len() as int) =~= original);
        }
        self.cleanup_queue = kept;
    }

    /// The desired mapping, if any.
    pub fn desired(&self) -> (r: Option<&Mapping>)
        ensures
            match self.spec_desired() {
                None => r is None,
                Some(mapping) => r is Some && *r->0 == mapping,
            },
    {
        self.desired.as_ref()
    }

    /// The last effective server report, if any.
    pub fn effective(&self) -> (r: Option<&Incoming>)
        ensures
            match self.spec_effective() {
                None => r is None,
                Some(incoming) => r is Some && *r->0 == incoming,
            },
    {
        self.effective.as_ref()
    }
}

} // verus!
