//! The resource indexer.
//!
//! It maintains the reverse lookup from a mapping identity to the
//! namespaced resource that produced it, fed by the watch stream of the
//! orchestrator. Readers may consult it only once the initial list phase
//! is complete.

use vstd::prelude::*;
use crate::assoc::{
    assoc_map, keys_unique, lemma_assoc_map_domain, lemma_assoc_map_push, lemma_assoc_map_remove,
    lemma_assoc_map_update, lemma_assoc_map_value,
};
use crate::convert::{spec_mapping_id, Converter, PCPMap};
use crate::mapping::Id;

verus! {

/// A reference to a namespaced object.
#[derive(Debug, Clone, PartialEq, Eq)]
pub struct ObjectRef {
    /// The namespace of the object.
    pub namespace: String,
    /// The name of the object.
    pub name: String,
}

/// The indexer is not ready: the initial list phase has not completed.
#[derive(Debug, Clone, Copy, PartialEq, Eq, Structural)]
pub struct NotReadyError;

/// One event of the orchestrator's watch stream.
#[derive(Debug)]
pub enum Event {
    /// The initial list phase begins: forget everything, become not
    /// ready.
    Init,
    /// One resource of the initial list.
    InitApply(PCPMap),
    /// The initial list phase is complete: become ready.
    InitDone,
    /// A resource was created or updated.
    Apply(PCPMap),
    /// A resource was deleted.
    Delete(PCPMap),
}

/// The object reference a resource provides, when it carries both a
/// namespace and a name.
pub open spec fn spec_object_ref(crd: PCPMap) -> Option<ObjectRef> {
    match (crd.namespace, crd.name) {
        (Some(namespace), Some(name)) => Some(ObjectRef { namespace, name }),
        _ => None,
    }
}

/// Extract the namespaced object reference of a resource.
pub fn value_extactor(obj: &PCPMap) -> (r: Option<ObjectRef>)
    ensures
        r == spec_object_ref(*obj),
{
    let namespace = match &obj.namespace {
        Some(namespace) => namespace.clone(),
        None => {
            return None;
        },
    };
    let name = match &obj.name {
        Some(name) => name.clone(),
        None => {
            return None;
        },
    };
    Some(ObjectRef { namespace, name })
}

/// How one watch event changes an indexer: `Init` clears it and makes
/// it not ready, `InitDone` makes it ready, `Apply` and `InitApply`
/// upsert a resource whose identity and reference both extract, `Delete`
/// removes a resource whose identity extracts.
pub open spec fn spec_after_event(old_i: Indexer, new_i: Indexer, event: Event) -> bool {
    &&& new_i.spec_converter() == old_i.spec_converter()
    &&& match event {
        Event::Init => {
            &&& new_i.view() == Map::<Id, ObjectRef>::empty()
            &&& !new_i.spec_ready()
        },
        Event::InitDone => {
            &&& new_i.view() == old_i.view()
            &&& new_i.spec_ready()
        },
        Event::InitApply(obj) | Event::Apply(obj) => {
            &&& new_i.spec_ready() == old_i.spec_ready()
            &&& new_i.view() == (match (
                spec_mapping_id(old_i.spec_converter(), obj),
                spec_object_ref(obj),
            ) {
                (Some(id), Some(object_ref)) => old_i.view().insert(id, object_ref),
                _ => old_i.view(),
            })
        },
        Event::Delete(obj) => {
            &&& new_i.spec_ready() == old_i.spec_ready()
            &&& new_i.view() == (match spec_mapping_id(old_i.spec_converter(), obj) {
                Some(id) => old_i.view().remove(id),
                None => old_i.view(),
            })
        },
    }
}

/// The reverse lookup from mapping identity to resource reference.
#[derive(Debug)]
pub struct Indexer {
    /// The internal index.
    index: Vec<(Id, ObjectRef)>,
    /// Whether the initial list phase has completed.
    ready: bool,
    /// Derives the mapping identity of a resource.
    converter: Converter,
}

/// A read handle, obtainable only from a ready indexer.
#[derive(Debug)]
pub struct Reader<'a> {
    /// The indexer the reader was taken from.
    indexer_ref: &'a Indexer,
}

impl Indexer {
    /// The index as a map from identity to resource reference.
    pub closed spec fn view(&self) -> Map<Id, ObjectRef> {
        assoc_map(self.index@)
    }

    /// Whether the initial list phase has completed.
    pub closed spec fn spec_ready(&self) -> bool {
        self.ready
    }

    /// The converter the indexer extracts identities with.
    pub closed spec fn spec_converter(&self) -> Converter {
        self.converter
    }

    /// The index never holds two entries for one identity, and its
    /// converter can derive identities.
    pub closed spec fn wf(&self) -> bool {
        keys_unique(self.index@) && self.converter.wf()
    }

    /// Create a new, not yet ready indexer.
    pub fn new(converter: Converter) -> (r: Self)
        requires
            converter.wf(),
        ensures
            r.view() == Map::<Id, ObjectRef>::empty(),
            !r.spec_ready(),
            r.spec_converter() == converter,
            r.wf(),
    {
        Self { index: Vec::new(), ready: false, converter }
    }

    /// Handle one watch event.
    pub fn handle_event(&mut self, event: Event)
        requires
            old(self).wf(),
        ensures
            final(self).wf(),
            spec_after_event(*old(self), *final(self), event),
    {
        match event {
            Event::Init => {
                self.ready = false;
                self.index.clear();
            },
            Event::InitDone => {
                self.ready = true;
            },
            Event::InitApply(obj) => {
                self.apply(obj);
            },
            Event::Apply(obj) => {
                self.apply(obj);
            },
            Event::Delete(obj) => {
                self.delete(obj);
            },
        }
    }

    /// Get a reader if the indexer is ready.
    pub fn reader<'a>(&'a self) -> (r: Result<Reader<'a>, NotReadyError>)
        ensures
            self.spec_ready() <==> r is Ok,
            r matches Ok(reader) ==> reader.spec_indexer() == self,
    {
        if !self.ready {
            return Err(NotReadyError);
        }
        Ok(Reader { indexer_ref: self })
    }

    /// Upsert the resource's identity and reference, when both extract.
    fn apply(&mut self, obj: PCPMap)
        requires
            old(self).wf(),
        ensures
            final(self).wf(),
            final(self).spec_ready() == old(self).spec_ready(),
            final(self).spec_converter() == old(self).spec_converter(),
            final(self).view() == (match (
                spec_mapping_id(old(self).spec_converter(), obj),
                spec_object_ref(obj),
            ) {
                (Some(id), Some(object_ref)) => old(self).view().insert(id, object_ref),
                _ => old(self).view(),
            }),
    {
        let object_ref = match value_extactor(&obj) {
            Some(object_ref) => object_ref,
            None => {
                return ;
            },
        };
        let id = match self.converter.mapping_id_from_crd(&obj) {
            Ok(id) => id,
            Err(_) => {
                return ;
            },
        };
        match self.find_index(id) {
            Some(i) => {
                proof {
                    lemma_assoc_map_update(self.index@, i as int, object_ref);
                }
                self.index.set(i, (id, object_ref));
                proof {
                    assert(keys_unique(self.index@)) by {
                        assert forall|a: int, b: int| 0 <= a < b < self.index@.len() implies (
                        #[trigger] self.index@[a]).0 != (#[trigger] self.index@[b]).0 by {
                            assert(old(self).index@[a].0 == self.index@[a].0);
                            assert(old(self).index@[b].0 == self.index@[b].0);
                        }
                    }
                }
            },
            None => {
                proof {
                    lemma_assoc_map_push(self.index@, id, object_ref);
                    lemma_assoc_map_domain(self.index@, id);
                }
                self.index.push((id, object_ref));
            },
        }
    }

    /// Remove the resource's identity, when it extracts.
    fn delete(&mut self, obj: PCPMap)
        requires
            old(self).wf(),
        ensures
            final(self).wf(),
            final(self).spec_ready() == old(self).spec_ready(),
            final(self).spec_converter() == old(self).spec_converter(),
            final(self).view() == (match spec_mapping_id(old(self).spec_converter(), obj) {
                Some(id) => old(self).view().remove(id),
                None => old(self).view(),
            }),
    {
        let id = match self.converter.mapping_id_from_crd(&obj) {
            Ok(id) => id,
            Err(_) => {
                return ;
            },
        };
        match self.find_index(id) {
            Some(i) => {
                proof {
                    lemma_assoc_map_remove(self.index@, i as int);
                }
                let _ = self.index.remove(i);
            },
            None => {
                proof {
                    lemma_assoc_map_domain(self.index@, id);
                    assert(self.view().remove(id) =~= self.view());
                }
            },
        }
    }

    /// The index position of the identity, if present.
    fn find_index(&self, id: Id) -> (r: Option<usize>)
        ensures
            match r {
                Some(i) => i < self.index@.len() && self.index@[i as int].0 == id,
                None => forall|j: int|
                    0 <= j < self.index@.len() ==> (#[trigger] self.index@[j]).0 != id,
            },
    {
        let mut i: usize = 0;
        while i < self.index.len()
            invariant
                i <= self.index@.len(),
                forall|j: int| 0 <= j < i ==> (#[trigger] self.index@[j]).0 != id,
            decreases self.index@.len() - i,
        {
            if self.index[i].0 == id {
                return Some(i);
            }
            i = i + 1;
        }
        None
    }
}

impl<'a> Reader<'a> {
    /// The indexer the reader was taken from.
    pub closed spec fn spec_indexer(&self) -> &'a Indexer {
        self.indexer_ref
    }

    /// The reference stored for the identity, if one is.
    pub fn get(&self, key: &Id) -> (r: Option<&'a ObjectRef>)
        requires
            self.spec_indexer().wf(),
        ensures
            match r {
                Some(object_ref) => self.spec_indexer().view().contains_key(*key)
                    && self.spec_indexer().view()[*key] == *object_ref,
                None => !self.spec_indexer().view().contains_key(*key),
            },
    {
        match self.indexer_ref.find_index(*key) {
            Some(i) => {
                proof {
                    lemma_assoc_map_value(self.indexer_ref.index@, i as int);
                }
                Some(&self.indexer_ref.index[i].1)
            },
            None => {
                proof {
                    lemma_assoc_map_domain(self.indexer_ref.index@, *key);
                }
                None
            },
        }
    }
}

} // verus!
