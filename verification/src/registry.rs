//! The allocation registry.
//!
//! It tracks which (protocol, external port) slots of one NAT gateway are
//! claimed, and by which internal endpoint, so that two declarations that
//! would fight over the same external slot can be detected. A conflict is
//! same key with a different value; registering the same key with the
//! same value is idempotent. One instance exists per controlled gateway.

use vstd::prelude::*;
use crate::assoc::{
    assoc_map, keys_unique, lemma_assoc_map_domain, lemma_assoc_map_push, lemma_assoc_map_remove,
    lemma_assoc_map_update, lemma_assoc_map_value,
};
use crate::primitives::{Address, Port, Protocol};

verus! {

/// A slot on the gateway: the protocol and the external port.
#[derive(Debug, Clone, Copy, PartialEq, Eq, Structural, Hash)]
pub struct Key {
    /// The protocol.
    pub protocol: Protocol,
    /// The external port.
    pub external_port: Port,
}

/// The claimant of a slot: the internal endpoint the traffic goes to.
#[derive(Debug, Clone, Copy, PartialEq, Eq, Structural, Hash)]
pub struct Value {
    /// The internal address.
    pub internal_address: Address,
    /// The internal port.
    pub internal_port: Port,
}

/// An entry of the registry.
#[derive(Debug, Clone, Copy, PartialEq, Eq, Structural, Hash)]
pub struct Entry {
    /// The key.
    pub key: Key,
    /// The value.
    pub value: Value,
}

impl Key {
    /// Create a new [`Key`].
    pub fn new(protocol: Protocol, external_port: Port) -> (r: Self)
        ensures
            r == (Key { protocol, external_port }),
    {
        Self { protocol, external_port }
    }
}

impl Value {
    /// Create a new [`Value`].
    pub fn new(internal_address: Address, internal_port: Port) -> (r: Self)
        ensures
            r == (Value { internal_address, internal_port }),
    {
        Self { internal_address, internal_port }
    }
}

impl Entry {
    /// Create a new [`Entry`] from the four endpoint fields.
    pub fn new(
        protocol: Protocol,
        external_port: Port,
        internal_address: Address,
        internal_port: Port,
    ) -> (r: Self)
        ensures
            r == (Entry {
                key: Key { protocol, external_port },
                value: Value { internal_address, internal_port },
            }),
    {
        let key = Key::new(protocol, external_port);
        let value = Value::new(internal_address, internal_port);
        Self { key, value }
    }

    /// Create a new [`Entry`] from a key and a value.
    pub fn from_kv(key: Key, value: Value) -> (r: Self)
        ensures
            r == (Entry { key, value }),
    {
        Self { key, value }
    }
}

/// The successful registration details.
#[derive(Debug, Clone, Copy, PartialEq, Eq, Structural)]
pub enum RegistrationSuccess {
    /// A new entry was created.
    Registered,
    /// An entry with the same key and a non-conflicting value already
    /// existed.
    AlreadyExists,
}

/// The registration conflict: the value that already claims the slot.
#[derive(Debug, Clone, Copy, PartialEq, Eq, Structural)]
pub struct RegistrationConflict(pub Value);

/// The successful force-registration details.
#[derive(Debug, Clone, Copy, PartialEq, Eq, Structural)]
pub enum ForceRegistrationResult {
    /// A new entry was created.
    Registered,
    /// An entry with the same key and a non-conflicting value already
    /// existed.
    AlreadyExists,
    /// A conflicting entry existed; it was evicted and is returned.
    EvictedConflicting(Value),
}

/// Why a compare-and-unregister did not remove an entry.
#[derive(Debug, Clone, Copy, PartialEq, Eq, Structural)]
pub enum CompareAndUnregisterError {
    /// The key is not in the registry.
    KeyNotFound,
    /// The key is present but holds a different value, which is returned.
    DifferentValue(Value),
}

/// The port allocations of one gateway.
#[derive(Debug)]
pub struct AllocationRegistry {
    entries: Vec<(Key, Value)>,
}

impl Default for AllocationRegistry {
    /// An empty registry.
    fn default() -> (r: Self)
        ensures
            r.view() == Map::<Key, Value>::empty(),
            r.wf(),
    {
        Self::new()
    }
}

impl AllocationRegistry {
    /// The allocations as a map from slot to claimant.
    pub closed spec fn view(&self) -> Map<Key, Value> {
        assoc_map(self.entries@)
    }

    /// The registry never holds two entries for one key.
    pub closed spec fn wf(&self) -> bool {
        keys_unique(self.entries@)
    }

    /// Create an empty registry.
    pub fn new() -> (r: Self)
        ensures
            r.view() == Map::<Key, Value>::empty(),
            r.wf(),
    {
        Self { entries: Vec::new() }
    }

    /// The index holding the key, if any.
    fn find_index(&self, key: Key) -> (r: Option<usize>)
        ensures
            match r {
                Some(i) => i < self.entries@.len() && self.entries@[i as int].0 == key,
                None => forall|j: int|
                    0 <= j < self.entries@.len() ==> (#[trigger] self.entries@[j]).0 != key,
            },
    {
        let mut i: usize = 0;
        while i < self.entries.len()
            invariant
                i <= self.entries@.len(),
                forall|j: int| 0 <= j < i ==> (#[trigger] self.entries@[j]).0 != key,
            decreases self.entries@.len() - i,
        {
            if self.entries[i].0 == key {
                return Some(i);
            }
            i = i + 1;
        }
        None
    }

    /// Register an entry. A conflicting entry is left in place and
    /// returned as the error.
    pub fn register(&mut self, entry: Entry) -> (r: Result<RegistrationSuccess, RegistrationConflict>)
        requires
            old(self).wf(),
        ensures
            final(self).wf(),
            if !old(self).view().contains_key(entry.key) {
                &&& final(self).view() == old(self).view().insert(entry.key, entry.value)
                &&& r == Ok::<_, RegistrationConflict>(RegistrationSuccess::Registered)
            } else if old(self).view()[entry.key] == entry.value {
                &&& final(self).view() == old(self).view()
                &&& r == Ok::<_, RegistrationConflict>(RegistrationSuccess::AlreadyExists)
            } else {
                &&& final(self).view() == old(self).view()
                &&& r == Err::<RegistrationSuccess, _>(
                    RegistrationConflict(old(self).view()[entry.key]),
                )
            },
    {
        let Entry { key, value } = entry;
        match self.find_index(key) {
            Some(i) => {
                let existing_value = self.entries[i].1;
                proof {
                    lemma_assoc_map_value(self.entries@, i as int);
                }
                if existing_value == value {
                    Ok(RegistrationSuccess::AlreadyExists)
                } else {
                    Err(RegistrationConflict(existing_value))
                }
            },
            None => {
                proof {
                    lemma_assoc_map_push(self.entries@, key, value);
                    lemma_assoc_map_domain(self.entries@, key);
                }
                self.entries.push((key, value));
                Ok(RegistrationSuccess::Registered)
            },
        }
    }

    /// Register an entry; a conflicting entry is overwritten and the old
    /// value returned.
    pub fn force_register(&mut self, entry: Entry) -> (r: ForceRegistrationResult)
        requires
            old(self).wf(),
        ensures
            final(self).wf(),
            final(self).view() == old(self).view().insert(entry.key, entry.value),
            if !old(self).view().contains_key(entry.key) {
                r == ForceRegistrationResult::Registered
            } else if old(self).view()[entry.key] == entry.value {
                r == ForceRegistrationResult::AlreadyExists
            } else {
                r == ForceRegistrationResult::EvictedConflicting(old(self).view()[entry.key])
            },
    {
        let Entry { key, value } = entry;
        match self.find_index(key) {
            Some(i) => {
                let existing_value = self.entries[i].1;
                proof {
                    lemma_assoc_map_value(self.entries@, i as int);
                }
                if existing_value == value {
                    proof {
                        assert(old(self).view().insert(key, value) =~= old(self).view());
                    }
                    ForceRegistrationResult::AlreadyExists
                } else {
                    proof {
                        lemma_assoc_map_update(self.entries@, i as int, value);
                    }
                    self.entries.set(i, (key, value));
                    proof {
                        assert(keys_unique(self.entries@)) by {
                            assert forall|a: int, b: int|
                                0 <= a < b < self.entries@.len() implies (
                            #[trigger] self.entries@[a]).0 != (#[trigger] self.entries@[b]).0 by {
                                assert(old(self).entries@[a].0 == self.entries@[a].0);
                                assert(old(self).entries@[b].0 == self.entries@[b].0);
                            }
                        }
                    }
                    ForceRegistrationResult::EvictedConflicting(existing_value)
                }
            },
            None => {
                proof {
                    lemma_assoc_map_push(self.entries@, key, value);
                    lemma_assoc_map_domain(self.entries@, key);
                }
                self.entries.push((key, value));
                ForceRegistrationResult::Registered
            },
        }
    }

    /// Remove the key from the registry and return its prior value.
    pub fn unregister(&mut self, key: Key) -> (r: Option<Value>)
        requires
            old(self).wf(),
        ensures
            final(self).wf(),
            final(self).view() == old(self).view().remove(key),
            r == (if old(self).view().contains_key(key) {
                Some(old(self).view()[key])
            } else {
                None::<Value>
            }),
    {
        match self.find_index(key) {
            Some(i) => {
                proof {
                    lemma_assoc_map_value(self.entries@, i as int);
                    lemma_assoc_map_remove(self.entries@, i as int);
                }
                let (_, value) = self.entries.remove(i);
                Some(value)
            },
            None => {
                proof {
                    lemma_assoc_map_domain(self.entries@, key);
                    assert(self.view().remove(key) =~= self.view());
                }
                None
            },
        }
    }

    /// Remove the key only if it still holds the given value.
    pub fn compare_and_unregister(&mut self, entry: Entry) -> (r: Result<
        (),
        CompareAndUnregisterError,
    >)
        requires
            old(self).wf(),
        ensures
            final(self).wf(),
            if !old(self).view().contains_key(entry.key) {
                &&& final(self).view() == old(self).view()
                &&& r == Err::<(), _>(CompareAndUnregisterError::KeyNotFound)
            } else if old(self).view()[entry.key] == entry.value {
                &&& final(self).view() == old(self).view().remove(entry.key)
                &&& r == Ok::<_, CompareAndUnregisterError>(())
            } else {
                &&& final(self).view() == old(self).view()
                &&& r == Err::<(), _>(
                    CompareAndUnregisterError::DifferentValue(old(self).view()[entry.key]),
                )
            },
    {
        let Entry { key, value } = entry;
        match self.find_index(key) {
            Some(i) => {
                let existing_value = self.entries[i].1;
                proof {
                    lemma_assoc_map_value(self.entries@, i as int);
                }
                if existing_value == value {
                    proof {
                        lemma_assoc_map_remove(self.entries@, i as int);
                    }
                    let _ = self.entries.remove(i);
                    Ok(())
                } else {
                    Err(CompareAndUnregisterError::DifferentValue(existing_value))
                }
            },
            None => {
                proof {
                    lemma_assoc_map_domain(self.entries@, key);
                }
                Err(CompareAndUnregisterError::KeyNotFound)
            },
        }
    }
}

} // verus!
