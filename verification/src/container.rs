//! The registry and its resolution engine.

use vstd::prelude::*;
use std::sync::Arc;
use crate::assoc::{
    assoc_map, distinct_keys, lemma_assoc_absent, lemma_assoc_lookup, lemma_assoc_push,
    lemma_assoc_update,
};
use crate::error::ContainerError;
use crate::keys::{KnownSpecializationKey, SpecializedEntryKey, TypeIdentity};
use crate::model::{record, settled_result, share, ContainerEntry, ContainerResult, ContainerView};

verus! {

/// Builds a value of the registry's payload type on demand.
///
/// A factory may resolve and register other entries of the container it is
/// handed, but must not resolve the key it stands under. Nothing is assumed
/// of what it returns or of what it leaves in the container.
pub trait Factory<V>: Sized {
    /// Builds the value, or says why it could not.
    fn build(&self, container: &mut Container<V, Self>) -> (outcome: ContainerResult<V>);
}

/// The known-specializations store with each list of values taken by its view.
spec fn known_pairs(s: Seq<(KnownSpecializationKey, Vec<i32>)>) -> Seq<
    (KnownSpecializationKey, Seq<i32>),
> {
    Seq::new(s.len(), |i: int| (s[i].0, s[i].1@))
}

/// The registry: a default store, a specialized store, and the discriminant
/// values known for each (owning type, discriminant type) pair.
pub struct Container<V, F> {
    entries: Vec<(TypeIdentity, ContainerEntry<V, F>)>,
    specialized_entries: Vec<(SpecializedEntryKey, ContainerEntry<V, F>)>,
    specializations: Vec<(KnownSpecializationKey, Vec<i32>)>,
}

impl<V, F> View for Container<V, F> {
    type V = ContainerView<V, F>;

    closed spec fn view(&self) -> ContainerView<V, F> {
        ContainerView {
            entries: assoc_map(self.entries@),
            specialized_entries: assoc_map(self.specialized_entries@),
            specializations: assoc_map(known_pairs(self.specializations@)),
        }
    }
}

impl<V, F> Container<V, F> {
    /// At most one entry stands under each key, and no discriminant value is
    /// recorded twice.
    #[verifier::type_invariant]
    spec fn well_formed(self) -> bool {
        &&& distinct_keys(self.entries@)
        &&& distinct_keys(self.specialized_entries@)
        &&& distinct_keys(known_pairs(self.specializations@))
        &&& forall|i: int|
            0 <= i < self.specializations@.len() ==> (
            #[trigger] self.specializations@[i]).1@.no_duplicates()
    }
}

/// The values of `values`, followed by `value` unless it is among them.
fn recorded(values: &Vec<i32>, value: i32) -> (out: Vec<i32>)
    requires
        values@.no_duplicates(),
    ensures
        out@ == record(values@, value),
        out@.no_duplicates(),
{
    let mut out: Vec<i32> = Vec::new();
    let mut present = false;
    let mut j: usize = 0;
    while j < values.len()
        invariant
            j <= values.len(),
            out@ == values@.subrange(0, j as int),
            present == values@.subrange(0, j as int).contains(value),
        decreases values.len() - j,
    {
        let x: i32 = values[j];
        if x == value {
            present = true;
        }
        out.push(x);
        proof {
            let before = values@.subrange(0, j as int);
            let after = values@.subrange(0, j + 1);
            assert(after =~= before.push(x));
            assert(after.contains(value) == (before.contains(value) || x == value)) by {
                if before.contains(value) {
                    let w = choose|w: int| 0 <= w < before.len() && before[w] == value;
                    assert(after[w] == value);
                }
                if x == value {
                    assert(after[j as int] == value);
                }
            }
        }
        j += 1;
    }
    assert(values@.subrange(0, j as int) =~= values@);
    if !present {
        out.push(value);
    }
    out
}

impl<V, F: Factory<V>> Container<V, F> {
    /// A registry that holds nothing.
    pub fn new() -> (container: Self)
        ensures
            container@ == ContainerView::<V, F>::empty(),
    {
        let container = Container {
            entries: Vec::new(),
            specialized_entries: Vec::new(),
            specializations: Vec::new(),
        };
        assert(known_pairs(container.specializations@) =~= Seq::empty());
        container
    }

    /// Stores `instance` as a ready instance under the default key `type_id`,
    /// in place of what stood there, and hands the container back for the
    /// next call.
    pub fn register_instance(&mut self, type_id: TypeIdentity, instance: V) -> (container: &mut Self)
        ensures
            container@ == old(self)@.with_entry(
                type_id,
                ContainerEntry::Instance(Arc::new(instance)),
            ),
            *final(self) == *final(container),
    {
        self.put_entry(type_id, ContainerEntry::Instance(Arc::new(instance)));
        self
    }

    /// Stores `instance` as a ready instance under the specialized key `key`,
    /// in place of what stood there, and records the key's discriminant value
    /// as known.
    pub fn register_specialized_instance(&mut self, key: SpecializedEntryKey, instance: V) -> (container:
        &mut Self)
        ensures
            container@ == old(self)@.with_specialization(
                key,
                ContainerEntry::Instance(Arc::new(instance)),
            ),
            *final(self) == *final(container),
    {
        self.put_specialized(key, ContainerEntry::Instance(Arc::new(instance)));
        self.register_specialization(&key);
        self
    }

    /// Stores `factory` as an unrealized factory under the default key
    /// `type_id`, in place of what stood there.
    pub fn register_factory(&mut self, type_id: TypeIdentity, factory: F) -> (container: &mut Self)
        ensures
            container@ == old(self)@.with_entry(type_id, ContainerEntry::Factory(Arc::new(factory))),
            *final(self) == *final(container),
    {
        self.put_entry(type_id, ContainerEntry::Factory(Arc::new(factory)));
        self
    }

    /// Stores `factory` as an unrealized factory under the specialized key
    /// `key`, in place of what stood there, and records the key's
    /// discriminant value as known.
    pub fn register_specialized_factory(&mut self, key: SpecializedEntryKey, factory: F) -> (container:
        &mut Self)
        ensures
            container@ == old(self)@.with_specialization(
                key,
                ContainerEntry::SpecializedFactory(Arc::new(factory)),
            ),
            *final(self) == *final(container),
    {
        self.put_specialized(key, ContainerEntry::SpecializedFactory(Arc::new(factory)));
        self.register_specialization(&key);
        self
    }

    /// Finishes a default resolution whose factory came back with `outcome`.
    ///
    /// A value is stored as the ready instance under `type_id` and handed
    /// out; a failure leaves the registry as it is and is reported as a
    /// factory error that wraps the cause.
    pub fn settle_default(&mut self, type_id: TypeIdentity, outcome: ContainerResult<V>) -> (result:
        ContainerResult<Arc<V>>)
        ensures
            result == settled_result(outcome),
            final(self)@ == old(self)@.settled_default(type_id, outcome),
    {
        match outcome {
            Ok(value) => {
                let handle = Arc::new(value);
                self.put_entry(type_id, ContainerEntry::Instance(share(&handle)));
                Ok(handle)
            },
            Err(cause) => Err(ContainerError::from_factory(cause)),
        }
    }

    /// Finishes a specialized resolution whose factory came back with
    /// `outcome`, as `settle_default` does for the default store. The known
    /// values are left as they are.
    pub fn settle_specialized(
        &mut self,
        key: SpecializedEntryKey,
        outcome: ContainerResult<V>,
    ) -> (result: ContainerResult<Arc<V>>)
        ensures
            result == settled_result(outcome),
            final(self)@ == old(self)@.settled_specialized(key, outcome),
    {
        match outcome {
            Ok(value) => {
                let handle = Arc::new(value);
                self.put_specialized(key, ContainerEntry::Instance(share(&handle)));
                Ok(handle)
            },
            Err(cause) => Err(ContainerError::from_factory(cause)),
        }
    }

    /// Resolves the default key `type_id`.
    ///
    /// Without an entry, or with one that is no default entry, the result is
    /// `MissingEntry`. A ready instance is handed out. A factory is invoked
    /// with this container; its value becomes the ready instance under
    /// `type_id`, its failure is reported as a factory error and the factory
    /// stays in place. Only in the last case can the registry change, and
    /// then the factory decides what else changes.
    pub fn default(&mut self, type_id: TypeIdentity) -> (result: ContainerResult<Arc<V>>)
        ensures
            match old(self)@.default_answer(type_id) {
                Some(answer) => result == answer && final(self)@ == old(self)@,
                None => match result {
                    Ok(handle) => final(self)@.default_answer(type_id) == Some(
                        Ok::<Arc<V>, ContainerError>(handle),
                    ),
                    Err(err) => err is FactoryError,
                },
            },
    {
        let entry = match self.find_entry(type_id) {
            Some(i) => Some(self.entries[i].1.clone()),
            None => None,
        };
        match entry {
            Some(ContainerEntry::Instance(instance)) => Ok(instance),
            Some(ContainerEntry::Factory(factory)) => {
                let outcome = factory.build(self);
                self.settle_default(type_id, outcome)
            },
            _ => Err(ContainerError::MissingEntry),
        }
    }

    /// Resolves the specialized key `key`.
    ///
    /// Without an entry, or with one that is no specialized entry, the result
    /// is `MissingSpecializedEntry`. A ready instance is handed out. A
    /// factory is invoked with this container; its value becomes the ready
    /// instance under `key`, its failure is reported as a factory error and
    /// the factory stays in place.
    pub fn specialized(&mut self, key: SpecializedEntryKey) -> (result: ContainerResult<Arc<V>>)
        ensures
            match old(self)@.specialized_answer(key) {
                Some(answer) => result == answer && final(self)@ == old(self)@,
                None => match result {
                    Ok(handle) => final(self)@.specialized_answer(key) == Some(
                        Ok::<Arc<V>, ContainerError>(handle),
                    ),
                    Err(err) => err is FactoryError,
                },
            },
    {
        let entry = match self.find_specialized(&key) {
            Some(i) => Some(self.specialized_entries[i].1.clone()),
            None => None,
        };
        match entry {
            Some(ContainerEntry::Instance(instance)) => Ok(instance),
            Some(ContainerEntry::SpecializedFactory(factory)) => {
                let outcome = factory.build(self);
                self.settle_specialized(key, outcome)
            },
            _ => Err(ContainerError::MissingSpecializedEntry),
        }
    }

    /// Resolves every discriminant value known for `known`, in the order in
    /// which the values were first registered.
    ///
    /// The pair gets a set of known values if it had none, an empty one.
    /// The first resolution that fails ends the enumeration with its error.
    /// Where a ready instance stands under every known value, no factory
    /// runs and the result is exactly those instances.
    pub fn all_specialized(&mut self, known: KnownSpecializationKey) -> (result: ContainerResult<
        Vec<Arc<V>>,
    >)
        ensures
            old(self)@.all_ready(known) ==> final(self)@ == old(self)@.with_known_key(known) && (
            result matches Ok(handles) && handles@ == old(self)@.ready_handles(known)),
            result matches Ok(handles) ==> handles@.len() == old(self)@.known_values(known).len(),
            old(self)@.known_values(known).no_duplicates(),
            result matches Err(err) ==> err is FactoryError || err is MissingSpecializedEntry,
    {
        let values = self.known_values(&known);
        if values.len() == 0 {
            let none: Vec<i32> = Vec::new();
            assert(none@ =~= values@);
            self.put_known(known, none);
        }
        let ghost start = self@;
        assert(start.specializations =~= old(self)@.with_known_key(known).specializations);
        let ghost ready = start.all_ready(known);
        assert(start == old(self)@.with_known_key(known));
        assert(start.known_values(known) == old(self)@.known_values(known));
        assert(ready == old(self)@.all_ready(known));
        let mut instances: Vec<Arc<V>> = Vec::new();
        let mut i: usize = 0;
        while i < values.len()
            invariant
                i <= values@.len(),
                instances@.len() == i,
                values@ == start.known_values(known),
                values@ == old(self)@.known_values(known),
                values@.no_duplicates(),
                ready == old(self)@.all_ready(known),
                ready == start.all_ready(known),
                ready ==> self@ == start,
                ready ==> forall|j: int|
                    0 <= j < i ==> instances@[j] == start.ready_handle(
                        known.entry_key(values@[j]),
                    ),
            decreases values@.len() - i,
        {
            let key = SpecializedEntryKey::new_for_specialization(&known, values[i]);
            proof {
                if ready {
                    assert(start.specialized_entries.dom().contains(
                        known.entry_key(values@[i as int]),
                    ));
                }
            }
            match self.specialized(key) {
                Ok(handle) => instances.push(handle),
                Err(err) => {
                    return Err(err);
                },
            }
            i += 1;
        }
        proof {
            if ready {
                assert(instances@ =~= old(self)@.ready_handles(known));
            }
        }
        Ok(instances)
    }

    /// Where in the default store `type_id` stands.
    fn find_entry(&self, type_id: TypeIdentity) -> (found: Option<usize>)
        ensures
            match found {
                Some(i) => i < self.entries@.len() && self.entries@[i as int].0 == type_id
                    && self@.entry(type_id) == Some(self.entries@[i as int].1),
                None => self@.entry(type_id).is_none(),
            },
    {
        proof {
            use_type_invariant(self);
        }
        let mut i: usize = 0;
        while i < self.entries.len()
            invariant
                i <= self.entries@.len(),
                distinct_keys(self.entries@),
                forall|j: int| 0 <= j < i ==> self.entries@[j].0 != type_id,
            decreases self.entries@.len() - i,
        {
            if self.entries[i].0 == type_id {
                proof {
                    lemma_assoc_lookup(self.entries@, i as int);
                }
                return Some(i);
            }
            i += 1;
        }
        proof {
            lemma_assoc_absent(self.entries@, type_id);
        }
        None
    }

    /// Where in the specialized store `key` stands.
    fn find_specialized(&self, key: &SpecializedEntryKey) -> (found: Option<usize>)
        ensures
            match found {
                Some(i) => i < self.specialized_entries@.len() && self.specialized_entries@[i as int].0
                    == *key && self@.specialized_entry(*key) == Some(
                    self.specialized_entries@[i as int].1,
                ),
                None => self@.specialized_entry(*key).is_none(),
            },
    {
        proof {
            use_type_invariant(self);
        }
        let mut i: usize = 0;
        while i < self.specialized_entries.len()
            invariant
                i <= self.specialized_entries@.len(),
                distinct_keys(self.specialized_entries@),
                forall|j: int| 0 <= j < i ==> self.specialized_entries@[j].0 != *key,
            decreases self.specialized_entries@.len() - i,
        {
            if self.specialized_entries[i].0 == *key {
                proof {
                    lemma_assoc_lookup(self.specialized_entries@, i as int);
                }
                return Some(i);
            }
            i += 1;
        }
        proof {
            lemma_assoc_absent(self.specialized_entries@, *key);
        }
        None
    }

    /// Where in the known-specializations store `known` stands.
    fn find_known(&self, known: &KnownSpecializationKey) -> (found: Option<usize>)
        ensures
            match found {
                Some(i) => i < self.specializations@.len() && self.specializations@[i as int].0
                    == *known && self@.specializations.dom().contains(*known)
                    && self@.known_values(*known) == self.specializations@[i as int].1@,
                None => !self@.specializations.dom().contains(*known),
            },
    {
        proof {
            use_type_invariant(self);
        }
        let ghost pairs = known_pairs(self.specializations@);
        let mut i: usize = 0;
        while i < self.specializations.len()
            invariant
                i <= self.specializations@.len(),
                pairs == known_pairs(self.specializations@),
                distinct_keys(pairs),
                forall|j: int| 0 <= j < i ==> pairs[j].0 != *known,
            decreases self.specializations@.len() - i,
        {
            if self.specializations[i].0 == *known {
                proof {
                    lemma_assoc_lookup(pairs, i as int);
                }
                return Some(i);
            }
            i += 1;
        }
        proof {
            lemma_assoc_absent(pairs, *known);
        }
        None
    }

    /// Puts `entry` under the default key `type_id`, in place of what stood there.
    fn put_entry(&mut self, type_id: TypeIdentity, entry: ContainerEntry<V, F>)
        ensures
            final(self)@ == old(self)@.with_entry(type_id, entry),
    {
        proof {
            use_type_invariant(&*self);
        }
        match self.find_entry(type_id) {
            Some(i) => {
                proof {
                    lemma_assoc_update(self.entries@, i as int, entry);
                }
                let mut entries: Vec<(TypeIdentity, ContainerEntry<V, F>)> = Vec::new();
                std::mem::swap(&mut self.entries, &mut entries);
                entries.set(i, (type_id, entry));
                self.entries = entries;
            },
            None => {
                proof {
                    lemma_assoc_push(self.entries@, type_id, entry);
                    assert forall|j: int| 0 <= j < self.entries@.len() implies self.entries@[j].0
                        != type_id by {
                        if self.entries@[j].0 == type_id {
                            lemma_assoc_lookup(self.entries@, j);
                        }
                    }
                }
                let mut entries: Vec<(TypeIdentity, ContainerEntry<V, F>)> = Vec::new();
                std::mem::swap(&mut self.entries, &mut entries);
                entries.push((type_id, entry));
                self.entries = entries;
            },
        }
    }

    /// Puts `entry` under the specialized key `key`, in place of what stood there.
    fn put_specialized(&mut self, key: SpecializedEntryKey, entry: ContainerEntry<V, F>)
        ensures
            final(self)@ == old(self)@.with_specialized_entry(key, entry),
    {
        proof {
            use_type_invariant(&*self);
        }
        match self.find_specialized(&key) {
            Some(i) => {
                proof {
                    lemma_assoc_update(self.specialized_entries@, i as int, entry);
                }
                let mut entries: Vec<(SpecializedEntryKey, ContainerEntry<V, F>)> = Vec::new();
                std::mem::swap(&mut self.specialized_entries, &mut entries);
                entries.set(i, (key, entry));
                self.specialized_entries = entries;
            },
            None => {
                proof {
                    lemma_assoc_push(self.specialized_entries@, key, entry);
                    assert forall|j: int|
                        0 <= j < self.specialized_entries@.len() implies self.specialized_entries@[j].0
                        != key by {
                        if self.specialized_entries@[j].0 == key {
                            lemma_assoc_lookup(self.specialized_entries@, j);
                        }
                    }
                }
                let mut entries: Vec<(SpecializedEntryKey, ContainerEntry<V, F>)> = Vec::new();
                std::mem::swap(&mut self.specialized_entries, &mut entries);
                entries.push((key, entry));
                self.specialized_entries = entries;
            },
        }
    }

    /// Puts `values` as the known values of `known`.
    fn put_known(&mut self, known: KnownSpecializationKey, values: Vec<i32>)
        requires
            values@.no_duplicates(),
        ensures
            final(self)@ == (ContainerView {
                specializations: old(self)@.specializations.insert(known, values@),
                ..old(self)@
            }),
    {
        proof {
            use_type_invariant(&*self);
        }
        let ghost pairs = known_pairs(self.specializations@);
        match self.find_known(&known) {
            Some(i) => {
                proof {
                    lemma_assoc_update(pairs, i as int, values@);
                    assert(known_pairs(self.specializations@.update(i as int, (known, values)))
                        =~= pairs.update(i as int, (known, values@)));
                }
                let mut all: Vec<(KnownSpecializationKey, Vec<i32>)> = Vec::new();
                std::mem::swap(&mut self.specializations, &mut all);
                all.set(i, (known, values));
                self.specializations = all;
            },
            None => {
                proof {
                    lemma_assoc_push(pairs, known, values@);
                    assert forall|j: int| 0 <= j < pairs.len() implies pairs[j].0 != known by {
                        if pairs[j].0 == known {
                            lemma_assoc_lookup(pairs, j);
                        }
                    }
                    assert(known_pairs(self.specializations@.push((known, values))) =~= pairs.push(
                        (known, values@),
                    ));
                }
                let mut all: Vec<(KnownSpecializationKey, Vec<i32>)> = Vec::new();
                std::mem::swap(&mut self.specializations, &mut all);
                all.push((known, values));
                self.specializations = all;
            },
        }
    }

    /// Records the discriminant value of `key` as known for its (owning type,
    /// discriminant type) pair.
    fn register_specialization(&mut self, key: &SpecializedEntryKey)
        ensures
            final(self)@ == old(self)@.with_known(*key),
    {
        proof {
            use_type_invariant(&*self);
        }
        let known = KnownSpecializationKey::new_for_specialization(key);
        let values = self.known_values(&known);
        let values = recorded(&values, key.specialization_value);
        self.put_known(known, values);
    }

    /// The discriminant values known for `known`, in the order of their
    /// first registration.
    fn known_values(&self, known: &KnownSpecializationKey) -> (values: Vec<i32>)
        ensures
            values@ == self@.known_values(*known),
            values@.no_duplicates(),
    {
        proof {
            use_type_invariant(self);
        }
        match self.find_known(known) {
            Some(i) => {
                let stored = &self.specializations[i].1;
                let mut values: Vec<i32> = Vec::new();
                let mut j: usize = 0;
                while j < stored.len()
                    invariant
                        j <= stored@.len(),
                        values@ == stored@.subrange(0, j as int),
                    decreases stored@.len() - j,
                {
                    values.push(stored[j]);
                    assert(stored@.subrange(0, j + 1) =~= stored@.subrange(0, j as int).push(
                        stored@[j as int],
                    ));
                    j += 1;
                }
                assert(stored@.subrange(0, j as int) =~= stored@);
                values
            },
            None => Vec::new(),
        }
    }
}

} // verus!
