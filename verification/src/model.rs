//! The registry as a mathematical value, and what stands under its keys.

use vstd::prelude::*;
use std::sync::Arc;
use crate::error::ContainerError;
use crate::keys::{KnownSpecializationKey, SpecializedEntryKey, TypeIdentity};

verus! {

/// What a resolution returns: the value asked for, or why it could not be had.
pub type ContainerResult<T> = Result<T, ContainerError>;

/// What stands under a key.
pub enum ContainerEntry<V, F> {
    /// A value that is ready to be handed out.
    Instance(Arc<V>),
    /// A factory of the default store that has not produced its value yet.
    Factory(Arc<F>),
    /// A factory of the specialized store that has not produced its value yet.
    SpecializedFactory(Arc<F>),
}

/// Another handle to the value behind `handle`.
///
/// Calls `Arc::clone`. Taken on trust: the handle that comes back points to
/// the same allocation, so it equals the one it was made from.
#[verifier::external_body]
pub(crate) fn share<T>(handle: &Arc<T>) -> (other: Arc<T>)
    ensures
        other == *handle,
{
    Arc::clone(handle)
}

impl<V, F> Clone for ContainerEntry<V, F> {
    /// An entry that shares the instance or the factory of this one.
    fn clone(&self) -> (entry: Self)
        ensures
            entry == *self,
    {
        match self {
            ContainerEntry::Instance(instance) => ContainerEntry::Instance(share(instance)),
            ContainerEntry::Factory(factory) => ContainerEntry::Factory(share(factory)),
            ContainerEntry::SpecializedFactory(factory) => ContainerEntry::SpecializedFactory(
                share(factory),
            ),
        }
    }
}

/// The values of `values`, with `value` added at the end unless it is among
/// them already.
pub open spec fn record(values: Seq<i32>, value: i32) -> Seq<i32> {
    if values.contains(value) {
        values
    } else {
        values.push(value)
    }
}

/// The registry as a mathematical value.
pub ghost struct ContainerView<V, F> {
    /// The default store.
    pub entries: Map<TypeIdentity, ContainerEntry<V, F>>,
    /// The specialized store.
    pub specialized_entries: Map<SpecializedEntryKey, ContainerEntry<V, F>>,
    /// For each (owning type, discriminant type) pair, the discriminant values
    /// registered so far, in the order of their first registration.
    pub specializations: Map<KnownSpecializationKey, Seq<i32>>,
}

impl<V, F> ContainerView<V, F> {
    /// The registry that holds nothing.
    pub open spec fn empty() -> Self {
        ContainerView {
            entries: Map::empty(),
            specialized_entries: Map::empty(),
            specializations: Map::empty(),
        }
    }

    /// The discriminant values known for `known`; none where the pair was
    /// never seen.
    pub open spec fn known_values(self, known: KnownSpecializationKey) -> Seq<i32> {
        if self.specializations.dom().contains(known) {
            self.specializations[known]
        } else {
            Seq::empty()
        }
    }

    /// This registry with `entry` under the default key `type_id`.
    pub open spec fn with_entry(self, type_id: TypeIdentity, entry: ContainerEntry<V, F>) -> Self {
        ContainerView { entries: self.entries.insert(type_id, entry), ..self }
    }

    /// This registry with `entry` under the specialized key `key`; the known
    /// values are left as they are.
    pub open spec fn with_specialized_entry(
        self,
        key: SpecializedEntryKey,
        entry: ContainerEntry<V, F>,
    ) -> Self {
        ContainerView { specialized_entries: self.specialized_entries.insert(key, entry), ..self }
    }

    /// This registry with the discriminant value of `key` recorded as known.
    pub open spec fn with_known(self, key: SpecializedEntryKey) -> Self {
        ContainerView {
            specializations: self.specializations.insert(
                key.known_key(),
                record(self.known_values(key.known_key()), key.specialization_value),
            ),
            ..self
        }
    }

    /// This registry with a set of known values for `known`, empty where
    /// the pair was never seen.
    pub open spec fn with_known_key(self, known: KnownSpecializationKey) -> Self {
        ContainerView {
            specializations: self.specializations.insert(known, self.known_values(known)),
            ..self
        }
    }

    /// This registry after a specialized registration of `entry` under `key`.
    pub open spec fn with_specialization(
        self,
        key: SpecializedEntryKey,
        entry: ContainerEntry<V, F>,
    ) -> Self {
        self.with_specialized_entry(key, entry).with_known(key)
    }

    /// What stands under the default key `type_id`, if anything.
    pub open spec fn entry(self, type_id: TypeIdentity) -> Option<ContainerEntry<V, F>> {
        if self.entries.dom().contains(type_id) {
            Some(self.entries[type_id])
        } else {
            None
        }
    }

    /// What stands under the specialized key `key`, if anything.
    pub open spec fn specialized_entry(self, key: SpecializedEntryKey) -> Option<
        ContainerEntry<V, F>,
    > {
        if self.specialized_entries.dom().contains(key) {
            Some(self.specialized_entries[key])
        } else {
            None
        }
    }

    /// What a default resolution of `type_id` returns where no factory has
    /// to run; nothing where a factory stands under the key.
    pub open spec fn default_answer(self, type_id: TypeIdentity) -> Option<
        ContainerResult<Arc<V>>,
    > {
        match self.entry(type_id) {
            Some(ContainerEntry::Instance(handle)) => Some(Ok(handle)),
            Some(ContainerEntry::Factory(_)) => None,
            _ => Some(Err(ContainerError::MissingEntry)),
        }
    }

    /// What a specialized resolution of `key` returns where no factory has
    /// to run; nothing where a factory stands under the key.
    pub open spec fn specialized_answer(self, key: SpecializedEntryKey) -> Option<
        ContainerResult<Arc<V>>,
    > {
        match self.specialized_entry(key) {
            Some(ContainerEntry::Instance(handle)) => Some(Ok(handle)),
            Some(ContainerEntry::SpecializedFactory(_)) => None,
            _ => Some(Err(ContainerError::MissingSpecializedEntry)),
        }
    }

    /// This registry once the factory under the default key `type_id` has come
    /// back with `outcome`: a value is memoized, a failure changes nothing.
    pub open spec fn settled_default(self, type_id: TypeIdentity, outcome: ContainerResult<V>) -> Self {
        match outcome {
            Ok(value) => self.with_entry(type_id, ContainerEntry::Instance(Arc::new(value))),
            Err(_) => self,
        }
    }

    /// This registry once the factory under the specialized key `key` has come
    /// back with `outcome`: a value is memoized, a failure changes nothing.
    pub open spec fn settled_specialized(
        self,
        key: SpecializedEntryKey,
        outcome: ContainerResult<V>,
    ) -> Self {
        match outcome {
            Ok(value) => self.with_specialized_entry(
                key,
                ContainerEntry::Instance(Arc::new(value)),
            ),
            Err(_) => self,
        }
    }

    /// A ready instance stands under each discriminant value known for `known`.
    pub open spec fn all_ready(self, known: KnownSpecializationKey) -> bool {
        ready_under(self.specialized_entries, known, self.known_values(known))
    }

    /// The instance under the specialized key `key`, where one stands there.
    pub open spec fn ready_handle(self, key: SpecializedEntryKey) -> Arc<V> {
        match self.specialized_entry(key) {
            Some(ContainerEntry::Instance(handle)) => handle,
            _ => arbitrary(),
        }
    }

    /// The instances under the discriminant values known for `known`, in the
    /// order of those values.
    pub open spec fn ready_handles(self, known: KnownSpecializationKey) -> Seq<Arc<V>> {
        Seq::new(
            self.known_values(known).len(),
            |j: int| self.ready_handle(known.entry_key(self.known_values(known)[j])),
        )
    }
}

/// What a resolution hands out once its factory has come back with `outcome`:
/// a shared handle to the value, or a factory error that wraps the cause.
pub open spec fn settled_result<V>(outcome: ContainerResult<V>) -> ContainerResult<Arc<V>> {
    match outcome {
        Ok(value) => Ok(Arc::new(value)),
        Err(cause) => Err(ContainerError::FactoryError { error: Box::new(cause) }),
    }
}

/// A ready instance stands in `entries` under each of `values` within `known`.
pub open spec fn ready_under<V, F>(
    entries: Map<SpecializedEntryKey, ContainerEntry<V, F>>,
    known: KnownSpecializationKey,
    values: Seq<i32>,
) -> bool {
    forall|j: int|
        0 <= j < values.len() ==> entries.dom().contains(known.entry_key(#[trigger] values[j]))
            && entries[known.entry_key(values[j])] is Instance
}

} // verus!
