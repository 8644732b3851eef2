//! The key model: the identities under which the registry files its entries.

use vstd::prelude::*;

verus! {

/// An opaque token that stands for one static type. Two identities are equal
/// exactly when their tokens are.
#[derive(Clone, Copy, Debug, PartialEq, Eq, Structural, Hash)]
pub struct TypeIdentity {
    pub token: u64,
}

impl TypeIdentity {
    /// The identity that carries `token`.
    pub fn new(token: u64) -> (id: Self)
        ensures
            id == (TypeIdentity { token }),
    {
        TypeIdentity { token }
    }
}

/// Names the set of discriminant values known for one owning type under one
/// discriminant type.
#[derive(Clone, Copy, Debug, PartialEq, Eq, Structural, Hash)]
pub struct KnownSpecializationKey {
    pub specialization_type_id: TypeIdentity,
    pub type_id: TypeIdentity,
}

impl KnownSpecializationKey {
    /// The key of the pair (owning type, discriminant type).
    pub fn new(type_id: TypeIdentity, specialization_type_id: TypeIdentity) -> (key: Self)
        ensures
            key == (KnownSpecializationKey { specialization_type_id, type_id }),
    {
        KnownSpecializationKey { type_id, specialization_type_id }
    }

    /// The known-specializations key under which the discriminant value of
    /// `entry_key` is recorded.
    pub fn new_for_specialization(entry_key: &SpecializedEntryKey) -> (key: Self)
        ensures
            key == entry_key.known_key(),
    {
        KnownSpecializationKey::new(entry_key.type_id, entry_key.specialization_type_id)
    }

    /// The slot of discriminant value `value` within this pair.
    pub open spec fn entry_key(self, value: i32) -> SpecializedEntryKey {
        SpecializedEntryKey {
            specialization_value: value,
            specialization_type_id: self.specialization_type_id,
            type_id: self.type_id,
        }
    }
}

/// Names one specialized slot: an owning type, a discriminant type and the
/// integer value of the discriminant.
#[derive(Clone, Copy, Debug, PartialEq, Eq, Structural, Hash)]
pub struct SpecializedEntryKey {
    pub specialization_value: i32,
    pub specialization_type_id: TypeIdentity,
    pub type_id: TypeIdentity,
}

impl SpecializedEntryKey {
    /// The key of the triple (owning type, discriminant type, discriminant value).
    pub fn new(
        type_id: TypeIdentity,
        specialization_type_id: TypeIdentity,
        specialization_value: i32,
    ) -> (key: Self)
        ensures
            key == (SpecializedEntryKey { specialization_value, specialization_type_id, type_id }),
    {
        SpecializedEntryKey { type_id, specialization_type_id, specialization_value }
    }

    /// The slot of discriminant value `specialization_value` within the pair
    /// that `known` names.
    pub fn new_for_specialization(known: &KnownSpecializationKey, specialization_value: i32) -> (key:
        Self)
        ensures
            key == known.entry_key(specialization_value),
    {
        SpecializedEntryKey::new(known.type_id, known.specialization_type_id, specialization_value)
    }

    /// The pair (owning type, discriminant type) that this slot belongs to.
    pub open spec fn known_key(self) -> KnownSpecializationKey {
        KnownSpecializationKey {
            specialization_type_id: self.specialization_type_id,
            type_id: self.type_id,
        }
    }
}

/// Two specialized keys are equal exactly when their three components are.
pub proof fn lemma_specialized_key_equality(a: SpecializedEntryKey, b: SpecializedEntryKey)
    ensures
        (a == b) <==> (a.type_id == b.type_id && a.specialization_type_id
            == b.specialization_type_id && a.specialization_value == b.specialization_value),
        a.known_key().entry_key(a.specialization_value) == a,
{
}

/// Two known-specialization keys are equal exactly when both components are,
/// and a slot built within a pair belongs to that pair.
pub proof fn lemma_known_key_equality(a: KnownSpecializationKey, b: KnownSpecializationKey, value: i32)
    ensures
        (a == b) <==> (a.type_id == b.type_id && a.specialization_type_id
            == b.specialization_type_id),
        a.entry_key(value).known_key() == a,
        a.entry_key(value).specialization_value == value,
{
}

} // verus!
