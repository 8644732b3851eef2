//! What holds of the registry across several registrations and resolutions.

use vstd::prelude::*;
use std::sync::Arc;
use crate::model::{record, settled_result, ContainerEntry, ContainerResult, ContainerView};
use crate::error::ContainerError;
use crate::keys::{KnownSpecializationKey, SpecializedEntryKey, TypeIdentity};

verus! {

/// Of two registrations under one default key only the second counts: the
/// registry is as if the first had never been made, and a resolution of the
/// key is answered from the second instance.
pub proof fn lemma_registration_overwrites<V, F>(
    c: ContainerView<V, F>,
    type_id: TypeIdentity,
    first: ContainerEntry<V, F>,
    second: ContainerEntry<V, F>,
)
    ensures
        c.with_entry(type_id, first).with_entry(type_id, second) == c.with_entry(type_id, second),
        c.with_entry(type_id, second).entry(type_id) == Some(second),
        second matches ContainerEntry::Instance(handle) ==> c.with_entry(type_id, first).with_entry(
            type_id,
            second,
        ).default_answer(type_id) == Some(Ok::<Arc<V>, ContainerError>(handle)),
{
    assert(c.entries.insert(type_id, first).insert(type_id, second) =~= c.entries.insert(
        type_id,
        second,
    ));
}

/// Of two registrations under one specialized key only the second counts,
/// and the discriminant value is known once.
pub proof fn lemma_specialized_registration_overwrites<V, F>(
    c: ContainerView<V, F>,
    key: SpecializedEntryKey,
    first: ContainerEntry<V, F>,
    second: ContainerEntry<V, F>,
)
    ensures
        c.with_specialization(key, first).with_specialization(key, second) == c.with_specialization(
            key,
            second,
        ),
        c.with_specialization(key, second).specialized_entry(key) == Some(second),
        second matches ContainerEntry::Instance(handle) ==> c.with_specialization(
            key,
            first,
        ).with_specialization(key, second).specialized_answer(key) == Some(
            Ok::<Arc<V>, ContainerError>(handle),
        ),
{
    let once = c.with_specialization(key, second);
    let twice = c.with_specialization(key, first).with_specialization(key, second);
    lemma_record_contains(
        c.known_values(key.known_key()),
        key.specialization_value,
        key.specialization_value,
    );
    assert(twice.specialized_entries =~= once.specialized_entries);
    assert(twice.specializations =~= once.specializations);
}

/// A registration under one key leaves what stands under every other key.
pub proof fn lemma_registration_is_local<V, F>(
    c: ContainerView<V, F>,
    type_id: TypeIdentity,
    key: SpecializedEntryKey,
    entry: ContainerEntry<V, F>,
    other_type_id: TypeIdentity,
    other_key: SpecializedEntryKey,
)
    ensures
        other_type_id != type_id ==> c.with_entry(type_id, entry).entry(other_type_id) == c.entry(
            other_type_id,
        ),
        c.with_entry(type_id, entry).specialized_entry(other_key) == c.specialized_entry(other_key),
        other_key != key ==> c.with_specialization(key, entry).specialized_entry(other_key)
            == c.specialized_entry(other_key),
        c.with_specialization(key, entry).entry(other_type_id) == c.entry(other_type_id),
{
}

/// Once a factory has produced a value under a key, every later resolution
/// of that key is answered from the store, with the handle that the first
/// resolution handed out: no factory runs for it again.
pub proof fn lemma_factory_runs_once<V, F>(
    c: ContainerView<V, F>,
    type_id: TypeIdentity,
    key: SpecializedEntryKey,
    value: V,
)
    ensures
        c.settled_default(type_id, Ok(value)).default_answer(type_id) == Some(
            settled_result(Ok(value)),
        ),
        c.settled_specialized(key, Ok(value)).specialized_answer(key) == Some(
            settled_result(Ok(value)),
        ),
        c.settled_default(type_id, Ok(value)).default_answer(type_id) == Some(
            Ok::<Arc<V>, ContainerError>(Arc::new(value)),
        ),
        c.settled_specialized(key, Ok(value)).specialized_answer(key) == Some(
            Ok::<Arc<V>, ContainerError>(Arc::new(value)),
        ),
{
}

/// A factory that fails stays in place, so the next resolution of its key
/// invokes it again; once it succeeds, a ready instance stands in its place.
pub proof fn lemma_failed_factory_is_retried<V, F>(
    c: ContainerView<V, F>,
    type_id: TypeIdentity,
    key: SpecializedEntryKey,
    cause: ContainerError,
    value: V,
)
    ensures
        c.settled_default(type_id, Err(cause)) == c,
        c.settled_specialized(key, Err(cause)) == c,
        c.default_answer(type_id) is None ==> c.settled_default(
            type_id,
            Err(cause),
        ).default_answer(type_id) is None,
        c.specialized_answer(key) is None ==> c.settled_specialized(
            key,
            Err(cause),
        ).specialized_answer(key) is None,
        c.settled_default(type_id, Err(cause)).settled_default(type_id, Ok(value)).entry(type_id)
            == Some(ContainerEntry::<V, F>::Instance(Arc::new(value))),
        c.settled_specialized(key, Err(cause)).settled_specialized(
            key,
            Ok(value),
        ).specialized_entry(key) == Some(ContainerEntry::<V, F>::Instance(Arc::new(value))),
{
}

/// A key under which nothing was registered resolves to the missing-entry
/// error of its store.
pub proof fn lemma_missing_key<V, F>(
    c: ContainerView<V, F>,
    type_id: TypeIdentity,
    key: SpecializedEntryKey,
)
    ensures
        !c.entries.dom().contains(type_id) ==> c.default_answer(type_id) == Some(
            Err::<Arc<V>, ContainerError>(ContainerError::MissingEntry),
        ),
        !c.specialized_entries.dom().contains(key) ==> c.specialized_answer(key) == Some(
            Err::<Arc<V>, ContainerError>(ContainerError::MissingSpecializedEntry),
        ),
        ContainerView::<V, F>::empty().default_answer(type_id) == Some(
            Err::<Arc<V>, ContainerError>(ContainerError::MissingEntry),
        ),
        ContainerView::<V, F>::empty().specialized_answer(key) == Some(
            Err::<Arc<V>, ContainerError>(ContainerError::MissingSpecializedEntry),
        ),
{
}

/// A specialized registration makes its discriminant value known, and no
/// registration or memoization makes a known value unknown.
pub proof fn lemma_known_values_grow<V, F>(
    c: ContainerView<V, F>,
    key: SpecializedEntryKey,
    entry: ContainerEntry<V, F>,
    outcome: ContainerResult<V>,
    type_id: TypeIdentity,
    known: KnownSpecializationKey,
    value: i32,
)
    ensures
        c.with_specialization(key, entry).known_values(key.known_key()).contains(
            key.specialization_value,
        ),
        c.known_values(known).contains(value) ==> c.with_specialization(key, entry).known_values(
            known,
        ).contains(value),
        c.with_entry(type_id, entry).known_values(known) == c.known_values(known),
        c.settled_default(type_id, outcome).known_values(known) == c.known_values(known),
        c.settled_specialized(key, outcome).known_values(known) == c.known_values(known),
        c.with_known_key(known).known_values(known) == c.known_values(known),
{
    let s = c.known_values(key.known_key());
    let v = key.specialization_value;
    if !s.contains(v) {
        assert(s.push(v)[s.len() as int] == v);
    }
    if c.known_values(known).contains(value) && known == key.known_key() && !s.contains(v) {
        let w = choose|w: int| 0 <= w < s.len() && s[w] == value;
        assert(s.push(v)[w] == value);
    }
}

/// Recording a value adds that value to the known ones and nothing else.
pub proof fn lemma_record_contains(values: Seq<i32>, value: i32, other: i32)
    ensures
        record(values, value).contains(other) == (values.contains(other) || other == value),
        record(values, value).len() == if values.contains(value) {
            values.len()
        } else {
            values.len() + 1
        },
{
    if !values.contains(value) {
        let grown = values.push(value);
        assert(grown[values.len() as int] == value);
        if values.contains(other) {
            let w = choose|w: int| 0 <= w < values.len() && values[w] == other;
            assert(grown[w] == other);
        }
    }
}

/// Where two registries hold the same specialized entries and every value
/// known to the first is known to the second, each instance that the first
/// enumerates is enumerated by the second.
pub proof fn lemma_handles_follow_values<V, F>(
    x: ContainerView<V, F>,
    y: ContainerView<V, F>,
    known: KnownSpecializationKey,
    handle: Arc<V>,
)
    requires
        x.specialized_entries == y.specialized_entries,
        forall|value: i32|
            x.known_values(known).contains(value) ==> y.known_values(known).contains(value),
        x.ready_handles(known).contains(handle),
    ensures
        y.ready_handles(known).contains(handle),
{
    let j = choose|j: int|
        0 <= j < x.ready_handles(known).len() && x.ready_handles(known)[j] == handle;
    let value = x.known_values(known)[j];
    assert(x.known_values(known).contains(value));
    let w = choose|w: int| 0 <= w < y.known_values(known).len() && y.known_values(known)[w] == value;
    assert(y.ready_handles(known)[w] == handle);
}

/// Two specialized registrations under different keys can be made in either
/// order: the same entries stand in the store, the same discriminant values
/// are known, and an enumeration hands out the same set of instances.
pub proof fn lemma_specialization_order<V, F>(
    c: ContainerView<V, F>,
    a: SpecializedEntryKey,
    first: ContainerEntry<V, F>,
    b: SpecializedEntryKey,
    second: ContainerEntry<V, F>,
    known: KnownSpecializationKey,
)
    requires
        a != b,
    ensures
        ({
            let x = c.with_specialization(a, first).with_specialization(b, second);
            let y = c.with_specialization(b, second).with_specialization(a, first);
            &&& x.specialized_entries == y.specialized_entries
            &&& x.entries == y.entries
            &&& forall|value: i32|
                x.known_values(known).contains(value) == y.known_values(known).contains(value)
            &&& x.known_values(known).len() == y.known_values(known).len()
            &&& x.all_ready(known) == y.all_ready(known)
            &&& forall|handle: Arc<V>|
                x.ready_handles(known).contains(handle) == y.ready_handles(known).contains(handle)
        }),
{
    let x = c.with_specialization(a, first).with_specialization(b, second);
    let y = c.with_specialization(b, second).with_specialization(a, first);
    assert(x.specialized_entries =~= y.specialized_entries);
    let va = a.specialization_value;
    let vb = b.specialization_value;
    let start = c.known_values(known);
    lemma_record_contains(start, va, vb);
    lemma_record_contains(start, vb, va);
    assert forall|value: i32|
        x.known_values(known).contains(value) == y.known_values(known).contains(value) by {
        lemma_record_contains(start, va, value);
        lemma_record_contains(start, vb, value);
        lemma_record_contains(record(start, va), vb, value);
        lemma_record_contains(record(start, vb), va, value);
    }
    lemma_record_contains(record(start, va), vb, va);
    lemma_record_contains(record(start, vb), va, vb);
    assert(x.all_ready(known) == y.all_ready(known)) by {
        if x.all_ready(known) {
            assert forall|j: int| 0 <= j < y.known_values(known).len() implies
                y.specialized_entries.dom().contains(
                known.entry_key(#[trigger] y.known_values(known)[j]),
            ) && y.specialized_entries[known.entry_key(y.known_values(known)[j])] is Instance by {
                let value = y.known_values(known)[j];
                assert(y.known_values(known).contains(value));
                let w = choose|w: int|
                    0 <= w < x.known_values(known).len() && x.known_values(known)[w] == value;
                assert(x.known_values(known)[w] == value);
            }
        }
        if y.all_ready(known) {
            assert forall|j: int| 0 <= j < x.known_values(known).len() implies
                x.specialized_entries.dom().contains(
                known.entry_key(#[trigger] x.known_values(known)[j]),
            ) && x.specialized_entries[known.entry_key(x.known_values(known)[j])] is Instance by {
                let value = x.known_values(known)[j];
                assert(x.known_values(known).contains(value));
                let w = choose|w: int|
                    0 <= w < y.known_values(known).len() && y.known_values(known)[w] == value;
                assert(y.known_values(known)[w] == value);
            }
        }
    }
    assert forall|handle: Arc<V>|
        x.ready_handles(known).contains(handle) == y.ready_handles(known).contains(handle) by {
        if x.ready_handles(known).contains(handle) {
            lemma_handles_follow_values(x, y, known, handle);
        }
        if y.ready_handles(known).contains(handle) {
            lemma_handles_follow_values(y, x, known, handle);
        }
    }
}

/// No registration and no memoization removes an entry: a key that had one
/// has one afterwards.
pub proof fn lemma_entries_stay<V, F>(
    c: ContainerView<V, F>,
    type_id: TypeIdentity,
    key: SpecializedEntryKey,
    entry: ContainerEntry<V, F>,
    outcome: ContainerResult<V>,
    known: KnownSpecializationKey,
)
    ensures
        c.entries.dom().subset_of(c.with_entry(type_id, entry).entries.dom()),
        c.entries.dom().subset_of(c.settled_default(type_id, outcome).entries.dom()),
        c.entries == c.with_specialization(key, entry).entries,
        c.entries == c.settled_specialized(key, outcome).entries,
        c.entries == c.with_known_key(known).entries,
        c.specialized_entries.dom().subset_of(
            c.with_specialization(key, entry).specialized_entries.dom(),
        ),
        c.specialized_entries.dom().subset_of(
            c.settled_specialized(key, outcome).specialized_entries.dom(),
        ),
        c.specialized_entries == c.with_entry(type_id, entry).specialized_entries,
        c.specialized_entries == c.settled_default(type_id, outcome).specialized_entries,
        c.specialized_entries == c.with_known_key(known).specialized_entries,
{
}

/// The registry that holds two instances under two discriminant values of
/// one pair, and nothing else, enumerates exactly those two instances.
pub proof fn lemma_two_specializations<V, F>(
    known: KnownSpecializationKey,
    a: i32,
    first: Arc<V>,
    b: i32,
    second: Arc<V>,
)
    requires
        a != b,
    ensures
        ({
            let c = ContainerView::<V, F>::empty().with_specialization(
                known.entry_key(a),
                ContainerEntry::Instance(first),
            ).with_specialization(known.entry_key(b), ContainerEntry::Instance(second));
            c.all_ready(known) && c.ready_handles(known) =~= seq![first, second]
        }),
        ({
            let c = ContainerView::<V, F>::empty().with_specialization(
                known.entry_key(b),
                ContainerEntry::Instance(second),
            ).with_specialization(known.entry_key(a), ContainerEntry::Instance(first));
            c.all_ready(known) && c.ready_handles(known) =~= seq![second, first]
        }),
{
    let e = ContainerView::<V, F>::empty();
    assert(e.known_values(known) =~= Seq::<i32>::empty());
    let ca = e.with_specialization(known.entry_key(a), ContainerEntry::Instance(first));
    assert(ca.known_values(known) =~= seq![a]);
    let cab = ca.with_specialization(known.entry_key(b), ContainerEntry::Instance(second));
    assert(!seq![a].contains(b));
    assert(cab.known_values(known) =~= seq![a, b]);
    let cb = e.with_specialization(known.entry_key(b), ContainerEntry::Instance(second));
    assert(cb.known_values(known) =~= seq![b]);
    let cba = cb.with_specialization(known.entry_key(a), ContainerEntry::Instance(first));
    assert(!seq![b].contains(a));
    assert(cba.known_values(known) =~= seq![b, a]);
}

} // verus!
