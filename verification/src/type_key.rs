//! Type identities, used as the keys of the type registries, and the
//! association lists that map them to ids.
use vstd::prelude::*;

verus! {

/// `std::any::TypeId`, held as an opaque value.
#[verifier::external_type_specification]
#[verifier::external_body]
pub struct ExTypeId(std::any::TypeId);

/// The `TypeId` of `T`.
///
/// Trusted wrapper of `std::any::TypeId::of`. Nothing is stated of the result:
/// it depends on the type `T` alone, which no specification can name.
#[verifier::external_body]
pub(crate) fn type_id_of<T: ?Sized + 'static>() -> (r: std::any::TypeId) {
    std::any::TypeId::of::<T>()
}

/// Types with a key: the `TypeId` of the type, in specifications.
///
/// Implementations give `TypeId::of::<Self>()` and `std::mem::needs_drop::<Self>()`,
/// outside verified code; specifications only use that each type has one fixed
/// key and one fixed drop flag.
pub trait TypeKey: 'static {
    /// The `TypeId` of this type.
    spec fn type_key() -> std::any::TypeId;

    /// Whether values of this type need dropping, as `std::mem::needs_drop`
    /// tells.
    spec fn needs_drop() -> bool;
}

/// The `TypeId` of the keyed type `T`.
///
/// Trusted wrapper of `std::any::TypeId::of`: the id of a type is the same at
/// every call, and `T::type_key()` names it.
#[verifier::external_body]
pub(crate) fn type_key_of<T: TypeKey>() -> (r: std::any::TypeId)
    ensures
        r == T::type_key(),
{
    std::any::TypeId::of::<T>()
}

/// Whether values of the keyed type `T` need dropping.
///
/// Trusted wrapper of `std::mem::needs_drop`: its answer depends on the type
/// alone, and `T::needs_drop()` names it.
#[verifier::external_body]
pub(crate) fn needs_drop_of<T: TypeKey>() -> (r: bool)
    ensures
        r == T::needs_drop(),
{
    std::mem::needs_drop::<T>()
}

/// Whether two `TypeId`s are the same.
///
/// Trusted wrapper of `<TypeId as PartialEq>::eq`, which compares the whole
/// value: it returns `true` exactly when the two ids are the same value.
#[verifier::external_body]
pub(crate) fn same_type(a: &std::any::TypeId, b: &std::any::TypeId) -> (r: bool)
    ensures
        r == (*a == *b),
{
    *a == *b
}

/// The value associated with `k` in the association list `entries`: the last
/// entry for `k` wins.
pub open spec fn lookup<V>(entries: Seq<(std::any::TypeId, V)>, k: std::any::TypeId) -> Option<V>
    decreases entries.len(),
{
    if entries.len() == 0 {
        None
    } else if entries.last().0 == k {
        Some(entries.last().1)
    } else {
        lookup(entries.drop_last(), k)
    }
}

/// Appending an entry makes its key map to its value and leaves the other keys alone.
pub proof fn lemma_lookup_push<V>(
    entries: Seq<(std::any::TypeId, V)>,
    k: std::any::TypeId,
    v: V,
    other: std::any::TypeId,
)
    ensures
        lookup(entries.push((k, v)), other) == (if other == k {
            Some(v)
        } else {
            lookup(entries, other)
        }),
{
    assert(entries.push((k, v)).drop_last() =~= entries);
}

/// No key occurs twice in `entries`.
pub open spec fn keys_distinct<V>(entries: Seq<(std::any::TypeId, V)>) -> bool {
    forall|i: int, j: int|
        0 <= i < j < entries.len() ==> (#[trigger] entries[i]).0 != (#[trigger] entries[j]).0
}

/// A key that `lookup` does not find occurs in no entry.
pub proof fn lemma_lookup_absent<V>(entries: Seq<(std::any::TypeId, V)>, k: std::any::TypeId)
    requires
        lookup(entries, k) is None,
    ensures
        forall|i: int| 0 <= i < entries.len() ==> (#[trigger] entries[i]).0 != k,
    decreases entries.len(),
{
    if entries.len() > 0 {
        lemma_lookup_absent(entries.drop_last(), k);
        assert forall|i: int| 0 <= i < entries.len() implies (#[trigger] entries[i]).0 != k by {
            if i < entries.len() - 1 {
                assert(entries[i] == entries.drop_last()[i]);
            }
        }
    }
}

/// Appending an entry for a key not yet present keeps the keys distinct.
pub proof fn lemma_push_keeps_keys_distinct<V>(
    entries: Seq<(std::any::TypeId, V)>,
    k: std::any::TypeId,
    v: V,
)
    requires
        keys_distinct(entries),
        lookup(entries, k) is None,
    ensures
        keys_distinct(entries.push((k, v))),
{
    lemma_lookup_absent(entries, k);
    let e = entries.push((k, v));
    assert forall|i: int, j: int| 0 <= i < j < e.len() implies (#[trigger] e[i]).0 != (
    #[trigger] e[j]).0 by {
        assert(e[i] == entries[i]);
        if j < entries.len() {
            assert(e[j] == entries[j]);
        }
    }
}

/// Looks `k` up in `entries`, from the last entry backwards.
pub(crate) fn find_key<V: Copy>(entries: &Vec<(std::any::TypeId, V)>, k: &std::any::TypeId) -> (r:
    Option<V>)
    ensures
        r == lookup(entries@, *k),
{
    let mut i = entries.len();
    assert(entries@.subrange(0, i as int) =~= entries@);
    while i > 0
        invariant
            i <= entries@.len(),
            lookup(entries@, *k) == lookup(entries@.subrange(0, i as int), *k),
        decreases i,
    {
        let ghost prefix = entries@.subrange(0, i as int);
        assert(prefix.drop_last() =~= entries@.subrange(0, i - 1));
        if same_type(&entries[i - 1].0, k) {
            return Some(entries[i - 1].1);
        }
        i = i - 1;
    }
    None
}

} // verus!
