//! The set of entities that a physics query reported.
//!
//! The set is `bevy::utils::HashSet`, the hash set that the engine's own
//! systems use: hashbrown's `HashSet` with the engine's hasher. Verus does not
//! look inside it. What it holds is named by `entity_set_contents`, and the
//! three functions `entity_set_new`, `entity_set_insert` and
//! `entity_set_contains` state, without proof, what the set's methods `new`,
//! `insert` and `contains` do to that content. Everything else here is
//! proved from those three statements.

use vstd::prelude::*;
use crate::model::EntityId;

verus! {

/// A hash set of entity identities: a `bevy::utils::HashSet<u64>`, which
/// Verus takes on trust as a whole.
#[verifier::external_body]
pub struct EntitySet {
    inner: bevy::utils::HashSet<u64>,
}

/// The identities that the set holds.
pub uninterp spec fn entity_set_contents(set: EntitySet) -> Set<u64>;

/// `HashSet::new`: the new set holds nothing.
#[verifier::external_body]
pub(crate) fn entity_set_new() -> (set: EntitySet)
    ensures
        entity_set_contents(set) == Set::<u64>::empty(),
{
    EntitySet { inner: bevy::utils::HashSet::new() }
}

/// `HashSet::insert`: afterwards the set holds `id` and what it held before,
/// and nothing else.
#[verifier::external_body]
pub(crate) fn entity_set_insert(set: &mut EntitySet, id: u64)
    ensures
        entity_set_contents(*final(set)) == entity_set_contents(*old(set)).insert(id),
{
    set.inner.insert(id);
}

/// `HashSet::contains`: the answer is whether the set holds `id`.
#[verifier::external_body]
pub(crate) fn entity_set_contains(set: &EntitySet, id: u64) -> (found: bool)
    ensures
        found == entity_set_contents(*set).contains(id),
{
    set.inner.contains(&id)
}

/// Collects the identities of `ids` into a set.
pub fn collect_entities(ids: &Vec<EntityId>) -> (set: EntitySet)
    ensures
        entity_set_contents(set) == ids@.to_set(),
{
    let mut set = entity_set_new();
    let mut i: usize = 0;
    while i < ids.len()
        invariant
            i <= ids.len(),
            entity_set_contents(set) == ids@.take(i as int).to_set(),
        decreases ids.len() - i,
    {
        entity_set_insert(&mut set, ids[i]);
        proof {
            let longer = ids@.take(i + 1);
            let shorter = ids@.take(i as int);
            assert forall|x: u64| longer.to_set().contains(x) <==> shorter.to_set().insert(
                ids@[i as int],
            ).contains(x) by {
                if longer.contains(x) {
                    let k = choose|k: int| 0 <= k < longer.len() && longer[k] == x;
                    if k < i {
                        assert(shorter[k] == x);
                    }
                }
                if shorter.contains(x) {
                    let k = choose|k: int| 0 <= k < shorter.len() && shorter[k] == x;
                    assert(longer[k] == x);
                }
                if x == ids@[i as int] {
                    assert(longer[i as int] == x);
                }
            }
            assert(longer.to_set() =~= shorter.to_set().insert(ids@[i as int]));
        }
        i = i + 1;
    }
    proof {
        assert(ids@.take(ids.len() as int) == ids@);
    }
    set
}

} // verus!
