//! Entities and component storage.
//!
//! An [`Entity`] is an opaque handle. A [`Storage`] maps entities to the
//! values of one component kind; its view is the mathematical map from the
//! entities that carry the component to their values.

use vstd::prelude::*;

verus! {

/// An opaque identifier of an entity.
#[derive(Clone, Copy, Debug, PartialEq, Eq, Structural)]
pub struct Entity(pub usize);

/// The values of one kind of component, by entity.
pub struct Storage<T> {
    slots: Vec<Option<T>>,
}

impl<T> View for Storage<T> {
    type V = Map<Entity, T>;

    closed spec fn view(&self) -> Map<Entity, T> {
        map_of(self.slots@)
    }
}

/// The map that a sequence of slots stands for: slot `i` holds the
/// component of entity `i`.
spec fn map_of<T>(slots: Seq<Option<T>>) -> Map<Entity, T> {
    Map::new(
        |e: Entity| e.0 < slots.len() && slots[e.0 as int] is Some,
        |e: Entity| slots[e.0 as int]->Some_0,
    )
}

/// Filling slot `i` inserts into the map, whatever the value.
proof fn lemma_fill_slot<T>(slots: Seq<Option<T>>, i: usize)
    requires
        i < slots.len(),
    ensures
        forall|v: T| #[trigger]
            map_of(slots.update(i as int, Some(v))) == map_of(slots).insert(Entity(i), v),
        slots[i as int] is None ==> map_of(slots).remove(Entity(i)) == map_of(slots),
        map_of(slots.update(i as int, None)) == map_of(slots).remove(Entity(i)),
{
    assert forall|v: T| #[trigger]
        map_of(slots.update(i as int, Some(v))) == map_of(slots).insert(Entity(i), v) by {
        assert(map_of(slots.update(i as int, Some(v))) =~= map_of(slots).insert(Entity(i), v));
    }
    assert(map_of(slots.update(i as int, None)) =~= map_of(slots).remove(Entity(i)));
    if slots[i as int] is None {
        assert(map_of(slots).remove(Entity(i)) =~= map_of(slots));
    }
}

/// Whether every entity with a component in `m` has an identifier below
/// `n`.
pub open spec fn all_below<T>(m: Map<Entity, T>, n: nat) -> bool {
    forall|e: Entity| #[trigger] m.contains_key(e) ==> e.0 < n
}

/// Whether `n` is the least number above the identifiers of all entities
/// with a component in `m`.
pub open spec fn is_least_bound<T>(m: Map<Entity, T>, n: nat) -> bool {
    all_below(m, n) && (n > 0 ==> m.contains_key(Entity((n - 1) as usize)))
}

/// Whether the identifiers of `entities` ascend strictly.
pub open spec fn is_ascending(entities: Seq<Entity>) -> bool {
    forall|i: int, j: int| 0 <= i < j < entities.len() ==> entities[i].0 < entities[j].0
}

impl<T> Storage<T> {
    /// A storage without any component.
    pub fn new() -> (s: Self)
        ensures
            s@ == Map::<Entity, T>::empty(),
    {
        let s = Storage { slots: Vec::new() };
        assert(s@ =~= Map::<Entity, T>::empty());
        s
    }

    /// The least number above the identifiers of all entities that carry
    /// this component.
    pub fn bound(&self) -> (n: usize)
        ensures
            is_least_bound(self@, n as nat),
            forall|e: Entity| #[trigger] self@.contains_key(e) ==> e.0 < n,
    {
        let mut n = self.slots.len();
        while n > 0 && self.slots[n - 1].is_none()
            invariant
                n <= self.slots.len(),
                forall|e: Entity| #[trigger] self@.contains_key(e) ==> e.0 < n,
            decreases n,
        {
            n -= 1;
        }
        n
    }

    /// The identifiers of the entities that carry this component are
    /// bounded.
    pub proof fn lemma_bounded(&self)
        ensures
            exists|n: usize| #[trigger] all_below(self@, n as nat),
    {
        let n = self.slots.len();
        assert(all_below(self@, n as nat));
    }

    /// The least bound of the identifiers is the only one.
    pub proof fn lemma_least_bound_is_unique(m: Map<Entity, T>, a: nat, b: nat)
        requires
            is_least_bound(m, a),
            is_least_bound(m, b),
            a <= usize::MAX + 1,
            b <= usize::MAX + 1,
        ensures
            a == b,
    {
        if a < b {
            assert(m.contains_key(Entity((b - 1) as usize)));
        }
        if b < a {
            assert(m.contains_key(Entity((a - 1) as usize)));
        }
    }

    /// The entities that carry this component and one of `other` as well,
    /// in the ascending order of their identifiers.
    pub fn join<U>(&self, other: &Storage<U>) -> (both: Vec<Entity>)
        ensures
            is_ascending(both@),
            forall|e: Entity|
                both@.contains(e) <==> self@.contains_key(e) && other@.contains_key(e),
    {
        let n = self.slots.len();
        let mut both: Vec<Entity> = Vec::new();
        let mut i: usize = 0;
        while i < n
            invariant
                i <= n,
                n == self.slots.len(),
                is_ascending(both@),
                forall|k: int| 0 <= k < both@.len() ==> (#[trigger] both@[k]).0 < i,
                forall|e: Entity|
                    both@.contains(e) <==> e.0 < i && self@.contains_key(e) && other@.contains_key(
                        e,
                    ),
            decreases n - i,
        {
            let entity = Entity(i);
            let ghost before = both@;
            if self.slots[i].is_some() && other.contains(entity) {
                both.push(entity);
                proof {
                    assert forall|e: Entity|
                        both@.contains(e) <==> e.0 < i + 1 && self@.contains_key(e)
                            && other@.contains_key(e) by {
                        if both@.contains(e) {
                            let k = choose|k: int| 0 <= k < both@.len() && both@[k] == e;
                            if k < before.len() {
                                assert(before[k] == e);
                                assert(before.contains(e));
                            }
                        }
                        if e.0 < i + 1 && self@.contains_key(e) && other@.contains_key(e) {
                            if e.0 < i {
                                assert(before.contains(e));
                                let k = choose|k: int| 0 <= k < before.len() && before[k] == e;
                                assert(both@[k] == e);
                            } else {
                                assert(both@[before.len() as int] == e);
                            }
                        }
                    }
                }
            }
            i += 1;
        }
        both
    }

    /// The entities that carry this component, in the ascending order of
    /// their identifiers.
    pub fn entities(&self) -> (all: Vec<Entity>)
        ensures
            is_ascending(all@),
            forall|e: Entity| all@.contains(e) <==> self@.contains_key(e),
    {
        self.join(self)
    }

    /// Whether `e` carries this component.
    pub fn contains(&self, e: Entity) -> (b: bool)
        ensures
            b == self@.contains_key(e),
    {
        e.0 < self.slots.len() && self.slots[e.0].is_some()
    }

    /// The component of `e`, if it carries one.
    pub fn get(&self, e: Entity) -> (r: Option<&T>)
        ensures
            r == (if self@.contains_key(e) {
                Some(&self@[e])
            } else {
                None
            }),
    {
        if e.0 < self.slots.len() {
            self.slots[e.0].as_ref()
        } else {
            None
        }
    }

    /// Exclusive access to the component of `e`, if it carries one. What is
    /// written through the reference becomes the component of `e`.
    pub fn get_mut(&mut self, e: Entity) -> (r: Option<&mut T>)
        ensures
            old(self)@.contains_key(e) ==> r is Some && *r->Some_0 == old(self)@[e] && final(self)@
                == old(self)@.insert(e, *final(r->Some_0)),
            !old(self)@.contains_key(e) ==> r is None && final(self)@ == old(self)@,
    {
        if e.0 < self.slots.len() {
            proof {
                lemma_fill_slot(self.slots@, e.0);
                assert(self.slots@[e.0 as int] is None ==> self.slots@.update(e.0 as int, None)
                    =~= self.slots@);
            }
            let slot = &mut self.slots[e.0];
            slot.as_mut()
        } else {
            None
        }
    }

    /// Gives `e` the component `value` and returns the one it carried.
    pub fn insert(&mut self, e: Entity, value: T) -> (previous: Option<T>)
        ensures
            final(self)@ == old(self)@.insert(e, value),
            previous == (if old(self)@.contains_key(e) {
                Some(old(self)@[e])
            } else {
                None
            }),
    {
        while self.slots.len() <= e.0
            invariant
                self@ == old(self)@,
            decreases e.0 + 1 - self.slots.len(),
        {
            let ghost before = *self;
            self.slots.push(None);
            assert(self@ =~= before@);
        }
        let mut slot = Some(value);
        let ghost before = *self;
        core::mem::swap(&mut self.slots[e.0], &mut slot);
        assert(self.slots@ == before.slots@.update(e.0 as int, Some(value)));
        assert(self@ =~= before@.insert(e, value));
        slot
    }

    /// Takes the component of `e` away and returns it.
    pub fn remove(&mut self, e: Entity) -> (previous: Option<T>)
        ensures
            final(self)@ == old(self)@.remove(e),
            previous == (if old(self)@.contains_key(e) {
                Some(old(self)@[e])
            } else {
                None
            }),
    {
        if e.0 < self.slots.len() {
            let mut slot = None;
            let ghost before = *self;
            core::mem::swap(&mut self.slots[e.0], &mut slot);
            assert(self.slots@ == before.slots@.update(e.0 as int, None));
            assert(self@ =~= before@.remove(e));
            slot
        } else {
            assert(self@ =~= old(self)@.remove(e));
            None
        }
    }

    /// Removes every component.
    pub fn clear(&mut self)
        ensures
            final(self)@ == Map::<Entity, T>::empty(),
    {
        self.slots.clear();
        assert(self@ =~= Map::<Entity, T>::empty());
    }
}

impl<T: Copy> Storage<T> {
    /// A copy of the component of `e`, if it carries one.
    pub fn get_copied(&self, e: Entity) -> (r: Option<T>)
        ensures
            r == (if self@.contains_key(e) {
                Some(self@[e])
            } else {
                None
            }),
    {
        if e.0 < self.slots.len() {
            self.slots[e.0]
        } else {
            None
        }
    }
}

} // verus!
