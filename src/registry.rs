use vstd::prelude::*;

use crate::entity::Entity;
use crate::error::PhysicsResult;

verus! {

/// The index of the first player among `es`.
pub open spec fn first_player(es: Seq<Entity>) -> Option<int>
    decreases es.len(),
{
    if es.len() == 0 {
        None
    } else {
        match first_player(es.drop_last()) {
            Some(i) => Some(i),
            None => if es.last().player_spec() {
                Some(es.len() - 1)
            } else {
                None
            },
        }
    }
}

proof fn lemma_first_player_prefix(es: Seq<Entity>, n: int)
    requires
        0 <= n <= es.len(),
        first_player(es.take(n)) is Some,
    ensures
        first_player(es) == first_player(es.take(n)),
    decreases es.len() - n,
{
    if n < es.len() {
        assert(es.take(n + 1).drop_last() =~= es.take(n));
        lemma_first_player_prefix(es, n + 1);
    } else {
        assert(es.take(n) =~= es);
    }
}

proof fn lemma_first_player_range(es: Seq<Entity>)
    ensures
        first_player(es) matches Some(i) ==> 0 <= i < es.len() && es[i].player_spec(),
    decreases es.len(),
{
    if es.len() > 0 {
        lemma_first_player_range(es.drop_last());
    }
}

/// The entities of a scene, in the order they were registered; an entity's index is
/// stable for as long as it is registered.
#[derive(Debug)]
pub struct EntityRegistry {
    inner: Vec<Entity>,
}

impl EntityRegistry {
    pub closed spec fn view(self) -> Seq<Entity> {
        self.inner@
    }

    /// Every registered entity is valid.
    pub open spec fn wf(self) -> bool {
        forall|i: int| 0 <= i < self@.len() ==> (#[trigger] self@[i]).wf()
    }

    /// An empty registry.
    pub fn new() -> (r: EntityRegistry)
        ensures
            r@ == Seq::<Entity>::empty(),
    {
        EntityRegistry { inner: Vec::new() }
    }

    /// Registers an entity after the others; it never fails.
    pub fn register(&mut self, to_register: Entity) -> (r: PhysicsResult<()>)
        ensures
            r is Ok,
            final(self)@ == old(self)@.push(to_register),
    {
        self.inner.push(to_register);
        Ok(())
    }

    /// The first registered player, if any.
    pub fn player(&self) -> (r: Option<&Entity>)
        ensures
            first_player(self@) is None ==> r is None,
            first_player(self@) matches Some(i) ==> r matches Some(e) && *e == self@[i],
    {
        match self.player_index() {
            Some(i) => Some(&self.inner[i]),
            None => None,
        }
    }

    /// The index of the first registered player, if any.
    pub fn player_index(&self) -> (r: Option<usize>)
        ensures
            first_player(self@) is None ==> r is None,
            first_player(self@) matches Some(i) ==> (r matches Some(j) && j as int == i && 0 <= i
                < self@.len()),
    {
        proof {
            lemma_first_player_range(self@);
        }
        let mut i: usize = 0;
        while i < self.inner.len()
            invariant
                i <= self@.len(),
                self@ == self.inner@,
                first_player(self@.take(i as int)) is None,
            decreases self@.len() - i,
        {
            assert(self@.take(i as int + 1).drop_last() =~= self@.take(i as int));
            assert(self@.take(i as int + 1).last() == self@[i as int]);
            if self.inner[i].is_player() {
                proof {
                    lemma_first_player_prefix(self@, i as int + 1);
                }
                return Some(i);
            }
            i = i + 1;
        }
        assert(self@.take(self@.len() as int) =~= self@);
        None
    }

    /// A mutable handle on the first registered player, if any.
    pub fn player_mut(&mut self) -> (r: Option<&mut Entity>)
        ensures
            first_player(old(self)@) is None ==> r is None && final(self)@ == old(self)@,
            first_player(old(self)@) matches Some(i) ==> r is Some && *r->0 == old(self)@[i]
                && final(self)@ == old(self)@.update(i, *final(r->0)),
    {
        match self.player_index() {
            Some(i) => self.get_one_mut(i),
            None => None,
        }
    }

    /// The number of registered entities.
    pub fn len(&self) -> (r: usize)
        ensures
            r == self@.len(),
    {
        self.inner.len()
    }

    /// The entity with index `i`, if there is one.
    pub fn get_one(&self, i: usize) -> (r: Option<&Entity>)
        ensures
            i < self@.len() ==> (r matches Some(e) && *e == self@[i as int]),
            i >= self@.len() ==> r is None,
    {
        if i < self.inner.len() {
            Some(&self.inner[i])
        } else {
            None
        }
    }

    /// A mutable handle on the entity with index `i`, if there is one.
    pub fn get_one_mut(&mut self, i: usize) -> (r: Option<&mut Entity>)
        ensures
            i < old(self)@.len() ==> r is Some && *r->0 == old(self)@[i as int] && final(self)@
                == old(self)@.update(i as int, *final(r->0)),
            i >= old(self)@.len() ==> r is None && final(self)@ == old(self)@,
    {
        if i < self.inner.len() {
            Some(&mut self.inner[i])
        } else {
            None
        }
    }

    /// The registered entities, in index order.
    pub fn iter(&self) -> (r: core::slice::Iter<'_, Entity>)
        ensures
            vstd::std_specs::iter::IteratorSpec::remaining(&r) == self@.as_ref(),
    {
        proof {
            broadcast use vstd::std_specs::slice::axiom_spec_slice_iter;
        }
        self.inner.iter()
    }
}

impl Default for EntityRegistry {
    fn default() -> (r: EntityRegistry)
        ensures
            r@ == Seq::<Entity>::empty(),
    {
        EntityRegistry::new()
    }
}

} // verus!
