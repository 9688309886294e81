use vstd::prelude::*;

use crate::effect::{EffectTarget, PendingEffect};
use crate::entity::{ticked, Entity};
use crate::error::{PhysicsError, PhysicsResult};
use crate::field::Field;
use crate::physbox::PhysBox;
use crate::registry::EntityRegistry;

verus! {

/// The entities and the queue after the movement phase has run over the first `i`
/// entities, each updating in turn and queueing what it queues after `q`, and the error
/// that stopped it, if one did.
pub open spec fn move_phase(f: Field, ents: Seq<Entity>, q: Seq<PendingEffect>, dt: int, i: int) -> (
    Seq<Entity>,
    Seq<PendingEffect>,
    Option<PhysicsError>,
)
    decreases i,
{
    if i <= 0 {
        (ents, q, None)
    } else {
        let (es, qs, err) = move_phase(f, ents, q, dt, i - 1);
        if err is Some {
            (es, qs, err)
        } else {
            match ticked(f, es[i - 1], (i - 1) as usize, dt) {
                Ok((e, p)) => (
                    es.update(i - 1, e),
                    match p {
                        Some(pe) => qs.push(pe),
                        None => qs,
                    },
                    None,
                ),
                Err(x) => (es, qs, Some(x)),
            }
        }
    }
}

/// `b` pushed out of `other` as [`PhysBox::shift_to_nonoverlapping`] does.
pub open spec fn shifted(b: PhysBox, other: PhysBox) -> PhysBox {
    if b.overlaps(other) {
        b.pushed(other, b.push_edge(other)->0)
    } else {
        b
    }
}

/// Whether an entity takes part in overlap resolution: its mask is not fully open.
pub open spec fn is_solid(e: Entity) -> bool {
    e.solidity_spec().0 != 255u8
}

/// The entities after the first `j` of them that are solid have been pushed out of `b`.
pub open spec fn push_lower(ents: Seq<Entity>, b: PhysBox, j: int) -> Seq<Entity>
    decreases j,
{
    if j <= 0 {
        ents
    } else {
        let es = push_lower(ents, b, j - 1);
        let e = es[j - 1];
        if is_solid(e) {
            es.update(j - 1, e.with_box(shifted(e.box_spec(), b)))
        } else {
            es
        }
    }
}

/// The entities after overlap resolution has run for the first `n` of them: each solid
/// entity pushes every solid entity of lower index out of its box.
pub open spec fn overlap_phase(ents: Seq<Entity>, n: int) -> Seq<Entity>
    decreases n,
{
    if n <= 0 {
        ents
    } else {
        let es = overlap_phase(ents, n - 1);
        if is_solid(es[n - 1]) {
            push_lower(es, es[n - 1].box_spec(), n - 1)
        } else {
            es
        }
    }
}

/// Whether `pe` may reach the entity at `i`, as its source allows.
pub open spec fn source_allows(pe: PendingEffect, i: int) -> bool {
    match pe.source {
        None => true,
        Some(s) => s.applies_to(i),
    }
}

/// The effect, the entities and whether the effect asks for another tick, after `pe`
/// has been tried on the first `i` entities.
pub open spec fn effect_scan(pe: PendingEffect, ents: Seq<Entity>, i: int) -> (
    PendingEffect,
    Seq<Entity>,
    bool,
)
    decreases i,
{
    if i <= 0 {
        (pe, ents, false)
    } else {
        let (p, es, keep) = effect_scan(pe, ents, i - 1);
        let k = i - 1;
        if !source_allows(p, k) {
            (p, es, keep)
        } else {
            let (t2, hit) = p.target.target_step(es[k]);
            if !hit {
                (PendingEffect { target: t2, ..p }, es, keep)
            } else {
                let (e2, ent2, more) = p.effect.applied(es[k]);
                (PendingEffect { target: t2, effect: e2, ..p }, es.update(k, ent2), keep || more)
            }
        }
    }
}

/// `pe` resolved against every entity, then its source updated if it is still there.
pub open spec fn resolve_effect(pe: PendingEffect, ents: Seq<Entity>) -> (
    PendingEffect,
    Seq<Entity>,
    bool,
) {
    let (p, es, keep) = effect_scan(pe, ents, ents.len() as int);
    match p.source {
        Some(s) => if s.index < es.len() {
            (p, es.update(s.index as int, p.effect.updated_src(es[s.index as int])), keep)
        } else {
            (p, es, keep)
        },
        None => (p, es, keep),
    }
}

/// The effects kept and the entities after the first `n` effects of `q` are resolved in
/// order; an effect is kept, as it was left, only when it asked for another tick.
pub open spec fn resolve_queue(q: Seq<PendingEffect>, ents: Seq<Entity>, n: int) -> (
    Seq<PendingEffect>,
    Seq<Entity>,
)
    decreases n,
{
    if n <= 0 {
        (Seq::empty(), ents)
    } else {
        let (kept, es) = resolve_queue(q, ents, n - 1);
        let (p, es2, keep) = resolve_effect(q[n - 1], es);
        (
            if keep {
                kept.push(p)
            } else {
                kept
            },
            es2,
        )
    }
}

/// The movement phase keeps the number of entities.
pub proof fn lemma_move_phase_len(f: Field, ents: Seq<Entity>, q: Seq<PendingEffect>, dt: int, i: int)
    requires
        i <= ents.len(),
    ensures
        move_phase(f, ents, q, dt, i).0.len() == ents.len(),
    decreases i,
{
    if i > 0 {
        lemma_move_phase_len(f, ents, q, dt, i - 1);
    }
}

/// Once the movement phase has stopped on an error, later entities change nothing.
proof fn lemma_move_phase_stops(
    f: Field,
    ents: Seq<Entity>,
    q: Seq<PendingEffect>,
    dt: int,
    i: int,
    n: int,
)
    requires
        0 < i <= n,
        move_phase(f, ents, q, dt, i).2 is Some,
    ensures
        move_phase(f, ents, q, dt, n) == move_phase(f, ents, q, dt, i),
    decreases n - i,
{
    if i < n {
        lemma_move_phase_stops(f, ents, q, dt, i, n - 1);
    }
}

/// While trying an effect, the flag asking for another tick only comes on when an
/// application of the effect asks for it.
proof fn lemma_scan_keep(pe: PendingEffect, ents: Seq<Entity>, i: int)
    requires
        forall|e: crate::effect::Effect, x: Entity| !(#[trigger] e.applied(x)).2,
    ensures
        !effect_scan(pe, ents, i).2,
    decreases i,
{
    if i > 0 {
        lemma_scan_keep(pe, ents, i - 1);
        let (p, es, keep) = effect_scan(pe, ents, i - 1);
        let _ = p.effect.applied(es[i - 1]);
    }
}

/// Resolving one effect keeps it, in the state its applications left it, exactly when
/// the scan asked for another tick; an effect that reached no entity is dropped.
pub proof fn lemma_single_effect_retention(pe: PendingEffect, ents: Seq<Entity>)
    ensures
        ({
            let (p, _, keep) = resolve_effect(pe, ents);
            resolve_queue(seq![pe], ents, 1).0 == if keep {
                seq![p]
            } else {
                Seq::<PendingEffect>::empty()
            }
        }),
        (forall|k: int|
            0 <= k < ents.len() ==> !source_allows(effect_scan(pe, ents, k).0, k) || !(
            #[trigger] effect_scan(pe, ents, k).0.target.target_step(effect_scan(pe, ents, k).1[k])).1)
            ==> !resolve_effect(pe, ents).2,
{
    assert(seq![pe][0] == pe);
    assert(resolve_queue(seq![pe], ents, 0) == (Seq::<PendingEffect>::empty(), ents));
    assert(Seq::<PendingEffect>::empty().push(resolve_effect(pe, ents).0) =~= seq![
        resolve_effect(pe, ents).0,
    ]);
    if forall|k: int|
        0 <= k < ents.len() ==> !source_allows(effect_scan(pe, ents, k).0, k) || !(
        #[trigger] effect_scan(pe, ents, k).0.target.target_step(effect_scan(pe, ents, k).1[k])).1 {
        lemma_scan_no_hit(pe, ents, ents.len() as int);
    }
}

proof fn lemma_scan_no_hit(pe: PendingEffect, ents: Seq<Entity>, i: int)
    requires
        i <= ents.len(),
        forall|k: int|
            0 <= k < ents.len() ==> !source_allows(effect_scan(pe, ents, k).0, k) || !(
            #[trigger] effect_scan(pe, ents, k).0.target.target_step(effect_scan(pe, ents, k).1[k])).1,
    ensures
        !effect_scan(pe, ents, i).2,
    decreases i,
{
    if i > 0 {
        lemma_scan_no_hit(pe, ents, i - 1);
        let _ = effect_scan(pe, ents, i - 1).0.target.target_step(effect_scan(pe, ents, i - 1).1[i - 1]);
    }
}

/// None of the effects this library provides asks for another tick, so one resolution
/// pass empties any queue of them.
pub proof fn lemma_provided_effects_expire(q: Seq<PendingEffect>, ents: Seq<Entity>, n: int)
    ensures
        resolve_queue(q, ents, n).0 == Seq::<PendingEffect>::empty(),
    decreases n,
{
    if n > 0 {
        lemma_provided_effects_expire(q, ents, n - 1);
        let (kept, es) = resolve_queue(q, ents, n - 1);
        assert forall|e: crate::effect::Effect, x: Entity| !(#[trigger] e.applied(x)).2 by {}
        lemma_scan_keep(q[n - 1], es, es.len() as int);
    }
}

/// A level being played: its field, its entities and the effects waiting to resolve.
#[derive(Debug)]
pub struct Scene {
    field: Field,
    entity_registry: EntityRegistry,
    pending_effects: Vec<PendingEffect>,
}

impl Scene {
    pub closed spec fn field_spec(self) -> Field {
        self.field
    }

    pub closed spec fn entities(self) -> Seq<Entity> {
        self.entity_registry@
    }

    pub closed spec fn queue(self) -> Seq<PendingEffect> {
        self.pending_effects@
    }

    /// What every scene satisfies: a built field, valid entities and valid effects.
    pub open spec fn wf(self) -> bool {
        &&& self.field_spec().wf()
        &&& forall|i: int| 0 <= i < self.entities().len() ==> (#[trigger] self.entities()[i]).wf()
        &&& forall|i: int| 0 <= i < self.queue().len() ==> (#[trigger] self.queue()[i]).effect.wf()
    }

    /// A scene on `field` with no entities and no effects.
    pub fn new(field: Field) -> (r: Scene)
        requires
            field.wf(),
        ensures
            r.wf(),
            r.field_spec() == field,
            r.entities() == Seq::<Entity>::empty(),
            r.queue() == Seq::<PendingEffect>::empty(),
    {
        Scene { field, entity_registry: EntityRegistry::new(), pending_effects: Vec::new() }
    }

    /// Registers an entity after the others; it never fails.
    pub fn register_entity(&mut self, to_register: Entity) -> (r: PhysicsResult<()>)
        requires
            old(self).wf(),
            to_register.wf(),
        ensures
            r is Ok,
            final(self).wf(),
            final(self).entities() == old(self).entities().push(to_register),
            final(self).field_spec() == old(self).field_spec(),
            final(self).queue() == old(self).queue(),
    {
        let r = self.entity_registry.register(to_register);
        proof {
            assert forall|i: int| 0 <= i < self.entities().len() implies (
            #[trigger] self.entities()[i]).wf() by {
                if i < old(self).entities().len() {
                    assert(self.entities()[i] == old(self).entities()[i]);
                } else {
                    assert(self.entities()[i] == to_register);
                }
            }
        }
        r
    }

    /// Queues an effect for the next resolution.
    pub fn queue_effect(&mut self, effect: PendingEffect)
        requires
            old(self).wf(),
            effect.effect.wf(),
        ensures
            final(self).wf(),
            final(self).queue() == old(self).queue().push(effect),
            final(self).entities() == old(self).entities(),
            final(self).field_spec() == old(self).field_spec(),
    {
        self.pending_effects.push(effect);
        proof {
            assert forall|i: int| 0 <= i < self.queue().len() implies (
            #[trigger] self.queue()[i]).effect.wf() by {
                if i < old(self).queue().len() {
                    assert(self.queue()[i] == old(self).queue()[i]);
                } else {
                    assert(self.queue()[i] == effect);
                }
            }
            assert(self.entities() == old(self).entities());
            assert(forall|i: int| 0 <= i < self.entities().len() ==> (#[trigger] self.entities()[i]).wf());
        }
    }

    /// The field.
    pub fn get_field(&self) -> (r: &Field)
        ensures
            *r == self.field_spec(),
    {
        &self.field
    }

    /// The registered entities.
    pub fn entity_registry(&self) -> (r: &EntityRegistry)
        ensures
            r@ == self.entities(),
    {
        &self.entity_registry
    }

    /// The effects waiting to resolve, in queue order.
    pub fn pending_effects(&self) -> (r: &Vec<PendingEffect>)
        ensures
            r@ == self.queue(),
    {
        &self.pending_effects
    }

    /// A mutable handle on the first registered player, if any.
    pub fn player_mut(&mut self) -> (r: Option<&mut Entity>)
        ensures
            crate::registry::first_player(old(self).entities()) is None ==> r is None
                && final(self).entities() == old(self).entities(),
            crate::registry::first_player(old(self).entities()) matches Some(i) ==> r is Some
                && *r->0 == old(self).entities()[i] && final(self).entities() == old(
                self,
            ).entities().update(i, *final(r->0)),
            final(self).field_spec() == old(self).field_spec(),
            final(self).queue() == old(self).queue(),
    {
        self.entity_registry.player_mut()
    }

    /// Runs one tick of `dt` milliseconds: every entity moves in index order; then each
    /// solid entity pushes the solid entities of lower index out of its box; then every
    /// queued effect is resolved in queue order.
    ///
    /// A movement error stops the tick at once and is returned; entities of lower index
    /// have moved by then, and the queue is untouched.
    pub fn tick_entities(&mut self, dt: u32) -> (r: PhysicsResult<()>)
        requires
            old(self).wf(),
        ensures
            final(self).wf(),
            final(self).field_spec() == old(self).field_spec(),
            ({
                let n = old(self).entities().len() as int;
                let (moved, queued, err) = move_phase(
                    old(self).field_spec(),
                    old(self).entities(),
                    old(self).queue(),
                    dt as int,
                    n,
                );
                match err {
                    Some(x) => r == Err::<(), PhysicsError>(x) && final(self).entities() == moved
                        && final(self).queue() == queued,
                    None => {
                        let (kept, es) = resolve_queue(
                            queued,
                            overlap_phase(moved, n),
                            queued.len() as int,
                        );
                        r is Ok && final(self).entities() == es && final(self).queue() == kept
                    },
                }
            }),
    {
        proof {
            lemma_move_phase_len(
                self.field_spec(),
                self.entities(),
                self.queue(),
                dt as int,
                self.entities().len() as int,
            );
        }
        match self.move_entities(dt) {
            Ok(()) => {},
            Err(e) => return Err(e),
        }
        self.handle_entity_collisions();
        self.process_pending_effects();
        Ok(())
    }

    /// Updates every entity in index order, letting each queue effects, stopping at the
    /// first error.
    fn move_entities(&mut self, dt: u32) -> (r: PhysicsResult<()>)
        requires
            old(self).wf(),
        ensures
            final(self).wf(),
            final(self).field_spec() == old(self).field_spec(),
            ({
                let (moved, queued, err) = move_phase(
                    old(self).field_spec(),
                    old(self).entities(),
                    old(self).queue(),
                    dt as int,
                    old(self).entities().len() as int,
                );
                final(self).entities() == moved && final(self).queue() == queued && match err {
                    Some(x) => r == Err::<(), PhysicsError>(x),
                    None => r is Ok,
                }
            }),
    {
        let n = self.entity_registry.len();
        let ghost ents0 = self.entities();
        let ghost q0 = self.queue();
        let mut i: usize = 0;
        while i < n
            invariant
                i <= n,
                n == ents0.len(),
                self.wf(),
                self.field_spec() == old(self).field_spec(),
                ents0 == old(self).entities(),
                q0 == old(self).queue(),
                self.entities().len() == n,
                move_phase(self.field_spec(), ents0, q0, dt as int, i as int) == (
                    self.entities(),
                    self.queue(),
                    None::<PhysicsError>,
                ),
            decreases n - i,
        {
            let ghost ents_i = self.entities();
            let ghost q_i = self.queue();
            match self.entity_registry.get_one_mut(i) {
                Some(e) => {
                    match e.game_tick(i, &self.field, dt, &mut self.pending_effects) {
                        Ok(()) => {},
                        Err(x) => {
                            proof {
                                assert(self.entities() =~= ents_i);
                                lemma_move_phase_stops(
                                    self.field_spec(),
                                    ents0,
                                    q0,
                                    dt as int,
                                    i as int + 1,
                                    n as int,
                                );
                            }
                            return Err(x);
                        },
                    }
                },
                None => {},
            }
            proof {
                assert forall|k: int| 0 <= k < self.queue().len() implies (
                #[trigger] self.queue()[k]).effect.wf() by {
                    if k < q_i.len() {
                        assert(self.queue()[k] == q_i[k]);
                    }
                }
            }
            i = i + 1;
        }
        Ok(())
    }

    /// Pushes each solid entity's lower-indexed solid neighbours out of its box.
    pub fn handle_entity_collisions(&mut self)
        requires
            old(self).wf(),
        ensures
            final(self).wf(),
            final(self).field_spec() == old(self).field_spec(),
            final(self).queue() == old(self).queue(),
            final(self).entities() == overlap_phase(old(self).entities(), old(self).entities().len() as int),
    {
        let n = self.entity_registry.len();
        let ghost ents0 = self.entities();
        let mut i: usize = 0;
        while i < n
            invariant
                i <= n,
                n == ents0.len(),
                self.wf(),
                self.field_spec() == old(self).field_spec(),
                self.queue() == old(self).queue(),
                ents0 == old(self).entities(),
                self.entities().len() == n,
                self.entities() == overlap_phase(ents0, i as int),
            decreases n - i,
        {
            let this_one = match self.entity_registry.get_one(i) {
                Some(e) => e,
                None => {
                    i = i + 1;
                    continue;
                },
            };
            if !this_one.solidity().has_solidity() {
                i = i + 1;
                continue;
            }
            let this_box = *this_one.get_box();
            let ghost before = self.entities();
            let mut j: usize = 0;
            while j < i
                invariant
                    j <= i < n,
                    n == ents0.len(),
                    self.wf(),
                    self.field_spec() == old(self).field_spec(),
                    self.queue() == old(self).queue(),
                    self.entities().len() == n,
                    this_box == before[i as int].box_spec(),
                    this_box.wf(),
                    self.entities() == push_lower(before, this_box, j as int),
                decreases i - j,
            {
                match self.entity_registry.get_one_mut(j) {
                    Some(other) => {
                        if other.solidity().has_solidity() {
                            let mut b = *other.get_box();
                            b.shift_to_nonoverlapping(&this_box);
                            other.set_box(b);
                        }
                    },
                    None => {},
                }
                j = j + 1;
            }
            i = i + 1;
        }
    }

    /// Resolves every queued effect in queue order, keeping those that ask for another tick.
    pub fn process_pending_effects(&mut self)
        requires
            old(self).wf(),
        ensures
            final(self).wf(),
            final(self).field_spec() == old(self).field_spec(),
            (final(self).queue(), final(self).entities()) == resolve_queue(
                old(self).queue(),
                old(self).entities(),
                old(self).queue().len() as int,
            ),
    {
        let nq = self.pending_effects.len();
        let ghost q0 = self.queue();
        let ghost ents0 = self.entities();
        let mut kept: Vec<PendingEffect> = Vec::new();
        let mut k: usize = 0;
        while k < nq
            invariant
                k <= nq,
                nq == q0.len(),
                self.queue() == q0,
                self.wf(),
                self.field_spec() == old(self).field_spec(),
                q0 == old(self).queue(),
                ents0 == old(self).entities(),
                forall|m: int| 0 <= m < kept@.len() ==> (#[trigger] kept@[m]).effect.wf(),
                (kept@, self.entities()) == resolve_queue(q0, ents0, k as int),
            decreases nq - k,
        {
            let pe = self.pending_effects[k];
            let (p, keep) = self.resolve_one(pe);
            if keep {
                kept.push(p);
            }
            k = k + 1;
        }
        self.pending_effects = kept;
    }

    /// Resolves one effect against every entity, then updates its source.
    fn resolve_one(&mut self, pe: PendingEffect) -> (r: (PendingEffect, bool))
        requires
            old(self).wf(),
            pe.effect.wf(),
        ensures
            final(self).wf(),
            final(self).field_spec() == old(self).field_spec(),
            final(self).queue() == old(self).queue(),
            r.0.effect.wf(),
            (r.0, final(self).entities(), r.1) == resolve_effect(pe, old(self).entities()),
    {
        let n = self.entity_registry.len();
        let ghost ents0 = self.entities();
        let mut p = pe;
        let mut keep = false;
        let mut i: usize = 0;
        while i < n
            invariant
                i <= n,
                n == ents0.len(),
                self.wf(),
                self.field_spec() == old(self).field_spec(),
                self.queue() == old(self).queue(),
                ents0 == old(self).entities(),
                self.entities().len() == n,
                p.effect.wf(),
                (p, self.entities(), keep) == effect_scan(pe, ents0, i as int),
            decreases n - i,
        {
            let allowed = match p.source {
                None => true,
                Some(s) => s.should_apply_effect(i),
            };
            if allowed {
                match self.entity_registry.get_one_mut(i) {
                    Some(e) => {
                        if p.target.can_target(e) {
                            match p.effect.apply_effect(e) {
                                Ok(more) => {
                                    keep = keep || more;
                                },
                                Err(_) => {},
                            }
                        }
                    },
                    None => {},
                }
            }
            i = i + 1;
        }
        match p.source {
            Some(s) => {
                match self.entity_registry.get_one_mut(s.index) {
                    Some(src) => {
                        let _ = p.effect.update_src(src);
                    },
                    None => {},
                }
            },
            None => {},
        }
        (p, keep)
    }
}

} // verus!
