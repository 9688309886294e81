use vstd::prelude::*;

use crate::entity::{clamp_velocity, Entity};
use crate::error::PhysicsResult;
use crate::physbox::PhysBox;
use crate::types::Velocity;

verus! {

/// The entity an effect came from, by registry index, and whether the effect may hit it.
#[derive(Debug, Clone, Copy, PartialEq, Eq, Structural)]
pub struct EffectSource {
    pub index: usize,
    pub can_target_source: bool,
}

impl EffectSource {
    pub open spec fn applies_to(self, target_index: int) -> bool {
        !(!self.can_target_source && target_index == self.index)
    }

    /// Whether the effect may be applied to the entity at `target_index`: always, but for
    /// the source itself when it may not be targeted.
    pub fn should_apply_effect(&self, target_index: usize) -> (r: bool)
        ensures
            r == self.applies_to(target_index as int),
            r == !(target_index == self.index && !self.can_target_source),
    {
        !(!self.can_target_source && target_index == self.index)
    }
}

impl From<(usize, bool)> for EffectSource {
    fn from(value: (usize, bool)) -> (r: EffectSource) {
        EffectSource { index: value.0, can_target_source: value.1 }
    }
}

impl vstd::std_specs::convert::FromSpecImpl<(usize, bool)> for EffectSource {
    open spec fn obeys_from_spec() -> bool {
        true
    }

    open spec fn from_spec(value: (usize, bool)) -> EffectSource {
        EffectSource { index: value.0, can_target_source: value.1 }
    }
}

/// Decides which entities an effect reaches. A target may change as it is asked.
pub trait EffectTarget: Sized {
    /// What asking about `candidate` does: the target afterwards and the answer.
    spec fn target_step(self, candidate: Entity) -> (Self, bool);

    /// Whether `candidate` is reached.
    fn can_target(&mut self, candidate: &Entity) -> (r: bool)
        requires
            candidate.wf(),
        ensures
            (*final(self), r) == old(self).target_step(*candidate),
    ;
}

impl EffectTarget for PhysBox {
    open spec fn target_step(self, candidate: Entity) -> (PhysBox, bool) {
        (self, self.overlaps(candidate.box_spec()))
    }

    /// Whether the candidate's box overlaps this area.
    fn can_target(&mut self, candidate: &Entity) -> (r: bool) {
        let b = candidate.get_box();
        let p = self.pos();
        let s = self.size();
        let q = b.pos();
        let t = b.size();
        let (l, tp, w, h) = (p.x as i128, p.y as i128, s.w as i128, s.h as i128);
        let (ol, ot, ow, oh) = (q.x as i128, q.y as i128, t.w as i128, t.h as i128);
        ol + ow > l && ol < l + w && ot + oh > tp && ot < tp + h
    }
}

/// Reaches the first player it is asked about, and nothing after that.
#[derive(Debug, Clone, Copy, PartialEq, Eq, Structural)]
pub struct TargetFirstPlayer {
    has_found_player: bool,
}

impl TargetFirstPlayer {
    pub closed spec fn found_spec(self) -> bool {
        self.has_found_player
    }

    /// A targeter that has found no player yet.
    pub fn new() -> (r: TargetFirstPlayer)
        ensures
            !r.found_spec(),
    {
        TargetFirstPlayer { has_found_player: false }
    }

    /// Whether a player has been reached.
    pub fn has_found_player(&self) -> (r: bool)
        ensures
            r == self.found_spec(),
    {
        self.has_found_player
    }
}

impl Default for TargetFirstPlayer {
    fn default() -> (r: TargetFirstPlayer)
        ensures
            !r.found_spec(),
    {
        TargetFirstPlayer::new()
    }
}

impl EffectTarget for TargetFirstPlayer {
    open spec fn target_step(self, candidate: Entity) -> (TargetFirstPlayer, bool) {
        if !self.found_spec() && candidate.player_spec() {
            (TargetFirstPlayer::found(), true)
        } else {
            (self, false)
        }
    }

    fn can_target(&mut self, candidate: &Entity) -> (r: bool) {
        if !self.has_found_player && candidate.is_player() {
            self.has_found_player = true;
            true
        } else {
            false
        }
    }
}

impl TargetFirstPlayer {
    pub closed spec fn found() -> TargetFirstPlayer {
        TargetFirstPlayer { has_found_player: true }
    }
}

/// Once a first-player targeter has reached a player it has found one, and it then
/// answers false for every candidate and stays as it is.
pub proof fn lemma_first_player_acquired(candidate: Entity)
    ensures
        TargetFirstPlayer::found().found_spec(),
        TargetFirstPlayer::found().target_step(candidate) == (TargetFirstPlayer::found(), false),
{
}

/// The targets an effect may have.
#[derive(Debug, Clone, Copy, PartialEq, Eq, Structural)]
pub enum Target {
    /// Entities whose boxes overlap the area.
    Area(PhysBox),
    /// The first player asked about.
    FirstPlayer(TargetFirstPlayer),
}

impl EffectTarget for Target {
    open spec fn target_step(self, candidate: Entity) -> (Target, bool) {
        match self {
            Target::Area(b) => (self, b.target_step(candidate).1),
            Target::FirstPlayer(t) => {
                let (t2, r) = t.target_step(candidate);
                (Target::FirstPlayer(t2), r)
            },
        }
    }

    fn can_target(&mut self, candidate: &Entity) -> (r: bool) {
        match self {
            Target::Area(b) => b.can_target(candidate),
            Target::FirstPlayer(t) => t.can_target(candidate),
        }
    }
}

/// An attack that takes a fixed amount of health (in thousandths of a point).
#[derive(Debug, Clone, Copy, PartialEq, Eq, Structural)]
pub struct BasicAttack {
    damage: i64,
}

impl BasicAttack {
    pub closed spec fn damage_spec(self) -> i64 {
        self.damage
    }

    /// An attack doing `damage`.
    pub fn new(damage: i64) -> (r: BasicAttack)
        ensures
            r.damage_spec() == damage,
    {
        BasicAttack { damage }
    }

    /// The damage done.
    pub fn damage(&self) -> (r: i64)
        ensures
            r == self.damage_spec(),
    {
        self.damage
    }

    /// This attack as an effect of the entity at `source_index` on every entity that
    /// overlaps `target_area`, the source excepted.
    pub fn into_pending_effect(&self, source_index: usize, target_area: PhysBox) -> (r:
        PendingEffect)
        ensures
            r == (PendingEffect {
                source: Some(EffectSource { index: source_index, can_target_source: false }),
                target: Target::Area(target_area),
                effect: Effect::Damage(*self),
            }),
    {
        PendingEffect {
            source: Some(EffectSource { index: source_index, can_target_source: false }),
            target: Target::Area(target_area),
            effect: Effect::Damage(*self),
        }
    }
}

/// Remembers where the last entity it reached was, and steers its source there.
#[derive(Debug, Clone, Copy, PartialEq, Eq, Structural)]
pub struct FollowBox {
    pub target: Option<PhysBox>,
}

/// The effects that can be queued.
#[derive(Debug, Clone, Copy, PartialEq, Eq, Structural)]
pub enum Effect {
    /// Raw damage; never asks for another tick.
    Damage(BasicAttack),
    /// Follow the last entity reached; never asks for another tick.
    Follow(FollowBox),
}

impl Effect {
    /// Any remembered box is valid.
    pub open spec fn wf(self) -> bool {
        match self {
            Effect::Follow(f) => f.target matches Some(b) ==> b.wf(),
            Effect::Damage(_) => true,
        }
    }

    /// What applying the effect to `e` does: the effect and the entity afterwards, and
    /// whether the effect asks to run again next tick.
    pub open spec fn applied(self, e: Entity) -> (Effect, Entity, bool) {
        match self {
            Effect::Damage(a) => (self, e.damaged(a.damage_spec()), false),
            Effect::Follow(_) => (Effect::Follow(FollowBox { target: Some(e.box_spec()) }), e, false),
        }
    }

    /// What updating the source `e` does to it.
    pub open spec fn updated_src(self, e: Entity) -> Entity {
        match self {
            Effect::Follow(f) => match f.target {
                Some(t) => e.with_velocity(
                    clamp_velocity(
                        Velocity {
                            x: (t.left() - e.box_spec().left()) as i64,
                            y: (t.top() - e.box_spec().top()) as i64,
                        },
                        e.max_velocity_spec() as int,
                    ),
                ),
                None => e,
            },
            Effect::Damage(_) => e,
        }
    }

    /// Applies the effect to `target`; `Ok(true)` asks for another tick.
    pub fn apply_effect(&mut self, target: &mut Entity) -> (r: PhysicsResult<bool>)
        ensures
            (*final(self), *final(target), r->Ok_0) == old(self).applied(*old(target)),
            r is Ok,
            old(target).wf() ==> final(target).wf() && final(self).wf(),
    {
        match self {
            Effect::Damage(a) => {
                target.raw_damage(a.damage);
                Ok(false)
            },
            Effect::Follow(f) => {
                f.target = Some(*target.get_box());
                Ok(false)
            },
        }
    }

    /// Updates the entity the effect came from.
    pub fn update_src(&mut self, src: &mut Entity) -> (r: PhysicsResult<()>)
        requires
            old(self).wf(),
            old(src).wf(),
        ensures
            r is Ok,
            *final(self) == *old(self),
            *final(src) == old(self).updated_src(*old(src)),
            final(src).wf(),
    {
        match self {
            Effect::Follow(f) => {
                match f.target {
                    Some(t) => {
                        let tp = t.pos();
                        let sp = src.get_box().pos();
                        src.set_velocity(Velocity { x: tp.x - sp.x, y: tp.y - sp.y });
                    },
                    None => {},
                }
            },
            Effect::Damage(_) => {},
        }
        Ok(())
    }
}

/// An effect waiting to be resolved: where it came from, what it reaches and what it does.
#[derive(Debug, Clone, Copy, PartialEq, Eq, Structural)]
pub struct PendingEffect {
    pub source: Option<EffectSource>,
    pub target: Target,
    pub effect: Effect,
}

/// Whether an action is ready, or how many milliseconds it still has to cool.
#[derive(Debug, Clone, Copy, PartialEq, Eq, Structural)]
pub enum Cooldown {
    /// Ready to be used.
    Ready,
    /// Ready after this many more milliseconds.
    Cooling(i64),
}

impl Default for Cooldown {
    fn default() -> (r: Cooldown)
        ensures
            r == Cooldown::Ready,
    {
        Cooldown::Ready
    }
}

/// `c` after `dt` milliseconds have passed.
pub open spec fn cooled(c: Cooldown, dt: int) -> Cooldown {
    match c {
        Cooldown::Ready => Cooldown::Ready,
        Cooldown::Cooling(r) => if r - dt <= 0 {
            Cooldown::Ready
        } else {
            Cooldown::Cooling((r - dt) as i64)
        },
    }
}

impl Cooldown {
    /// Lets `dt` milliseconds pass: a cooling action becomes ready once nothing remains.
    pub fn cool(&mut self, dt: u32)
        ensures
            *final(self) == cooled(*old(self), dt as int),
    {
        match *self {
            Cooldown::Ready => {},
            Cooldown::Cooling(r) => {
                let left = r as i128 - dt as i128;
                if left <= 0 {
                    *self = Cooldown::Ready;
                } else {
                    *self = Cooldown::Cooling(left as i64);
                }
            },
        }
    }

    /// The milliseconds that remain: none when ready.
    pub fn remaining(&self) -> (r: i64)
        ensures
            r == match *self {
                Cooldown::Ready => 0,
                Cooldown::Cooling(x) => x,
            },
    {
        match *self {
            Cooldown::Ready => 0,
            Cooldown::Cooling(x) => x,
        }
    }
}

impl From<Cooldown> for i64 {
    fn from(value: Cooldown) -> (r: i64) {
        value.remaining()
    }
}

impl vstd::std_specs::convert::FromSpecImpl<Cooldown> for i64 {
    open spec fn obeys_from_spec() -> bool {
        true
    }

    open spec fn from_spec(value: Cooldown) -> i64 {
        match value {
            Cooldown::Ready => 0,
            Cooldown::Cooling(x) => x,
        }
    }
}

/// Whether an entity is to try an action on its next update, and the action's readiness.
#[derive(Debug, Clone, Copy, PartialEq, Eq, Structural)]
pub struct TryAction {
    pub try_action: bool,
    pub cooldown: Cooldown,
}

impl Default for TryAction {
    fn default() -> (r: TryAction)
        ensures
            r == (TryAction { try_action: false, cooldown: Cooldown::Ready }),
    {
        TryAction { try_action: false, cooldown: Cooldown::Ready }
    }
}

impl TryAction {
    /// Marks the action to be tried, if it is ready.
    pub fn maybe_set_doing(&mut self)
        ensures
            *final(self) == if old(self).cooldown == Cooldown::Ready {
                TryAction { try_action: true, ..*old(self) }
            } else {
                *old(self)
            },
    {
        match self.cooldown {
            Cooldown::Ready => self.try_action = true,
            Cooldown::Cooling(_) => {},
        }
    }

    /// Whether the action is to be done now; if so the mark is cleared and the action
    /// starts cooling with `cooldown`.
    pub fn should_do(&mut self, cooldown: Cooldown) -> (r: bool)
        ensures
            r == old(self).try_action,
            *final(self) == if old(self).try_action {
                TryAction { try_action: false, cooldown }
            } else {
                *old(self)
            },
    {
        if self.try_action {
            self.try_action = false;
            self.cooldown = cooldown;
            true
        } else {
            false
        }
    }
}

/// An attack an entity can make on its own update: whether it is to try, the damage it
/// does, and how many milliseconds it then cools for.
#[derive(Debug, Clone, Copy, PartialEq, Eq, Structural)]
pub struct Attack {
    pub action: TryAction,
    pub attack: BasicAttack,
    pub cooldown: i64,
}

} // verus!
