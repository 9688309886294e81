use vstd::prelude::*;

use crate::effect::{cooled, Attack, Cooldown, Effect, EffectSource, PendingEffect, Target, TryAction};
use crate::error::{PhysicsError, PhysicsResult};
use crate::field::{bucket, first_containing, lemma_bucket_in_range, Cell, CellNeighbors, Field, FieldEdge};
use crate::physbox::{coord_in_range, lemma_moved_eq, PhysBox};
use crate::types::{
    edge_order, opposite_spec, BoxEdge, HasSolidity, Health, Point, Solidity, Velocity,
    COORD_LIMIT, SOLID, SPEED_LIMIT, UNIT,
};

use uuid::Uuid;

verus! {

broadcast use crate::physbox::lemma_moved;

/// Declares `uuid::Uuid` so that an entity can carry one; its value is opaque here.
#[verifier::external_type_specification]
#[verifier::external_body]
pub struct ExUuid(uuid::Uuid);

/// Relies on `uuid::Uuid::new_v4`: a fresh random identifier. Nothing is known of its value.
#[verifier::external_body]
fn fresh_uuid() -> (r: Uuid) {
    Uuid::new_v4()
}

/// How far a speed of `v` thousandths per second carries in `dt` milliseconds, in
/// thousandths, rounded toward zero.
pub open spec fn displacement(v: int, dt: int) -> int {
    if v >= 0 {
        (v * dt) / 1000
    } else {
        -(((-v) * dt) / 1000)
    }
}

/// Whether `m` is the integer square root of `n`.
pub open spec fn is_isqrt(n: int, m: int) -> bool {
    0 <= m && m * m <= n < (m + 1) * (m + 1)
}

/// `c` scaled by `max / m`, rounded toward zero.
pub open spec fn scale_component(c: int, max: int, m: int) -> int {
    if c >= 0 {
        (c * max) / m
    } else {
        -(((-c) * max) / m)
    }
}

/// Whether moving out across `from`'s `edge` into `to` is forbidden.
pub open spec fn blocked(from: Cell, to: Cell, edge: BoxEdge) -> bool {
    !from.solidity_spec().exits(edge) || !to.solidity_spec().enters(opposite_spec(edge))
}

/// The smallest rectangle holding both boxes, as (left, top, right, bottom): the path a
/// box sweeps moving straight from `a` to `b`.
pub open spec fn hull(a: PhysBox, b: PhysBox) -> (int, int, int, int) {
    (
        if a.left() <= b.left() { a.left() } else { b.left() },
        if a.top() <= b.top() { a.top() } else { b.top() },
        if a.right() >= b.right() { a.right() } else { b.right() },
        if a.bottom() >= b.bottom() { a.bottom() } else { b.bottom() },
    )
}

/// Whether box `b` meets the open rectangle `area` (left, top, right, bottom).
pub open spec fn meets(area: (int, int, int, int), b: PhysBox) -> bool {
    b.right() > area.0 && b.left() < area.2 && b.bottom() > area.1 && b.top() < area.3
}

/// The neighbours among `es` on `edge` whose boxes meet `area`, in the order of `es`.
pub open spec fn side_hits(
    cells: Seq<Cell>,
    es: Seq<FieldEdge>,
    area: (int, int, int, int),
    edge: BoxEdge,
) -> Seq<usize>
    decreases es.len(),
{
    if es.len() == 0 {
        Seq::empty()
    } else {
        let pre = side_hits(cells, es.drop_last(), area, edge);
        let e = es.last();
        if e.edge == edge && meets(area, cells[e.target as int].box_spec()) {
            pre.push(e.target)
        } else {
            pre
        }
    }
}

/// Whether `b` reaches past the `edge` of `from`.
pub open spec fn passes(from: PhysBox, b: PhysBox, edge: BoxEdge) -> bool {
    match edge {
        BoxEdge::Top => b.top() < from.top(),
        BoxEdge::Left => b.left() < from.left(),
        BoxEdge::Bottom => b.bottom() > from.bottom(),
        BoxEdge::Right => b.right() > from.right(),
    }
}

/// `b` after the stop that `from`'s `edge` imposes, given the neighbours `ns` that the
/// swept path meets on that edge: when the velocity points out across the edge and `b`
/// ends past it, `b` is stopped at the edge if some neighbour there is blocked or there
/// is none at all.
pub open spec fn reduce_edge(
    cells: Seq<Cell>,
    from: Cell,
    ns: Seq<usize>,
    edge: BoxEdge,
    v: Velocity,
    b: PhysBox,
) -> PhysBox {
    if v.reduced_by_spec(edge) && passes(from.box_spec(), b, edge) && (ns.len() == 0
        || exists|m: int| 0 <= m < ns.len() && #[trigger] blocked(from, cells[ns[m] as int], edge)) {
        b.clamped(from.box_spec(), edge)
    } else {
        b
    }
}

/// `b0` after the stops from the first `n` edges of `from` (in the order top, left,
/// bottom, right), where the neighbours are those the swept `area` meets.
pub open spec fn reduce_from_n(
    cells: Seq<Cell>,
    es: Seq<FieldEdge>,
    from: Cell,
    v: Velocity,
    area: (int, int, int, int),
    b0: PhysBox,
    n: int,
) -> PhysBox
    decreases n,
{
    if n <= 0 {
        b0
    } else {
        let e = edge_order()[n - 1];
        reduce_edge(
            cells,
            from,
            side_hits(cells, es, area, e),
            e,
            v,
            reduce_from_n(cells, es, from, v, area, b0, n - 1),
        )
    }
}

/// `b` after the stops that cell `c` of `f` imposes on a move that started at `start`.
pub open spec fn reduce_from(f: Field, c: int, v: Velocity, start: PhysBox, b: PhysBox) -> PhysBox {
    reduce_from_n(f.cells_spec(), f.edges_spec(c), f.cells_spec()[c], v, hull(start, b), b, 4)
}

/// `b` after the stops that each cell of `srcs` imposes, in order, on a move that
/// started at `start`.
pub open spec fn reduce_all(
    f: Field,
    srcs: Seq<usize>,
    v: Velocity,
    start: PhysBox,
    b: PhysBox,
) -> PhysBox
    decreases srcs.len(),
{
    if srcs.len() == 0 {
        b
    } else {
        reduce_from(f, srcs.last() as int, v, start, reduce_all(f, srcs.drop_last(), v, start, b))
    }
}

/// The cells that `b` overlaps among the neighbours of cell `c`: those on the top, then
/// the left, bottom and right.
pub open spec fn overlapping_neighbors(f: Field, c: int, b: PhysBox) -> Seq<usize> {
    let cells = f.cells_spec();
    let es = f.edges_spec(c);
    bucket(cells, es, b, BoxEdge::Top) + bucket(cells, es, b, BoxEdge::Left) + bucket(
        cells,
        es,
        b,
        BoxEdge::Bottom,
    ) + bucket(cells, es, b, BoxEdge::Right)
}

/// Where an entity with box `b` and velocity `v` ends up after `dt` milliseconds in
/// field `f`, starting in cell `c`: the box translated by the displacement, kept as it
/// is when it stays within `c`, and otherwise stopped by `c` and then by each neighbour
/// of `c` that `b` overlapped, in turn, judging each side by the whole path swept from
/// `b` to the translated box.
pub open spec fn moved_box(f: Field, c: int, b: PhysBox, v: Velocity, dt: int) -> PhysBox {
    let t = b.moved(b.left() + displacement(v.x as int, dt), b.top() + displacement(v.y as int, dt));
    if t.contained_by(f.cells_spec()[c].box_spec()) {
        t
    } else {
        reduce_all(f, seq![c as usize] + overlapping_neighbors(f, c, b), v, b, t)
    }
}

/// What [`Entity::try_move`] does to `e`: the entity afterwards, or the error.
pub open spec fn moved_entity(f: Field, e: Entity, dt: int) -> Result<Entity, PhysicsError> {
    let b = e.box_spec();
    let v = e.velocity_spec();
    let pos = b.pos_spec();
    if v == (Velocity { x: 0, y: 0 }) {
        Ok(e)
    } else {
        match first_containing(f.cells_spec(), (pos.x as int, pos.y as int)) {
            None => Err(PhysicsError::NoFieldCell(pos)),
            Some(c) => if !move_in_range(b, v, dt) {
                Err(PhysicsError::FieldPosition)
            } else {
                Ok(e.with_box(moved_box(f, c, b, v, dt)))
            },
        }
    }
}

/// Whether the area an attack from `b` covers can be represented: `b` grown to twice
/// its size, its corner moved up and left by its size.
pub open spec fn attack_area_fits(b: PhysBox) -> bool {
    &&& coord_in_range(b.left() - b.width())
    &&& coord_in_range(b.top() - b.height())
    &&& 2 * b.width() <= COORD_LIMIT
    &&& 2 * b.height() <= COORD_LIMIT
}

/// The area an attack from `b` covers.
pub open spec fn attack_area(b: PhysBox) -> PhysBox {
    PhysBox::make(b.left() - b.width(), b.top() - b.height(), 2 * b.width(), 2 * b.height())
}

/// What the attack step of the entity at `index` does after `dt` milliseconds: its
/// attack cools; if it was marked to try, the mark is cleared, it starts cooling again,
/// and a raw-damage effect on its surroundings that spares itself is queued (when that
/// area can be represented).
pub open spec fn attack_step(e: Entity, index: usize, dt: int) -> (Entity, Option<PendingEffect>) {
    match e.attack_spec() {
        None => (e, None),
        Some(a) => {
            let cd = cooled(a.action.cooldown, dt);
            if a.action.try_action {
                let e2 = e.with_attack(
                    Some(
                        Attack {
                            action: TryAction { try_action: false, cooldown: Cooldown::Cooling(a.cooldown) },
                            ..a
                        },
                    ),
                );
                if attack_area_fits(e.box_spec()) {
                    (
                        e2,
                        Some(
                            PendingEffect {
                                source: Some(EffectSource { index, can_target_source: false }),
                                target: Target::Area(attack_area(e.box_spec())),
                                effect: Effect::Damage(a.attack),
                            },
                        ),
                    )
                } else {
                    (e2, None)
                }
            } else {
                (e.with_attack(Some(Attack { action: TryAction { cooldown: cd, ..a.action }, ..a })), None)
            }
        },
    }
}

/// What [`Entity::game_tick`] does to the entity at `index`: the entity afterwards and
/// the effect it queues, or the movement error.
pub open spec fn ticked(f: Field, e: Entity, index: usize, dt: int) -> Result<
    (Entity, Option<PendingEffect>),
    PhysicsError,
> {
    match moved_entity(f, e, dt) {
        Ok(m) => Ok(attack_step(m, index, dt)),
        Err(x) => Err(x),
    }
}

/// Whether the box `b` translated for `dt` milliseconds at `v` stays in range.
pub open spec fn move_in_range(b: PhysBox, v: Velocity, dt: int) -> bool {
    coord_in_range(b.left() + displacement(v.x as int, dt)) && coord_in_range(
        b.top() + displacement(v.y as int, dt),
    )
}

/// `v` scaled down along its own direction to magnitude `max` when it is faster, as
/// [`Entity::set_velocity`] does.
pub open spec fn clamp_velocity(v: Velocity, max: int) -> Velocity {
    let n = v.magnitude_sq_spec();
    if n <= max * max {
        v
    } else {
        let m = choose|m: int| is_isqrt(n, m);
        Velocity {
            x: scale_component(v.x as int, max, m) as i64,
            y: scale_component(v.y as int, max, m) as i64,
        }
    }
}

/// The integer square root is unique.
proof fn lemma_isqrt_unique(n: int, a: int, b: int)
    requires
        is_isqrt(n, a),
        is_isqrt(n, b),
    ensures
        a == b,
{
    if a < b {
        assert((a + 1) * (a + 1) <= b * b) by (nonlinear_arith)
            requires
                0 <= a,
                a + 1 <= b,
        ;
    }
    if b < a {
        assert((b + 1) * (b + 1) <= a * a) by (nonlinear_arith)
            requires
                0 <= b,
                b + 1 <= a,
        ;
    }
}

/// The integer square root of `n`.
pub fn isqrt(n: u128) -> (r: u128)
    ensures
        is_isqrt(n as int, r as int),
        r < 0x1_0000_0000_0000_0000,
{
    let mut lo: u128 = 0;
    let mut hi: u128 = 0x1_0000_0000_0000_0000;
    assert(hi * hi > n) by (nonlinear_arith)
        requires
            hi == 0x1_0000_0000_0000_0000u128,
            n <= 0xffff_ffff_ffff_ffff_ffff_ffff_ffff_ffffu128,
    ;
    while hi - lo > 1
        invariant
            lo < hi <= 0x1_0000_0000_0000_0000,
            lo * lo <= n,
            n < hi * hi,
        decreases hi - lo,
    {
        let mid = lo + (hi - lo) / 2;
        assert(lo < mid < hi);
        assert(mid * mid < 0x1_0000_0000_0000_0000_0000_0000_0000_0000) by (nonlinear_arith)
            requires
                mid < 0x1_0000_0000_0000_0000,
        ;
        if mid * mid <= n {
            lo = mid;
        } else {
            hi = mid;
        }
    }
    assert(hi == lo + 1);
    lo
}

/// The integer square root of `n` exceeds `|c|` for no `c` with `c * c <= n`.
proof fn lemma_isqrt_bounds(n: int, m: int, c: int)
    requires
        is_isqrt(n, m),
        c * c <= n,
    ensures
        -m <= c <= m,
{
    if c > m {
        assert(c * c >= (m + 1) * (m + 1)) by (nonlinear_arith)
            requires
                c >= m + 1,
                m >= 0,
        ;
    }
    if c < -m {
        assert(c * c >= (m + 1) * (m + 1)) by (nonlinear_arith)
            requires
                -c >= m + 1,
                m >= 0,
        ;
    }
}

/// A moving body of a scene.
#[derive(Debug)]
pub struct Entity {
    velocity: Velocity,
    max_velocity: i64,
    physbox: PhysBox,
    health: Health,
    solidity: Solidity,
    uuid: Uuid,
    player: bool,
    attack: Option<Attack>,
}

impl Entity {
    pub closed spec fn velocity_spec(self) -> Velocity {
        self.velocity
    }

    pub closed spec fn max_velocity_spec(self) -> i64 {
        self.max_velocity
    }

    pub closed spec fn box_spec(self) -> PhysBox {
        self.physbox
    }

    pub closed spec fn health_spec(self) -> Health {
        self.health
    }

    pub closed spec fn solidity_spec(self) -> Solidity {
        self.solidity
    }

    pub closed spec fn player_spec(self) -> bool {
        self.player
    }

    pub closed spec fn attack_spec(self) -> Option<Attack> {
        self.attack
    }

    /// This entity with its attack replaced by `a`.
    pub closed spec fn with_attack(self, a: Option<Attack>) -> Entity {
        Entity { attack: a, ..self }
    }

    pub closed spec fn uuid_spec(self) -> Uuid {
        self.uuid
    }

    /// This entity with its box replaced by `b`.
    pub closed spec fn with_box(self, b: PhysBox) -> Entity {
        Entity { physbox: b, ..self }
    }

    /// This entity with its velocity replaced by `v`.
    pub closed spec fn with_velocity(self, v: Velocity) -> Entity {
        Entity { velocity: v, ..self }
    }

    /// This entity after taking `amt` of damage.
    pub closed spec fn damaged(self, amt: i64) -> Entity {
        Entity { health: self.health.damaged(amt), ..self }
    }

    /// What every entity satisfies: a valid box, a maximum speed in range and a
    /// velocity whose components do not exceed it.
    pub open spec fn wf(self) -> bool {
        &&& self.box_spec().wf()
        &&& 0 <= self.max_velocity_spec() <= SPEED_LIMIT
        &&& -SPEED_LIMIT <= self.velocity_spec().x <= SPEED_LIMIT
        &&& -SPEED_LIMIT <= self.velocity_spec().y <= SPEED_LIMIT
    }

    /// Whether `self` equals `other` but for its box.
    pub open spec fn same_but_box(self, other: Entity) -> bool {
        &&& self.velocity_spec() == other.velocity_spec()
        &&& self.max_velocity_spec() == other.max_velocity_spec()
        &&& self.health_spec() == other.health_spec()
        &&& self.solidity_spec() == other.solidity_spec()
        &&& self.player_spec() == other.player_spec()
        &&& self.uuid_spec() == other.uuid_spec()
        &&& self.attack_spec() == other.attack_spec()
    }

    /// An entity at rest in the unit box at the origin, with maximum speed one unit per
    /// second, ten points of health, solid on every edge, not a player, and a fresh
    /// random identifier.
    pub fn new() -> (r: PhysicsResult<Entity>)
        ensures
            r matches Ok(e) ==> e.wf() && e.velocity_spec() == (Velocity { x: 0, y: 0 })
                && e.max_velocity_spec() == UNIT && e.box_spec().left() == 0
                && e.box_spec().top() == 0 && e.box_spec().width() == UNIT
                && e.box_spec().height() == UNIT && e.health_spec().current_spec() == 10 * UNIT
                && e.health_spec().max_spec() == 10 * UNIT && e.solidity_spec() == Solidity(SOLID)
                && !e.player_spec() && e.attack_spec() is None,
            r is Ok,
    {
        let physbox = match PhysBox::new([0, 0, UNIT, UNIT]) {
            Ok(b) => b,
            Err(e) => return Err(e),
        };
        Ok(
            Entity {
                velocity: Velocity { x: 0, y: 0 },
                max_velocity: UNIT,
                physbox,
                health: Health::new(10 * UNIT),
                solidity: Solidity(SOLID),
                uuid: fresh_uuid(),
                player: false,
                attack: None,
            },
        )
    }

    /// The entity's unique identifier.
    pub fn uuid(&self) -> (r: Uuid)
        ensures
            r == self.uuid_spec(),
    {
        self.uuid
    }

    /// Sets the velocity, scaled down along its own direction to the maximum speed when
    /// it is faster: each component becomes `c * max / m`, rounded toward zero, where `m`
    /// is the integer square root of the squared magnitude.
    pub fn set_velocity(&mut self, velocity: Velocity)
        requires
            old(self).wf(),
        ensures
            final(self).wf(),
            final(self).same_but_velocity(*old(self)),
            *final(self) == old(self).with_velocity(
                clamp_velocity(velocity, old(self).max_velocity_spec() as int),
            ),
            velocity.magnitude_sq_spec() <= old(self).max_velocity_spec() * old(
                self,
            ).max_velocity_spec() ==> final(self).velocity_spec() == velocity,
            velocity.magnitude_sq_spec() > old(self).max_velocity_spec() * old(
                self,
            ).max_velocity_spec() ==> exists|m: int|
                is_isqrt(velocity.magnitude_sq_spec(), m) && final(self).velocity_spec().x
                    == scale_component(velocity.x as int, old(self).max_velocity_spec() as int, m)
                    && final(self).velocity_spec().y == scale_component(
                    velocity.y as int,
                    old(self).max_velocity_spec() as int,
                    m,
                ),
    {
        let max = self.max_velocity;
        let msq = velocity.magnitude_sq();
        let max128 = max as i128;
        assert(max128 * max128 <= 0x4000_0000_0000_0000) by (nonlinear_arith)
            requires
                0 <= max128 <= 0x8000_0000,
        ;
        assert(0 <= max128 * max128) by (nonlinear_arith)
            requires
                0 <= max128,
        ;
        if msq <= (max128 * max128) as u128 {
            proof {
                lemma_square_le(velocity.x as int, velocity.y as int, max as int);
            }
            self.velocity = velocity;
        } else {
            let m = isqrt(msq);
            let ghost n = velocity.magnitude_sq_spec();
            proof {
                assert(velocity.x * velocity.x <= n && velocity.y * velocity.y <= n) by (nonlinear_arith)
                    requires
                        n == velocity.x * velocity.x + velocity.y * velocity.y,
                ;
                lemma_isqrt_bounds(n, m as int, velocity.x as int);
                lemma_isqrt_bounds(n, m as int, velocity.y as int);
                if m == 0 {
                    assert(n < 1);
                    assert(max128 * max128 >= 0);
                }
            }
            let x = Entity::scale(velocity.x, max, m);
            let y = Entity::scale(velocity.y, max, m);
            self.velocity = Velocity { x, y };
            proof {
                let mm = choose|mm: int| is_isqrt(n, mm);
                lemma_isqrt_unique(n, m as int, mm);
            }
        }
    }

    pub open spec fn same_but_velocity(self, other: Entity) -> bool {
        &&& self.box_spec() == other.box_spec()
        &&& self.max_velocity_spec() == other.max_velocity_spec()
        &&& self.health_spec() == other.health_spec()
        &&& self.solidity_spec() == other.solidity_spec()
        &&& self.player_spec() == other.player_spec()
        &&& self.uuid_spec() == other.uuid_spec()
        &&& self.attack_spec() == other.attack_spec()
    }

    /// `c * max / m` rounded toward zero, for `|c| <= m`.
    fn scale(c: i64, max: i64, m: u128) -> (r: i64)
        requires
            0 < m < 0x1_0000_0000_0000_0000,
            -(m as int) <= c <= m,
            0 <= max <= SPEED_LIMIT,
        ensures
            r == scale_component(c as int, max as int, m as int),
            -max <= r <= max,
    {
        let mi = m as i128;
        let ci = c as i128;
        let maxi = max as i128;
        if ci >= 0 {
            assert(ci * maxi <= mi * maxi) by (nonlinear_arith)
                requires
                    0 <= ci <= mi,
                    0 <= maxi,
            ;
            assert(ci * maxi < 0x1_0000_0000_0000_0000_0000_0000) by (nonlinear_arith)
                requires
                    0 <= ci <= 0x8000_0000_0000_0000,
                    0 <= maxi <= 0x8000_0000,
            ;
            assert(0 <= ci * maxi) by (nonlinear_arith)
                requires
                    0 <= ci,
                    0 <= maxi,
            ;
            let q = (ci * maxi) / mi;
            assert(q <= maxi) by (nonlinear_arith)
                requires
                    q == (ci * maxi) / (mi as int),
                    ci * maxi <= mi * maxi,
                    0 < mi,
                    0 <= ci * maxi,
            ;
            q as i64
        } else {
            let a = -ci;
            assert(a * maxi <= mi * maxi) by (nonlinear_arith)
                requires
                    0 <= a <= mi,
                    0 <= maxi,
            ;
            assert(a * maxi < 0x1_0000_0000_0000_0000_0000_0000) by (nonlinear_arith)
                requires
                    0 <= a <= 0x8000_0000_0000_0000,
                    0 <= maxi <= 0x8000_0000,
            ;
            assert(0 <= a * maxi) by (nonlinear_arith)
                requires
                    0 <= a,
                    0 <= maxi,
            ;
            let q = (a * maxi) / mi;
            assert(q <= maxi) by (nonlinear_arith)
                requires
                    q == (a * maxi) / (mi as int),
                    a * maxi <= mi * maxi,
                    0 < mi,
                    0 <= a * maxi,
            ;
            (-q) as i64
        }
    }

    /// How far `v` carries in `dt` milliseconds, rounded toward zero.
    fn displace(v: i64, dt: u32) -> (r: i64)
        requires
            -SPEED_LIMIT <= v <= SPEED_LIMIT,
        ensures
            r == displacement(v as int, dt as int),
            -0x40_0000_0000_0000 <= r <= 0x40_0000_0000_0000,
    {
        let vi = v as i128;
        let d = dt as i128;
        if vi >= 0 {
            assert(0 <= vi * d <= 0x8000_0000 * 0xffff_ffff) by (nonlinear_arith)
                requires
                    0 <= vi <= 0x8000_0000,
                    0 <= d <= 0xffff_ffff,
            ;
            let q = (vi * d) / 1000;
            q as i64
        } else {
            let a = -vi;
            assert(0 <= a * d <= 0x8000_0000 * 0xffff_ffff) by (nonlinear_arith)
                requires
                    0 <= a <= 0x8000_0000,
                    0 <= d <= 0xffff_ffff,
            ;
            let q = (a * d) / 1000;
            (-q) as i64
        }
    }

    /// Moves this entity by its velocity over `dt` milliseconds, stopping it at the
    /// edges of cells that may not be left or entered.
    ///
    /// A still entity stays put. Otherwise the entity's cell is the one holding its
    /// top-left corner; there must be one (else `NoFieldCell`), and the translated box
    /// must stay in range (else `FieldPosition`). On an error the entity is unchanged.
    pub fn try_move(&mut self, field: &Field, dt: u32) -> (r: PhysicsResult<()>)
        requires
            old(self).wf(),
            field.wf(),
        ensures
            final(self).wf(),
            final(self).same_but_box(*old(self)),
            r is Err ==> *final(self) == *old(self),
            r is Ok ==> *final(self) == old(self).with_box(final(self).box_spec()),
            match moved_entity(*field, *old(self), dt as int) {
                Ok(e) => r is Ok && *final(self) == e,
                Err(x) => r == Err::<(), PhysicsError>(x) && *final(self) == *old(self),
            },
            old(self).velocity_spec() == (Velocity { x: 0, y: 0 }) ==> r is Ok && *final(self)
                == *old(self),
            old(self).velocity_spec() != (Velocity { x: 0, y: 0 }) ==> ({
                let b = old(self).box_spec();
                let v = old(self).velocity_spec();
                let pos = b.pos_spec();
                match first_containing(field.cells_spec(), (pos.x as int, pos.y as int)) {
                    None => r == Err::<(), PhysicsError>(PhysicsError::NoFieldCell(pos)),
                    Some(c) => if !move_in_range(b, v, dt as int) {
                        r == Err::<(), PhysicsError>(PhysicsError::FieldPosition)
                    } else {
                        r is Ok && final(self).box_spec() == moved_box(*field, c, b, v, dt as int)
                    },
                }
            }),
    {
        if self.velocity.x == 0 && self.velocity.y == 0 {
            return Ok(());
        }
        let ghost b = self.physbox;
        let ghost v = self.velocity;
        let pos = self.physbox.pos();
        let current = match field.cell_at_pos(pos) {
            Some(c) => c,
            None => return Err(PhysicsError::NoFieldCell(pos)),
        };
        let c = current.index();
        let overlaps = match field.neighbors_of_cell_overlapping_box(current, &self.physbox) {
            Ok(n) => n,
            Err(e) => return Err(e),
        };
        let dx = Entity::displace(self.velocity.x, dt);
        let dy = Entity::displace(self.velocity.y, dt);
        let nx = pos.x + dx;
        let ny = pos.y + dy;
        if !(-COORD_LIMIT <= nx && nx <= COORD_LIMIT && -COORD_LIMIT <= ny && ny <= COORD_LIMIT) {
            return Err(PhysicsError::FieldPosition);
        }
        let mut new_box = self.physbox;
        new_box.set_pos(Point { x: nx, y: ny });
        proof {
            lemma_moved_eq(new_box, b, nx as int, ny as int);
        }
        let ghost t = new_box;
        if !new_box.is_fully_contained_by(current.get_box()) {
            let all = overlaps.iter_all();
            let ghost srcs = seq![c] + all@;
            assert(overlaps.on(BoxEdge::Top) == overlaps.top@);
            assert(overlaps.on(BoxEdge::Left) == overlaps.left@);
            assert(overlaps.on(BoxEdge::Bottom) == overlaps.bottom@);
            assert(overlaps.on(BoxEdge::Right) == overlaps.right@);
            assert(all@ == overlapping_neighbors(*field, c as int, b));
            proof {
                lemma_bucket_in_range(*field, c as int, b, BoxEdge::Top);
                lemma_bucket_in_range(*field, c as int, b, BoxEdge::Left);
                lemma_bucket_in_range(*field, c as int, b, BoxEdge::Bottom);
                lemma_bucket_in_range(*field, c as int, b, BoxEdge::Right);
                assert(srcs.take(0) =~= Seq::<usize>::empty());
                assert(srcs.take(1).drop_last() =~= srcs.take(0));
            }
            let start = self.physbox;
            match Entity::apply_movement_reductions(field, c, self.velocity, &start, &mut new_box) {
                Ok(()) => {},
                Err(e) => return Err(e),
            }
            proof {
                assert(srcs.take(1).last() == c);
                assert(reduce_all(*field, srcs.take(0), v, b, t) == t);
                assert(reduce_all(*field, srcs.take(1), v, b, t) == reduce_from(*field, c as int, v, b, t));
            }
            let mut k: usize = 0;
            while k < all.len()
                invariant
                    field.wf(),
                    k <= all@.len(),
                    srcs == seq![c] + all@,
                    v == self.velocity_spec(),
                    forall|m: int| 0 <= m < all@.len() ==> (#[trigger] all@[m]) < field.cells_spec().len(),
                    new_box.wf(),
                    start == b,
                    start.wf(),
                    new_box == reduce_all(*field, srcs.take(k as int + 1), v, b, t),
                decreases all@.len() - k,
            {
                proof {
                    assert(srcs.take(k as int + 2).drop_last() =~= srcs.take(k as int + 1));
                    assert(srcs.take(k as int + 2).last() == all@[k as int]);
                }
                match Entity::apply_movement_reductions(field, all[k], self.velocity, &start, &mut new_box) {
                    Ok(()) => {},
                    Err(e) => return Err(e),
                }
                k = k + 1;
            }
            assert(srcs.take(all@.len() as int + 1) =~= srcs);
        }
        self.physbox = new_box;
        Ok(())
    }

    /// Stops `new_box`, on a move at `v` that started at `start`, at the edges of cell
    /// `c` of `field` that it may not cross.
    fn apply_movement_reductions(
        field: &Field,
        c: usize,
        v: Velocity,
        start: &PhysBox,
        new_box: &mut PhysBox,
    ) -> (r: PhysicsResult<()>)
        requires
            field.wf(),
            c < field.cells_spec().len(),
            start.wf(),
            old(new_box).wf(),
        ensures
            r is Ok,
            final(new_box).wf(),
            *final(new_box) == reduce_from(*field, c as int, v, *start, *old(new_box)),
    {
        let cells = field.cells();
        let from = &cells[c];
        let ghost b0 = *new_box;
        let area = (
            if start.left_x() <= new_box.left_x() { start.left_x() } else { new_box.left_x() },
            if start.top_y() <= new_box.top_y() { start.top_y() } else { new_box.top_y() },
            if start.right_x() >= new_box.right_x() { start.right_x() } else { new_box.right_x() },
            if start.bottom_y() >= new_box.bottom_y() { start.bottom_y() } else { new_box.bottom_y() },
        );
        let ghost harea = hull(*start, b0);
        assert(harea == (area.0 as int, area.1 as int, area.2 as int, area.3 as int));
        let neighbors = Entity::neighbors_meeting(field, c, area);
        let ghost fc = field.cells_spec();
        let ghost es = field.edges_spec(c as int);
        let order = BoxEdge::iter();
        let mut n: usize = 0;
        while n < 4
            invariant
                n <= 4,
                field.wf(),
                c < fc.len(),
                fc == field.cells_spec(),
                es == field.edges_spec(c as int),
                cells@ == fc,
                *from == fc[c as int],
                from.box_spec().wf(),
                order@ == edge_order(),
                forall|e: BoxEdge| #[trigger] neighbors.on(e) == side_hits(fc, es, harea, e),
                forall|e: BoxEdge, m: int|
                    0 <= m < neighbors.on(e).len() ==> #[trigger] neighbors.on(e)[m] < fc.len(),
                new_box.wf(),
                *new_box == reduce_from_n(fc, es, *from, v, harea, b0, n as int),
            decreases 4 - n,
        {
            let edge = order[n];
            let ns = neighbors.get_neighbors(edge);
            assert(forall|m: int| 0 <= m < ns@.len() ==> #[trigger] ns@[m] < fc.len()) by {
                assert(forall|m: int| 0 <= m < ns@.len() ==> ns@[m] == neighbors.on(edge)[m]);
            }
            let mut any_blocked = false;
            let mut j: usize = 0;
            while j < ns.len()
                invariant
                    j <= ns@.len(),
                    forall|m: int| 0 <= m < ns@.len() ==> (#[trigger] ns@[m]) < fc.len(),
                    cells@ == fc,
                    any_blocked == exists|m: int|
                        0 <= m < j && #[trigger] blocked(*from, fc[ns@[m] as int], edge),
                decreases ns@.len() - j,
            {
                let nb = &cells[ns[j]];
                if !from.solidity().exit_edge(edge) || !nb.solidity().enter_edge(edge.opposite()) {
                    assert(blocked(*from, fc[ns@[j as int] as int], edge));
                    any_blocked = true;
                }
                j = j + 1;
            }
            let past = match edge {
                BoxEdge::Top => new_box.top_y() < from.get_box().top_y(),
                BoxEdge::Left => new_box.left_x() < from.get_box().left_x(),
                BoxEdge::Bottom => new_box.bottom_y() > from.get_box().bottom_y(),
                BoxEdge::Right => new_box.right_x() > from.get_box().right_x(),
            };
            if v.is_reduced_by_edge(edge) && past && (ns.len() == 0 || any_blocked) {
                new_box.set_touching_edge(from.get_box(), edge);
            }
            n = n + 1;
        }
        Ok(())
    }

    /// The neighbours of cell `c` of `field` whose boxes meet the rectangle `area`
    /// (left, top, right, bottom), by the side of `c` they lie on.
    fn neighbors_meeting(field: &Field, c: usize, area: (i64, i64, i64, i64)) -> (r: CellNeighbors)
        requires
            field.wf(),
            c < field.cells_spec().len(),
        ensures
            forall|e: BoxEdge|
                #[trigger] r.on(e) == side_hits(
                    field.cells_spec(),
                    field.edges_spec(c as int),
                    (area.0 as int, area.1 as int, area.2 as int, area.3 as int),
                    e,
                ),
            forall|e: BoxEdge, m: int|
                0 <= m < r.on(e).len() ==> #[trigger] r.on(e)[m] < field.cells_spec().len(),
    {
        let ghost ar = (area.0 as int, area.1 as int, area.2 as int, area.3 as int);
        let cells = field.cells();
        let es = match field.edges_of(c) {
            Ok(es) => es,
            Err(_) => {
                assert(false);
                return CellNeighbors::new();
            },
        };
        let mut hits = CellNeighbors::new();
        let mut m: usize = 0;
        while m < es.len()
            invariant
                field.wf(),
                c < field.cells_spec().len(),
                cells@ == field.cells_spec(),
                es@ == field.edges_spec(c as int),
                ar == (area.0 as int, area.1 as int, area.2 as int, area.3 as int),
                m <= es@.len(),
                forall|e: BoxEdge|
                    #[trigger] hits.on(e) == side_hits(field.cells_spec(), es@.take(m as int), ar, e),
                forall|e: BoxEdge, q: int|
                    0 <= q < hits.on(e).len() ==> #[trigger] hits.on(e)[q] < field.cells_spec().len(),
            decreases es@.len() - m,
        {
            let fe = es[m];
            assert(field.edges_inv());
            assert(fe.target < field.cells_spec().len());
            let nb = cells[fe.target].get_box();
            assert(es@.take(m as int + 1).drop_last() =~= es@.take(m as int));
            assert(es@.take(m as int + 1).last() == fe);
            let ghost before = hits;
            assert(*nb == field.cells_spec()[fe.target as int].box_spec());
            let meet = nb.right_x() > area.0 && nb.left_x() < area.2 && nb.bottom_y() > area.1
                && nb.top_y() < area.3;
            assert(meet == meets(ar, field.cells_spec()[fe.target as int].box_spec()));
            if meet {
                hits.add_neighbor(fe.target, fe.edge);
                assert forall|e: BoxEdge, q: int|
                    0 <= q < hits.on(e).len() implies #[trigger] hits.on(e)[q]
                    < field.cells_spec().len() by {
                    if e == fe.edge && q == hits.on(e).len() - 1 {
                    } else {
                    }
                }
            }
            assert forall|e: BoxEdge|
                #[trigger] hits.on(e) == side_hits(
                    field.cells_spec(),
                    es@.take(m as int + 1),
                    ar,
                    e,
                ) by {
                assert(side_hits(field.cells_spec(), es@.take(m as int + 1), ar, e) == if fe.edge == e
                    && meet {
                    side_hits(field.cells_spec(), es@.take(m as int), ar, e).push(fe.target)
                } else {
                    side_hits(field.cells_spec(), es@.take(m as int), ar, e)
                });
                assert(before.on(e) == side_hits(field.cells_spec(), es@.take(m as int), ar, e));
            }
            m = m + 1;
        }
        assert(es@.take(es@.len() as int) =~= es@);
        hits
    }

    /// One update of the entity at registry index `index`: it moves as
    /// [`Entity::try_move`] does, then its attack, if it has one, cools and may queue an
    /// effect onto `queue`. A movement error is returned with nothing changed.
    pub fn game_tick(
        &mut self,
        index: usize,
        field: &Field,
        dt: u32,
        queue: &mut Vec<PendingEffect>,
    ) -> (r: PhysicsResult<()>)
        requires
            old(self).wf(),
            field.wf(),
        ensures
            final(self).wf(),
            match ticked(*field, *old(self), index, dt as int) {
                Ok((e, p)) => r is Ok && *final(self) == e && final(queue)@ == match p {
                    Some(pe) => old(queue)@.push(pe),
                    None => old(queue)@,
                },
                Err(x) => r == Err::<(), PhysicsError>(x) && *final(self) == *old(self)
                    && final(queue)@ == old(queue)@,
            },
    {
        match self.try_move(field, dt) {
            Ok(()) => {},
            Err(x) => return Err(x),
        }
        let ghost moved = *self;
        match self.attack {
            None => {},
            Some(a) => {
                let mut action = a.action;
                action.cooldown.cool(dt);
                if action.should_do(Cooldown::Cooling(a.cooldown)) {
                    self.attack = Some(Attack { action, ..a });
                    let b = self.physbox;
                    let w = b.size().w;
                    let h = b.size().h;
                    let x = b.pos().x;
                    let y = b.pos().y;
                    if -COORD_LIMIT <= x - w && -COORD_LIMIT <= y - h && w <= COORD_LIMIT / 2
                        && h <= COORD_LIMIT / 2 {
                        match PhysBox::new([x - w, y - h, 2 * w, 2 * h]) {
                            Ok(area) => {
                                queue.push(a.attack.into_pending_effect(index, area));
                            },
                            Err(_) => {},
                        }
                    }
                } else {
                    self.attack = Some(Attack { action, ..a });
                }
            },
        }
        proof {
            assert(*self == attack_step(moved, index, dt as int).0);
        }
        Ok(())
    }

    /// The attack, if the entity has one.
    pub fn get_attack(&self) -> (r: Option<Attack>)
        ensures
            r == self.attack_spec(),
    {
        self.attack
    }

    /// Gives the entity an attack, or takes it away.
    pub fn set_attack(&mut self, attack: Option<Attack>)
        ensures
            *final(self) == old(self).with_attack(attack),
    {
        self.attack = attack;
    }

    /// Marks the entity's attack to be made on its next update, if it is ready.
    pub fn attack(&mut self)
        ensures
            *final(self) == match old(self).attack_spec() {
                Some(a) => old(self).with_attack(
                    Some(
                        Attack {
                            action: if a.action.cooldown == Cooldown::Ready {
                                TryAction { try_action: true, ..a.action }
                            } else {
                                a.action
                            },
                            ..a
                        },
                    ),
                ),
                None => *old(self),
            },
    {
        match self.attack {
            Some(a) => {
                let mut action = a.action;
                action.maybe_set_doing();
                self.attack = Some(Attack { action, ..a });
            },
            None => {},
        }
    }

    /// The velocity.
    pub fn get_velocity(&self) -> (r: Velocity)
        ensures
            r == self.velocity_spec(),
    {
        self.velocity
    }

    /// Sets the maximum speed; fails with `MaxVelocity`, changing nothing, when it is
    /// negative. The current velocity is kept as it is.
    pub fn set_max_velocity(&mut self, max_velocity: i64) -> (r: PhysicsResult<()>)
        requires
            old(self).wf(),
            max_velocity <= SPEED_LIMIT,
        ensures
            final(self).wf(),
            max_velocity < 0 <==> r == Err::<(), PhysicsError>(PhysicsError::MaxVelocity),
            max_velocity < 0 ==> *final(self) == *old(self),
            max_velocity >= 0 ==> r is Ok && final(self).max_velocity_spec() == max_velocity
                && final(self).same_but_max(*old(self)),
    {
        if max_velocity < 0 {
            return Err(PhysicsError::MaxVelocity);
        }
        self.max_velocity = max_velocity;
        Ok(())
    }

    pub open spec fn same_but_max(self, other: Entity) -> bool {
        &&& self.box_spec() == other.box_spec()
        &&& self.velocity_spec() == other.velocity_spec()
        &&& self.health_spec() == other.health_spec()
        &&& self.solidity_spec() == other.solidity_spec()
        &&& self.player_spec() == other.player_spec()
        &&& self.uuid_spec() == other.uuid_spec()
        &&& self.attack_spec() == other.attack_spec()
    }

    /// The maximum speed.
    pub fn get_max_velocity(&self) -> (r: i64)
        ensures
            r == self.max_velocity_spec(),
    {
        self.max_velocity
    }

    /// The box.
    pub fn get_box(&self) -> (r: &PhysBox)
        ensures
            *r == self.box_spec(),
    {
        &self.physbox
    }

    /// Replaces the box.
    pub fn set_box(&mut self, physbox: PhysBox)
        ensures
            *final(self) == old(self).with_box(physbox),
            final(self).box_spec() == physbox,
            final(self).same_but_box(*old(self)),
    {
        self.physbox = physbox;
    }

    /// A mutable handle on the box.
    pub fn get_box_mut(&mut self) -> (r: &mut PhysBox)
        ensures
            *r == old(self).box_spec(),
            final(self).box_spec() == *final(r),
            final(self).same_but_box(*old(self)),
    {
        &mut self.physbox
    }

    /// The health.
    pub fn get_health(&self) -> (r: &Health)
        ensures
            *r == self.health_spec(),
    {
        &self.health
    }

    /// Takes `amt` of raw damage.
    pub fn raw_damage(&mut self, amt: i64)
        ensures
            *final(self) == old(self).damaged(amt),
            final(self).box_spec() == old(self).box_spec(),
            final(self).velocity_spec() == old(self).velocity_spec(),
            final(self).max_velocity_spec() == old(self).max_velocity_spec(),
            final(self).solidity_spec() == old(self).solidity_spec(),
            final(self).player_spec() == old(self).player_spec(),
            final(self).uuid_spec() == old(self).uuid_spec(),
            final(self).attack_spec() == old(self).attack_spec(),
            final(self).health_spec().max_spec() == old(self).health_spec().max_spec(),
            final(self).health_spec().current_spec() == if old(self).health_spec().current_spec()
                - amt < i64::MIN {
                i64::MIN as int
            } else if old(self).health_spec().current_spec() - amt > i64::MAX {
                i64::MAX as int
            } else {
                old(self).health_spec().current_spec() - amt
            },
    {
        self.health.raw_damage(amt);
    }

    /// Sets the passability mask.
    pub fn set_solidity(&mut self, solidity: Solidity)
        ensures
            final(self).solidity_spec() == solidity,
            final(self).box_spec() == old(self).box_spec(),
            final(self).velocity_spec() == old(self).velocity_spec(),
            final(self).max_velocity_spec() == old(self).max_velocity_spec(),
            final(self).health_spec() == old(self).health_spec(),
            final(self).player_spec() == old(self).player_spec(),
            final(self).uuid_spec() == old(self).uuid_spec(),
            final(self).attack_spec() == old(self).attack_spec(),
    {
        self.solidity = solidity;
    }

    /// The passability mask.
    pub fn solidity(&self) -> (r: Solidity)
        ensures
            r == self.solidity_spec(),
    {
        self.solidity
    }

    /// Whether this entity is a player.
    pub fn is_player(&self) -> (r: bool)
        ensures
            r == self.player_spec(),
    {
        self.player
    }

    /// Marks whether this entity is a player.
    pub fn set_player(&mut self, player: bool)
        ensures
            final(self).player_spec() == player,
            final(self).box_spec() == old(self).box_spec(),
            final(self).velocity_spec() == old(self).velocity_spec(),
            final(self).max_velocity_spec() == old(self).max_velocity_spec(),
            final(self).health_spec() == old(self).health_spec(),
            final(self).solidity_spec() == old(self).solidity_spec(),
            final(self).uuid_spec() == old(self).uuid_spec(),
            final(self).attack_spec() == old(self).attack_spec(),
    {
        self.player = player;
    }
}

impl HasSolidity for Entity {
    fn get_solidity(&self) -> &Solidity {
        &self.solidity
    }
}

/// Replacing an entity's box changes only its box.
pub broadcast proof fn lemma_with_box(e: Entity, b: PhysBox)
    ensures
        #[trigger] e.with_box(b).box_spec() == b,
        e.with_box(b).same_but_box(e),
{
}

/// Replacing an entity's velocity changes only its velocity.
pub broadcast proof fn lemma_with_velocity(e: Entity, v: Velocity)
    ensures
        #[trigger] e.with_velocity(v).velocity_spec() == v,
        e.with_velocity(v).same_but_velocity(e),
{
}

/// Damage changes only an entity's health, as [`Health::damaged`] says.
pub broadcast proof fn lemma_damaged(e: Entity, amt: i64)
    ensures
        #[trigger] e.damaged(amt).health_spec() == e.health_spec().damaged(amt),
        e.damaged(amt).box_spec() == e.box_spec(),
        e.damaged(amt).velocity_spec() == e.velocity_spec(),
        e.damaged(amt).max_velocity_spec() == e.max_velocity_spec(),
        e.damaged(amt).solidity_spec() == e.solidity_spec(),
        e.damaged(amt).player_spec() == e.player_spec(),
        e.damaged(amt).uuid_spec() == e.uuid_spec(),
        e.damaged(amt).attack_spec() == e.attack_spec(),
{
}

/// Replacing an entity's attack changes only its attack.
pub broadcast proof fn lemma_with_attack(e: Entity, a: Option<Attack>)
    ensures
        #[trigger] e.with_attack(a).attack_spec() == a,
        e.with_attack(a).box_spec() == e.box_spec(),
        e.with_attack(a).velocity_spec() == e.velocity_spec(),
        e.with_attack(a).max_velocity_spec() == e.max_velocity_spec(),
        e.with_attack(a).health_spec() == e.health_spec(),
        e.with_attack(a).solidity_spec() == e.solidity_spec(),
        e.with_attack(a).player_spec() == e.player_spec(),
        e.with_attack(a).uuid_spec() == e.uuid_spec(),
{
}

/// The facts about entity updates, for callers to use.
pub broadcast group group_entity_updates {
    lemma_with_attack,
    lemma_with_box,
    lemma_with_velocity,
    lemma_damaged,
    crate::types::lemma_health_damaged,
}

/// `x * x + y * y <= max * max` bounds each component by `max`.
proof fn lemma_square_le(x: int, y: int, max: int)
    requires
        x * x + y * y <= max * max,
        0 <= max,
    ensures
        -max <= x <= max,
        -max <= y <= max,
{
    assert(0 <= y * y && 0 <= x * x) by (nonlinear_arith);
    if x > max {
        assert(x * x > max * max) by (nonlinear_arith)
            requires
                x > max,
                max >= 0,
        ;
    }
    if x < -max {
        assert(x * x > max * max) by (nonlinear_arith)
            requires
                -x > max,
                max >= 0,
        ;
    }
    if y > max {
        assert(y * y > max * max) by (nonlinear_arith)
            requires
                y > max,
                max >= 0,
        ;
    }
    if y < -max {
        assert(y * y > max * max) by (nonlinear_arith)
            requires
                -y > max,
                max >= 0,
        ;
    }
}

} // verus!
