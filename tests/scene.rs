use scarab_engine::{
    Attack, BasicAttack, Cell, Cooldown, Effect, EffectSource, EffectTarget, Entity, Field, FollowBox,
    PendingEffect, PhysBox, PhysicsError, Point, Scene, Solidity, Target,
    TargetFirstPlayer, TryAction, Velocity, NO_SOLIDITY, SOLID,
};

/// A length in units, as thousandths.
fn u(v: f64) -> i64 {
    (v * 1000.0).round() as i64
}

/// A time in seconds, as milliseconds.
fn ms(v: f64) -> u32 {
    (v * 1000.0).round() as u32
}

fn bx(v: [f64; 4]) -> PhysBox {
    PhysBox::new([u(v[0]), u(v[1]), u(v[2]), u(v[3])]).unwrap()
}

fn two_cells(a: u8, b: u8) -> Field {
    Field::new(vec![
        Cell::new(Solidity(a), bx([0.0, 0.0, 10.0, 10.0])),
        Cell::new(Solidity(b), bx([10.0, 0.0, 10.0, 10.0])),
    ])
    .unwrap()
}

fn entity_at(v: [f64; 4]) -> Entity {
    let mut e = Entity::new().unwrap();
    e.set_box(bx(v));
    e
}

fn moving_entity(v: [f64; 4], vx: f64, vy: f64) -> Entity {
    let mut e = entity_at(v);
    e.set_max_velocity(u(1000.0)).unwrap();
    e.set_velocity(Velocity { x: u(vx), y: u(vy) });
    e
}

fn right_edge(e: &Entity) -> i64 {
    e.get_box().pos().x + e.get_box().size().w
}

#[test]
fn blocked_neighbour_stops_movement_at_the_cell_edge() {
    // Two adjacent solid cells; the move would carry the box past the neighbour.
    let mut scene = Scene::new(two_cells(SOLID, SOLID));
    scene
        .register_entity(moving_entity([5.0, 5.0, 5.0, 5.0], 5.0, 0.0))
        .unwrap();
    scene.tick_entities(ms(10.0)).unwrap();
    let e = scene.entity_registry().get_one(0).unwrap();
    assert_eq!(right_edge(e), u(10.0));
    assert_ne!(right_edge(e), u(60.0));
    assert_eq!(e.get_box().pos().y, u(5.0));
    assert_eq!(e.get_box().size().w, u(5.0));
}

#[test]
fn blocked_neighbour_stops_a_short_move_too() {
    let mut scene = Scene::new(two_cells(SOLID, SOLID));
    scene
        .register_entity(moving_entity([5.0, 5.0, 5.0, 5.0], 5.0, 0.0))
        .unwrap();
    scene.tick_entities(ms(1.0)).unwrap();
    assert_eq!(right_edge(scene.entity_registry().get_one(0).unwrap()), u(10.0));
}

#[test]
fn open_cells_let_the_full_displacement_apply() {
    let mut scene = Scene::new(two_cells(NO_SOLIDITY, NO_SOLIDITY));
    scene
        .register_entity(moving_entity([5.0, 5.0, 5.0, 5.0], 5.0, 0.0))
        .unwrap();
    scene.tick_entities(ms(10.0)).unwrap();
    assert_eq!(right_edge(scene.entity_registry().get_one(0).unwrap()), u(60.0));

    let mut scene = Scene::new(two_cells(NO_SOLIDITY, NO_SOLIDITY));
    scene
        .register_entity(moving_entity([5.0, 5.0, 5.0, 5.0], 5.0, 0.0))
        .unwrap();
    scene.tick_entities(ms(1.0)).unwrap();
    assert_eq!(right_edge(scene.entity_registry().get_one(0).unwrap()), u(15.0));
}

#[test]
fn leaving_the_field_edge_is_stopped() {
    let mut scene = Scene::new(two_cells(NO_SOLIDITY, NO_SOLIDITY));
    scene
        .register_entity(moving_entity([2.0, 2.0, 5.0, 5.0], -5.0, 0.0))
        .unwrap();
    scene.tick_entities(ms(1.0)).unwrap();
    assert_eq!(scene.entity_registry().get_one(0).unwrap().get_box().pos().x, 0);
}

#[test]
fn movement_inside_a_cell_is_not_clipped() {
    let mut scene = Scene::new(two_cells(SOLID, SOLID));
    scene
        .register_entity(moving_entity([1.0, 1.0, 2.0, 2.0], 3.0, 4.0))
        .unwrap();
    scene.tick_entities(ms(1.0)).unwrap();
    let b = *scene.entity_registry().get_one(0).unwrap().get_box();
    assert_eq!(b.pos(), Point { x: u(4.0), y: u(5.0) });
}

#[test]
fn still_entities_need_no_cell() {
    let mut scene = Scene::new(two_cells(SOLID, SOLID));
    scene.register_entity(entity_at([100.0, 100.0, 1.0, 1.0])).unwrap();
    assert!(scene.tick_entities(ms(1.0)).is_ok());
}

#[test]
fn moving_outside_the_field_is_an_error() {
    let mut scene = Scene::new(two_cells(SOLID, SOLID));
    scene
        .register_entity(moving_entity([100.0, 100.0, 1.0, 1.0], 1.0, 0.0))
        .unwrap();
    assert_eq!(
        scene.tick_entities(ms(1.0)).unwrap_err(),
        PhysicsError::NoFieldCell(Point { x: u(100.0), y: u(100.0) })
    );
    assert_eq!(
        scene.entity_registry().get_one(0).unwrap().get_box().pos(),
        Point { x: u(100.0), y: u(100.0) }
    );
}

#[test]
fn a_move_out_of_range_is_an_error() {
    let mut scene = Scene::new(two_cells(NO_SOLIDITY, NO_SOLIDITY));
    let mut e = entity_at([1.0, 1.0, 1.0, 1.0]);
    e.set_max_velocity(2_147_483_648).unwrap();
    e.set_velocity(Velocity { x: 2_147_483_648, y: 0 });
    scene.register_entity(e).unwrap();
    assert_eq!(
        scene.tick_entities(u32::MAX).unwrap_err(),
        PhysicsError::FieldPosition
    );
}

#[test]
fn overlap_resolution_moves_only_the_lower_index() {
    let mut scene = Scene::new(two_cells(NO_SOLIDITY, NO_SOLIDITY));
    scene.register_entity(entity_at([2.0, 4.0, 5.0, 5.0])).unwrap();
    scene.register_entity(entity_at([0.0, 0.0, 5.0, 5.0])).unwrap();
    scene.tick_entities(ms(1.0)).unwrap();
    let lower = *scene.entity_registry().get_one(0).unwrap().get_box();
    let upper = *scene.entity_registry().get_one(1).unwrap().get_box();
    assert_eq!(lower, bx([2.0, 5.0, 5.0, 5.0]));
    assert_eq!(upper, bx([0.0, 0.0, 5.0, 5.0]));
    assert!(!lower.has_overlap(&upper));
}

#[test]
fn overlap_resolution_skips_open_entities() {
    let mut scene = Scene::new(two_cells(NO_SOLIDITY, NO_SOLIDITY));
    let mut open = entity_at([2.0, 4.0, 5.0, 5.0]);
    open.set_solidity(Solidity(NO_SOLIDITY));
    scene.register_entity(open).unwrap();
    scene.register_entity(entity_at([0.0, 0.0, 5.0, 5.0])).unwrap();
    scene.tick_entities(ms(1.0)).unwrap();
    assert_eq!(
        *scene.entity_registry().get_one(0).unwrap().get_box(),
        bx([2.0, 4.0, 5.0, 5.0])
    );
}

#[test]
fn raw_damage_reaches_the_area_but_not_its_source() {
    let mut scene = Scene::new(two_cells(NO_SOLIDITY, NO_SOLIDITY));
    scene.register_entity(entity_at([1.0, 1.0, 1.0, 1.0])).unwrap();
    scene.register_entity(entity_at([15.0, 5.0, 1.0, 1.0])).unwrap();
    scene.register_entity(entity_at([4.0, 4.0, 1.0, 1.0])).unwrap();
    let attack = BasicAttack::new(u(2.0));
    scene.queue_effect(attack.into_pending_effect(0, bx([0.0, 0.0, 8.0, 8.0])));
    scene.tick_entities(ms(0.1)).unwrap();
    let health = |i: usize| scene.entity_registry().get_one(i).unwrap().get_health().current();
    assert_eq!(health(0), u(10.0));
    assert_eq!(health(1), u(10.0));
    assert_eq!(health(2), u(8.0));
    assert!(scene.pending_effects().is_empty());
}

#[test]
fn effect_that_reaches_nobody_is_dropped() {
    let mut scene = Scene::new(two_cells(NO_SOLIDITY, NO_SOLIDITY));
    scene.register_entity(entity_at([1.0, 1.0, 1.0, 1.0])).unwrap();
    scene.queue_effect(PendingEffect {
        source: None,
        target: Target::Area(bx([15.0, 5.0, 1.0, 1.0])),
        effect: Effect::Damage(BasicAttack::new(u(1.0))),
    });
    assert_eq!(scene.pending_effects().len(), 1);
    scene.tick_entities(ms(0.1)).unwrap();
    assert!(scene.pending_effects().is_empty());
    assert_eq!(
        scene.entity_registry().get_one(0).unwrap().get_health().current(),
        u(10.0)
    );
}

#[test]
fn source_may_be_hit_when_allowed() {
    let mut scene = Scene::new(two_cells(NO_SOLIDITY, NO_SOLIDITY));
    scene.register_entity(entity_at([1.0, 1.0, 1.0, 1.0])).unwrap();
    scene.queue_effect(PendingEffect {
        source: Some(EffectSource { index: 0, can_target_source: true }),
        target: Target::Area(bx([0.0, 0.0, 5.0, 5.0])),
        effect: Effect::Damage(BasicAttack::new(u(3.0))),
    });
    scene.tick_entities(ms(0.1)).unwrap();
    assert_eq!(
        scene.entity_registry().get_one(0).unwrap().get_health().current(),
        u(7.0)
    );
}

#[test]
fn first_player_target_reaches_one_player_only() {
    let mut scene = Scene::new(two_cells(NO_SOLIDITY, NO_SOLIDITY));
    let mut p1 = entity_at([1.0, 1.0, 1.0, 1.0]);
    p1.set_player(true);
    let mut p2 = entity_at([5.0, 5.0, 1.0, 1.0]);
    p2.set_player(true);
    scene.register_entity(entity_at([3.0, 3.0, 1.0, 1.0])).unwrap();
    scene.register_entity(p1).unwrap();
    scene.register_entity(p2).unwrap();
    scene.queue_effect(PendingEffect {
        source: None,
        target: Target::FirstPlayer(TargetFirstPlayer::new()),
        effect: Effect::Damage(BasicAttack::new(u(1.0))),
    });
    scene.tick_entities(ms(0.1)).unwrap();
    let health = |i: usize| scene.entity_registry().get_one(i).unwrap().get_health().current();
    assert_eq!(health(0), u(10.0));
    assert_eq!(health(1), u(9.0));
    assert_eq!(health(2), u(10.0));
    assert_eq!(scene.entity_registry().player_index(), Some(1));
}

#[test]
fn first_player_targeter_stays_acquired() {
    let mut t = TargetFirstPlayer::default();
    let mut player = Entity::new().unwrap();
    player.set_player(true);
    let other = Entity::new().unwrap();
    assert!(!t.can_target(&other));
    assert!(t.can_target(&player));
    assert!(!t.can_target(&player));
    assert!(t.has_found_player());
}

#[test]
fn follow_box_steers_the_source_toward_its_target() {
    let mut scene = Scene::new(two_cells(NO_SOLIDITY, NO_SOLIDITY));
    let mut follower = entity_at([1.0, 1.0, 1.0, 1.0]);
    follower.set_max_velocity(u(5.0)).unwrap();
    let mut target = entity_at([4.0, 5.0, 1.0, 1.0]);
    target.set_player(true);
    scene.register_entity(follower).unwrap();
    scene.register_entity(target).unwrap();
    scene.queue_effect(PendingEffect {
        source: Some(EffectSource { index: 0, can_target_source: false }),
        target: Target::FirstPlayer(TargetFirstPlayer::new()),
        effect: Effect::Follow(FollowBox { target: None }),
    });
    scene.tick_entities(ms(0.1)).unwrap();
    // Offset (3, 4) has length 5, within the follower's maximum speed.
    assert_eq!(
        scene.entity_registry().get_one(0).unwrap().get_velocity(),
        Velocity { x: u(3.0), y: u(4.0) }
    );
    assert!(scene.pending_effects().is_empty());
}

#[test]
fn player_mut_reaches_the_first_player() {
    let mut scene = Scene::new(two_cells(NO_SOLIDITY, NO_SOLIDITY));
    scene.register_entity(entity_at([1.0, 1.0, 1.0, 1.0])).unwrap();
    let mut p = entity_at([5.0, 5.0, 1.0, 1.0]);
    p.set_player(true);
    scene.register_entity(p).unwrap();
    scene.player_mut().unwrap().raw_damage(u(4.0));
    assert_eq!(
        scene.entity_registry().get_one(1).unwrap().get_health().current(),
        u(6.0)
    );
    assert!(scene.entity_registry().get_one(2).is_none());
    assert_eq!(scene.entity_registry().len(), 2);
    assert_eq!(scene.get_field().cells().len(), 2);
}

fn armed(v: [f64; 4], damage: f64, cooldown: f64) -> Entity {
    let mut e = entity_at(v);
    e.set_attack(Some(Attack {
        action: TryAction::default(),
        attack: BasicAttack::new(u(damage)),
        cooldown: ms(cooldown) as i64,
    }));
    e
}

#[test]
fn an_entity_update_can_queue_an_attack() {
    let mut scene = Scene::new(two_cells(NO_SOLIDITY, NO_SOLIDITY));
    let mut p = armed([5.0, 5.0, 1.0, 1.0], 2.0, 1.0);
    p.set_player(true);
    scene.register_entity(p).unwrap();
    scene.register_entity(entity_at([4.2, 4.2, 0.5, 0.5])).unwrap();
    scene.register_entity(entity_at([8.0, 8.0, 1.0, 1.0])).unwrap();
    scene.player_mut().unwrap().attack();
    scene.tick_entities(ms(0.1)).unwrap();
    let health = |i: usize| scene.entity_registry().get_one(i).unwrap().get_health().current();
    assert_eq!(health(0), u(10.0));
    assert_eq!(health(1), u(8.0));
    assert_eq!(health(2), u(10.0));
    assert!(scene.pending_effects().is_empty());
    let a = scene.entity_registry().get_one(0).unwrap().get_attack().unwrap();
    assert!(!a.action.try_action);
    assert_eq!(a.action.cooldown, Cooldown::Cooling(ms(1.0) as i64));
}

#[test]
fn a_cooling_attack_is_not_made() {
    let mut scene = Scene::new(two_cells(NO_SOLIDITY, NO_SOLIDITY));
    let mut p = armed([5.0, 5.0, 1.0, 1.0], 2.0, 1.0);
    p.set_player(true);
    scene.register_entity(p).unwrap();
    scene.register_entity(entity_at([4.2, 4.2, 0.5, 0.5])).unwrap();
    scene.player_mut().unwrap().attack();
    scene.tick_entities(ms(0.1)).unwrap();
    // Cooling for a second now: marking it again does nothing.
    scene.player_mut().unwrap().attack();
    scene.tick_entities(ms(0.4)).unwrap();
    let health = scene.entity_registry().get_one(1).unwrap().get_health().current();
    assert_eq!(health, u(8.0));
    let a = scene.entity_registry().get_one(0).unwrap().get_attack().unwrap();
    assert_eq!(a.action.cooldown, Cooldown::Cooling(ms(0.6) as i64));
    // Once cooled, it can be made again.
    scene.tick_entities(ms(0.6)).unwrap();
    scene.player_mut().unwrap().attack();
    scene.tick_entities(ms(0.1)).unwrap();
    assert_eq!(scene.entity_registry().get_one(1).unwrap().get_health().current(), u(6.0));
}
