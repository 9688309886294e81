use scarab_engine::{Entity, PhysicsError, Velocity, UNIT};

/// A speed in units per second, as thousandths of a unit per second.
fn u(v: f64) -> i64 {
    (v * 1000.0).round() as i64
}

fn vel(x: f64, y: f64) -> Velocity {
    Velocity { x: u(x), y: u(y) }
}

fn magnitude_sq(v: Velocity) -> f64 {
    let x = v.x as f64 / 1000.0;
    let y = v.y as f64 / 1000.0;
    x * x + y * y
}

fn angle(v: Velocity) -> f64 {
    (v.y as f64).atan2(v.x as f64)
}

// Components are kept to a thousandth of a unit per second, so a clamped velocity's
// magnitude and angle match the exact ones only to that resolution.
const MAGNITUDE_SQ_TOLERANCE: f64 = 0.1;
const ANGLE_TOLERANCE: f64 = 0.001;

#[test]
fn mod_set_max_velocity_fails_with_negative() {
    let mut entity = Entity::new().unwrap();

    assert_eq!(
        entity.set_max_velocity(u(-1.0)).unwrap_err(),
        PhysicsError::MaxVelocity
    );
}

#[test]
fn mod_set_velocity_bounded_by_max_velocity_maintains_angle() {
    let mut entity = Entity::new().unwrap();

    entity.set_max_velocity(u(20.0)).unwrap();

    let velocity = vel(20.0, 20.0);
    entity.set_velocity(velocity);
    assert!((400.0 - magnitude_sq(entity.get_velocity())).abs() <= MAGNITUDE_SQ_TOLERANCE);
    assert!((angle(entity.get_velocity()) - angle(velocity)).abs() < ANGLE_TOLERANCE);

    let velocity = vel(-100.0, 20.0);
    entity.set_velocity(velocity);
    assert!((400.0 - magnitude_sq(entity.get_velocity())).abs() <= MAGNITUDE_SQ_TOLERANCE);
    assert!((angle(entity.get_velocity()) - angle(velocity)).abs() < ANGLE_TOLERANCE);

    let velocity = vel(10.0, 10.0);
    entity.set_velocity(velocity);
    assert_eq!(entity.get_velocity(), velocity);
}

#[test]
fn set_velocity_scales_by_integer_square_root() {
    let mut entity = Entity::new().unwrap();
    entity.set_max_velocity(u(20.0)).unwrap();
    // 20000^2 * 2 = 8e8, whose integer square root is 28284;
    // 20000 * 20000 / 28284 = 14142.268... rounds toward zero.
    entity.set_velocity(Velocity { x: 20_000, y: 20_000 });
    assert_eq!(entity.get_velocity(), Velocity { x: 14_142, y: 14_142 });
    entity.set_velocity(Velocity { x: -30_000, y: 40_000 });
    assert_eq!(entity.get_velocity(), Velocity { x: -12_000, y: 16_000 });
}

#[test]
fn max_velocity_of_zero_is_accepted() {
    let mut entity = Entity::new().unwrap();
    assert!(entity.set_max_velocity(0).is_ok());
    assert_eq!(entity.get_max_velocity(), 0);
    entity.set_velocity(Velocity { x: 5, y: 0 });
    assert_eq!(entity.get_velocity(), Velocity { x: 0, y: 0 });
}

#[test]
fn new_entity_defaults() {
    let entity = Entity::new().unwrap();
    assert_eq!(entity.get_velocity(), Velocity { x: 0, y: 0 });
    assert_eq!(entity.get_max_velocity(), UNIT);
    assert_eq!(entity.get_box().pos().x, 0);
    assert_eq!(entity.get_box().size().w, UNIT);
    assert_eq!(entity.get_health().current(), 10 * UNIT);
    assert_eq!(entity.get_health().max(), 10 * UNIT);
    assert!(!entity.is_player());
    let other = Entity::new().unwrap();
    assert_ne!(entity.uuid(), other.uuid());
}

#[test]
fn raw_damage_subtracts_and_saturates() {
    let mut entity = Entity::new().unwrap();
    entity.raw_damage(2_000);
    assert_eq!(entity.get_health().current(), 8_000);
    entity.raw_damage(i64::MAX);
    entity.raw_damage(i64::MAX);
    assert_eq!(entity.get_health().current(), i64::MIN);
}
