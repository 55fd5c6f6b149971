use survivor::enemy::Enemy;
use survivor::geom::Vec2;
use survivor::SCALE;

#[test]
fn dead_zone_leaves_heading_and_impulse_alone() {
    let mut e = Enemy::new(Vec2 { x: 0, y: 0 });
    let before = e;
    // squared distance 10^2 + 10^2 = 200 square units, under the 500 gate
    e.move_to(&Vec2 { x: 10 * SCALE, y: 10 * SCALE });
    assert_eq!(e.inner.dir, before.inner.dir);
    assert_eq!(e.inner.acc, before.inner.acc);
    assert_eq!(e.inner.pos, before.inner.pos);
    assert_eq!(e.inner.speed, before.inner.speed);
}

#[test]
fn dead_zone_boundary_steers() {
    // squared distance 23^2 = 529 square units is outside the 500 gate
    let mut e = Enemy::new(Vec2 { x: 0, y: 0 });
    e.move_to(&Vec2 { x: 23 * SCALE, y: 0 });
    assert_ne!(e.inner.acc, Vec2 { x: 0, y: 0 });
}

#[test]
fn steer_along_axis_exact() {
    let mut e = Enemy::new(Vec2 { x: 0, y: 0 });
    e.move_to(&Vec2 { x: 300 * SCALE, y: 0 });
    // unit direction (10000, 0), gain 0.3, impulse divisor 10
    assert_eq!(e.inner.dir, Vec2 { x: 300 * SCALE, y: 0 });
    assert_eq!(e.inner.acc, Vec2 { x: 300, y: 0 });
}

#[test]
fn steer_diagonal_exact() {
    let mut e = Enemy::new(Vec2 { x: 0, y: 0 });
    e.move_to(&Vec2 { x: 200 * SCALE, y: 200 * SCALE });
    // distance floor(sqrt(8e12)) = 2828427; each unit component
    // floor(2e10 / 2828427) = 7071; impulse floor(7071*3000/10000) = 2121;
    // stored acceleration floor(2121/10) = 212
    assert_eq!(e.inner.dir, Vec2 { x: 200 * SCALE, y: 200 * SCALE });
    assert_eq!(e.inner.acc, Vec2 { x: 212, y: 212 });
}

#[test]
fn steering_faces_away_targets_too() {
    let mut e = Enemy::new(Vec2 { x: 100 * SCALE, y: 0 });
    e.move_to(&Vec2 { x: 0, y: 0 });
    assert_eq!(e.inner.dir, Vec2 { x: -100 * SCALE, y: 0 });
    assert_eq!(e.inner.acc, Vec2 { x: -300, y: 0 });
}
