use survivor::enemy::Enemy;
use survivor::geom::Vec2;
use survivor::{RADIUS, SCALE};

#[test]
fn axis_overlap_resolves_to_full_separation() {
    // 30 world units apart on the x axis, overlapping (combined extent 40)
    let mut e = Enemy::new(Vec2 { x: 0, y: 0 });
    let other = Enemy::new(Vec2 { x: 30 * SCALE, y: 0 });
    let before_gap = 30 * SCALE;
    e.check_collision(&vec![other]);
    // pushed to exactly 2*radius away from the neighbour
    assert_eq!(e.inner.pos, Vec2 { x: 30 * SCALE - 2 * RADIUS, y: 0 });
    let after_gap = (e.inner.pos.x - other.inner.pos.x).abs();
    assert_eq!(after_gap, 2 * RADIUS);
    assert!(after_gap > before_gap);
}

#[test]
fn coincident_pair_moves_by_diagonal_extent() {
    // the degenerate fallback pushes by the full combined extent along the
    // literal (1, 1) direction on each axis
    let mut e = Enemy::new(Vec2 { x: 50 * SCALE, y: 50 * SCALE });
    let other = Enemy::new(Vec2 { x: 50 * SCALE, y: 50 * SCALE });
    e.check_collision(&vec![other]);
    assert_eq!(
        e.inner.pos,
        Vec2 { x: 50 * SCALE + 2 * RADIUS, y: 50 * SCALE + 2 * RADIUS }
    );
}

#[test]
fn separated_pair_stays_put() {
    let mut e = Enemy::new(Vec2 { x: 0, y: 0 });
    let other = Enemy::new(Vec2 { x: 50 * SCALE, y: 0 });
    e.check_collision(&vec![other]);
    assert_eq!(e.inner.pos, Vec2 { x: 0, y: 0 });
}

#[test]
fn neighbours_processed_in_list_order() {
    let mut e = Enemy::new(Vec2 { x: 0, y: 0 });
    let right = Enemy::new(Vec2 { x: 30 * SCALE, y: 0 });
    let left = Enemy::new(Vec2 { x: -30 * SCALE, y: 0 });
    e.check_collision(&vec![right, left]);
    // first push lands at -10 units; the second one, against the left
    // neighbour 20 units away, pushes back to +10 units
    assert_eq!(e.inner.pos, Vec2 { x: 10 * SCALE, y: 0 });
}

#[test]
fn only_the_moving_body_is_displaced() {
    let mut e = Enemy::new(Vec2 { x: 0, y: 0 });
    let other = Enemy::new(Vec2 { x: 10 * SCALE, y: 0 });
    let neighbour_before = other;
    e.check_collision(&vec![other]);
    assert_eq!(other.inner.pos, neighbour_before.inner.pos);
}
