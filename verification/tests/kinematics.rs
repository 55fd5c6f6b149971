use survivor::geom::Vec2;
use survivor::player::Player;
use survivor::{FRAME_MILLIS, MAX_SPEED, SCALE};

#[test]
fn rest_state_unchanged_by_repeated_ticks() {
    let mut p = Player::new();
    let before = p;
    for _ in 0..50 {
        p.move_(Vec2 { x: 0, y: 0 });
        p.update(FRAME_MILLIS, None);
    }
    assert_eq!(p.pos, before.pos);
    assert_eq!(p.speed, before.speed);
    assert_eq!(p.acc, before.acc);
    assert_eq!(p.dir, before.dir);
}

#[test]
fn speed_clamped_axis_wise() {
    let mut p = Player::new();
    p.move_(Vec2 { x: 10 * SCALE, y: 10 * SCALE });
    p.update(FRAME_MILLIS, None);
    // each axis saturates independently, so the diagonal magnitude exceeds
    // the per-axis bound
    assert_eq!(p.speed, Vec2 { x: MAX_SPEED, y: MAX_SPEED });
    p.move_(Vec2 { x: -10 * SCALE, y: 10 * SCALE });
    p.update(FRAME_MILLIS, None);
    assert!(p.speed.x.abs() <= MAX_SPEED && p.speed.y.abs() <= MAX_SPEED);
    assert_eq!(p.speed, Vec2 { x: -MAX_SPEED, y: MAX_SPEED });
}

#[test]
fn every_tick_keeps_speed_in_bounds() {
    let mut p = Player::new();
    for k in 0..200i64 {
        p.move_(Vec2 { x: (k % 23 - 11) * SCALE, y: (k % 7 - 3) * SCALE });
        p.update(FRAME_MILLIS, None);
        assert!(p.speed.x.abs() <= MAX_SPEED);
        assert!(p.speed.y.abs() <= MAX_SPEED);
    }
}

#[test]
fn integration_formula_exact() {
    let mut p = Player {
        pos: Vec2 { x: 0, y: 0 },
        dir: Vec2 { x: SCALE, y: 0 },
        speed: Vec2 { x: 100, y: -200 },
        acc: Vec2 { x: 50, y: 0 },
    };
    p.update(16, None);
    // friction: 50 - 100/10 = 40 and 0 - (-200/10) = 20
    assert_eq!(p.acc, Vec2 { x: 40, y: 20 });
    // velocity: 40*16 + 100 = 740 and 20*16 - 200 = 120, both inside the clamp
    assert_eq!(p.speed, Vec2 { x: 740, y: 120 });
    // position: 40*256/2 + 740*16 = 16960 and 20*256/2 + 120*16 = 4480
    assert_eq!(p.pos, Vec2 { x: 16960, y: 4480 });
}

#[test]
fn friction_converges_to_exact_zero() {
    let mut p = Player::new();
    p.move_(Vec2 { x: SCALE, y: 0 });
    p.update(FRAME_MILLIS, None);
    assert_eq!(p.speed.x, MAX_SPEED);
    let mut ticks = 0u32;
    while p.speed != (Vec2 { x: 0, y: 0 }) {
        p.move_(Vec2 { x: 0, y: 0 });
        p.update(FRAME_MILLIS, None);
        ticks += 1;
        assert!(ticks <= MAX_SPEED as u32 + 2, "velocity never settled");
    }
    // settled for good: further impulse-free ticks change nothing
    let settled = p;
    for _ in 0..20 {
        p.move_(Vec2 { x: 0, y: 0 });
        p.update(FRAME_MILLIS, None);
    }
    assert_eq!(p.pos, settled.pos);
    assert_eq!(p.speed, Vec2 { x: 0, y: 0 });
}

#[test]
fn tiny_velocity_snaps_to_zero() {
    let mut p = Player {
        pos: Vec2 { x: 0, y: 0 },
        dir: Vec2 { x: SCALE, y: 0 },
        speed: Vec2 { x: 3, y: 4 },
        acc: Vec2 { x: 0, y: 0 },
    };
    // squared magnitude 25 is under the snap threshold of 100
    p.decelerate();
    assert_eq!(p.speed, Vec2 { x: 0, y: 0 });
    assert_eq!(p.acc, Vec2 { x: 0, y: 0 });
}

#[test]
fn face_target_sets_dir_to_offset() {
    let mut p = Player::new();
    p.move_(Vec2 { x: 0, y: 0 });
    p.update(FRAME_MILLIS, Some(Vec2 { x: 30 * SCALE, y: -40 * SCALE }));
    assert_eq!(p.dir, Vec2 { x: 30 * SCALE, y: -40 * SCALE });
}
