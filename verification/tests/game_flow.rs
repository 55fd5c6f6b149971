use survivor::enemy::Enemy;
use survivor::game::Game;
use survivor::geom::Vec2;
use survivor::keysystem::Key;
use survivor::{DEADZONE_SQ, FRAME_MILLIS, SCALE};

#[test]
fn spawning_n_times_yields_n_pursuers() {
    let mut g = Game::new();
    g.keysystem.on_key_pressed(Key::Spawn);
    for _ in 0..3 {
        g.update(FRAME_MILLIS);
    }
    assert_eq!(g.enemies.len(), 3);
    g.keysystem.on_key_released(Key::Spawn);
    for _ in 0..5 {
        g.update(FRAME_MILLIS);
    }
    // every spawned pursuer stays in the registry and keeps being driven
    // toward the player at the origin
    assert_eq!(g.enemies.len(), 3);
    for e in g.enemies.iter() {
        assert!(e.inner.pos.y < 200 * SCALE);
        assert_ne!(e.inner.speed, Vec2 { x: 0, y: 0 });
    }
}

#[test]
fn spawn_line_bounds_hold() {
    let mut g = Game::new();
    for _ in 0..100 {
        g.add_random_enemy();
    }
    for e in g.enemies.iter() {
        assert!(e.inner.pos.x >= 200 * SCALE);
        assert!(e.inner.pos.x < 400 * SCALE);
        assert_eq!(e.inner.pos.y, 200 * SCALE);
    }
}

#[test]
fn opposite_keys_cancel() {
    let mut g = Game::new();
    g.keysystem.on_key_pressed(Key::Up);
    g.keysystem.on_key_pressed(Key::Down);
    g.keysystem.on_key_pressed(Key::Right);
    g.check_keypress();
    assert_eq!(g.player.acc, Vec2 { x: 1000, y: 0 });
}

#[test]
fn held_key_accelerates_player() {
    let mut g = Game::new();
    g.keysystem.on_key_pressed(Key::Left);
    g.update(FRAME_MILLIS);
    assert_eq!(g.player.speed.x, -3000);
    assert!(g.player.pos.x < 0);
}

#[test]
fn player_faces_the_pointer() {
    let mut g = Game::new();
    g.set_mouse_position(Vec2 { x: 100 * SCALE, y: -50 * SCALE });
    g.update(FRAME_MILLIS);
    assert_eq!(g.player.dir, Vec2 { x: 100 * SCALE, y: -50 * SCALE });
}

#[test]
fn coincident_pursuers_are_separated_during_a_tick() {
    let mut g = Game::new();
    g.enemies.push(Enemy::new(Vec2 { x: 200 * SCALE, y: 200 * SCALE }));
    g.enemies.push(Enemy::new(Vec2 { x: 200 * SCALE, y: 200 * SCALE }));
    g.update(FRAME_MILLIS);
    let dx = g.enemies[0].inner.pos.x - g.enemies[1].inner.pos.x;
    let dy = g.enemies[0].inner.pos.y - g.enemies[1].inner.pos.y;
    // the in-tick overlap pass pushed the pair most of the way apart
    assert!(dx * dx + dy * dy > 30 * SCALE * 30 * SCALE);
}

#[test]
fn pursuer_closes_in_then_holds_near_the_dead_zone() {
    let mut g = Game::new();
    g.enemies.push(Enemy::new(Vec2 { x: 200 * SCALE, y: 200 * SCALE }));
    let dist_sq = |g: &Game| -> i64 {
        let dx = g.enemies[0].inner.pos.x - g.player.pos.x;
        let dy = g.enemies[0].inner.pos.y - g.player.pos.y;
        dx * dx + dy * dy
    };
    let mut d = dist_sq(&g);
    let mut ticks = 0u32;
    while d >= DEADZONE_SQ {
        g.update(FRAME_MILLIS);
        let nd = dist_sq(&g);
        assert!(nd < d, "distance failed to shrink at tick {ticks}");
        d = nd;
        ticks += 1;
        assert!(ticks < 5000, "pursuer never reached the dead-zone");
    }
    // once inside the dead-zone the pursuer stays in its neighbourhood
    for _ in 0..2000 {
        g.update(FRAME_MILLIS);
        assert!(dist_sq(&g) < 4 * DEADZONE_SQ);
    }
}
