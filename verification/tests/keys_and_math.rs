use survivor::intmath::{clamp_i64, div_trunc_i64, isqrt_u64};
use survivor::keysystem::{Key, KeySystem};

#[test]
fn press_release_round_trip() {
    let mut ks = KeySystem::new();
    assert!(!ks.is_pressed(Key::Up));
    ks.on_key_pressed(Key::Up);
    assert!(ks.is_pressed(Key::Up));
    assert!(!ks.is_pressed(Key::Down));
    ks.on_key_released(Key::Up);
    assert!(!ks.is_pressed(Key::Up));
}

#[test]
fn double_press_needs_one_release() {
    let mut ks = KeySystem::new();
    ks.on_key_pressed(Key::Spawn);
    ks.on_key_pressed(Key::Spawn);
    ks.on_key_released(Key::Spawn);
    assert!(!ks.is_pressed(Key::Spawn));
}

#[test]
fn releasing_an_idle_key_is_harmless() {
    let mut ks = KeySystem::new();
    ks.on_key_pressed(Key::Left);
    ks.on_key_released(Key::Right);
    assert!(ks.is_pressed(Key::Left));
    assert!(!ks.is_pressed(Key::Right));
}

#[test]
fn isqrt_exact_values() {
    assert_eq!(isqrt_u64(0), 0);
    assert_eq!(isqrt_u64(1), 1);
    assert_eq!(isqrt_u64(3), 1);
    assert_eq!(isqrt_u64(4), 2);
    assert_eq!(isqrt_u64(999_999), 999);
    assert_eq!(isqrt_u64(1_000_000), 1000);
    let n: u64 = 8_000_000_000_000_000_000;
    let r = isqrt_u64(n);
    assert!(r * r <= n);
    assert!((r + 1) * (r + 1) > n);
}

#[test]
fn division_truncates_toward_zero() {
    assert_eq!(div_trunc_i64(7, 2), 3);
    assert_eq!(div_trunc_i64(-7, 2), -3);
    assert_eq!(div_trunc_i64(-24, 10), -2);
    assert_eq!(div_trunc_i64(9, 10), 0);
    assert_eq!(div_trunc_i64(-9, 10), 0);
}

#[test]
fn clamp_behaviour() {
    assert_eq!(clamp_i64(5, -3, 3), 3);
    assert_eq!(clamp_i64(-5, -3, 3), -3);
    assert_eq!(clamp_i64(2, -3, 3), 2);
}
