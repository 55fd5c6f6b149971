//! The simulation itself: the player body, the held-key state, the pointer
//! position and the registry of pursuers, advanced one tick at a time in a
//! fixed order: keys to player impulse (and spawns), player integration,
//! then for each pursuer in registry order steer, integrate, and resolve
//! overlaps against the others as they stand at that moment.

use vstd::prelude::*;
use rand::Rng;
use crate::enemy::{ewf, resolved_all, Enemy};
use crate::geom::{in_range, v2, Vec2};
use crate::intmath::div_trunc;
use crate::keysystem::{Key, KeySystem};
use crate::player::{wf, Player};
use crate::{ACC_DIVISOR, DT_LIMIT, SCALE, WORLD_LIMIT};

verus! {

/// The horizontal key direction: right and left held together cancel.
pub open spec fn key_dx(held: Set<Key>) -> int {
    (if held.contains(Key::Right) {
        1int
    } else {
        0int
    }) - (if held.contains(Key::Left) {
        1int
    } else {
        0int
    })
}

/// The vertical key direction: down is positive, up and down cancel.
pub open spec fn key_dy(held: Set<Key>) -> int {
    (if held.contains(Key::Down) {
        1int
    } else {
        0int
    }) - (if held.contains(Key::Up) {
        1int
    } else {
        0int
    })
}

/// The player after the held keys became this tick's impulse.
pub open spec fn player_after_keys(p: Player, held: Set<Key>) -> Player {
    Player {
        acc: v2(
            div_trunc(key_dx(held) * SCALE, ACC_DIVISOR as int),
            div_trunc(key_dy(held) * SCALE, ACC_DIVISOR as int),
        ),
        ..p
    }
}

/// What a spawn may produce: a fresh pursuer at rest on the spawn line,
/// its abscissa drawn from `[200, 400)` world units.
pub open spec fn spawn_ok(e: Enemy) -> bool {
    &&& ewf(e)
    &&& e.inner.speed == (Vec2 { x: 0i64, y: 0i64 })
    &&& e.inner.acc == (Vec2 { x: 0i64, y: 0i64 })
    &&& e.inner.dir == (Vec2 { x: SCALE, y: 0i64 })
    &&& e.inner.pos.y == 200 * SCALE
    &&& 200 * SCALE <= e.inner.pos.x < 400 * SCALE
}

/// One pursuer's share of a tick: steer toward the target, integrate, then
/// get pushed out of the listed neighbours in order.
pub open spec fn step_enemy(e: Enemy, others: Seq<Enemy>, target: Vec2, dt: int) -> Enemy {
    let e1 = e.steered(target);
    let e2 = Enemy { inner: e1.inner.stepped(dt, None), ..e1 };
    Enemy {
        inner: Player { pos: resolved_all(e2.inner.pos, others), ..e2.inner },
        ..e2
    }
}

/// The pursuer pass from index `i` on: each pursuer in turn is stepped
/// against the registry as it stands when its turn comes (neighbours
/// earlier in the list already moved this tick, later ones not yet).
pub open spec fn enemies_pass(enemies: Seq<Enemy>, target: Vec2, dt: int, i: nat) -> Seq<Enemy>
    decreases enemies.len() - i,
{
    if i >= enemies.len() {
        enemies
    } else {
        let e2 = step_enemy(enemies[i as int], enemies.remove(i as int), target, dt);
        enemies_pass(enemies.update(i as int, e2), target, dt, i + 1)
    }
}

/// The whole game state.
pub struct Game {
    pub player: Player,
    pub keysystem: KeySystem,
    pub mouse_position: Vec2,
    pub enemies: Vec<Enemy>,
}

/// Well-formedness of the whole state.
pub open spec fn gwf(g: Game) -> bool {
    &&& wf(g.player)
    &&& g.keysystem.wf()
    &&& in_range(g.mouse_position, WORLD_LIMIT as int)
    &&& forall|k: int| 0 <= k < g.enemies@.len() ==> ewf(#[trigger] g.enemies@[k])
}

/// Relies on rand's `Rng::gen_range` over `0..n` (`thread_rng`): the sample
/// lies below `n`; the call panics only on an empty range, which `n > 0`
/// rules out. Nothing more can be said of a random draw.
#[verifier::external_body]
fn random_below(n: u64) -> (r: u64)
    requires
        n > 0,
    ensures
        r < n,
{
    rand::thread_rng().gen_range(0..n)
}

impl Game {
    /// An empty game: player at rest at the origin, no key held, pointer
    /// at the origin, no pursuer.
    pub fn new() -> (g: Game)
        ensures
            g.player.pos == (Vec2 { x: 0i64, y: 0i64 }),
            g.player.speed == (Vec2 { x: 0i64, y: 0i64 }),
            g.player.acc == (Vec2 { x: 0i64, y: 0i64 }),
            g.player.dir == (Vec2 { x: SCALE, y: 0i64 }),
            g.keysystem.held() == Set::<Key>::empty(),
            g.mouse_position == (Vec2 { x: 0i64, y: 0i64 }),
            g.enemies@ == Seq::<Enemy>::empty(),
            gwf(g),
    {
        let g = Game {
            player: Player::new(),
            keysystem: KeySystem::new(),
            mouse_position: Vec2 { x: 0, y: 0 },
            enemies: Vec::new(),
        };
        proof {
            assert(g.enemies@ =~= Seq::<Enemy>::empty());
        }
        g
    }

    /// Turn the held keys into the player's impulse for this tick —
    /// opposite keys cancel, a diagonal is not normalized — and append one
    /// fresh pursuer if the spawn key is held.
    pub fn check_keypress(&mut self)
        requires
            gwf(*old(self)),
        ensures
            final(self).player == player_after_keys(old(self).player, old(self).keysystem.held()),
            final(self).keysystem == old(self).keysystem,
            final(self).mouse_position == old(self).mouse_position,
            old(self).keysystem.held().contains(Key::Spawn) ==> final(self).enemies@.len() == old(
                self,
            ).enemies@.len() + 1 && final(self).enemies@.subrange(
                0,
                old(self).enemies@.len() as int,
            ) == old(self).enemies@ && spawn_ok(final(self).enemies@.last()),
            !old(self).keysystem.held().contains(Key::Spawn) ==> final(self).enemies == old(
                self,
            ).enemies,
            gwf(*final(self)),
    {
        let mut dx: i64 = 0;
        let mut dy: i64 = 0;
        if self.keysystem.is_pressed(Key::Up) {
            dy = dy - 1;
        }
        if self.keysystem.is_pressed(Key::Down) {
            dy = dy + 1;
        }
        if self.keysystem.is_pressed(Key::Left) {
            dx = dx - 1;
        }
        if self.keysystem.is_pressed(Key::Right) {
            dx = dx + 1;
        }
        if self.keysystem.is_pressed(Key::Spawn) {
            self.add_random_enemy();
        }
        self.player.move_(Vec2 { x: dx * SCALE, y: dy * SCALE });
        proof {
            if old(self).keysystem.held().contains(Key::Spawn) {
                assert(self.enemies@.subrange(0, old(self).enemies@.len() as int) =~= old(
                    self,
                ).enemies@);
            }
        }
    }

    /// Record the pointer position the player will face.
    pub fn set_mouse_position(&mut self, position: Vec2)
        requires
            gwf(*old(self)),
            in_range(position, WORLD_LIMIT as int),
        ensures
            final(self).mouse_position == position,
            final(self).player == old(self).player,
            final(self).keysystem == old(self).keysystem,
            final(self).enemies == old(self).enemies,
            gwf(*final(self)),
    {
        self.mouse_position = position;
    }

    /// Append one pursuer at rest at a drawn spot on the spawn line.
    pub fn add_random_enemy(&mut self)
        requires
            gwf(*old(self)),
        ensures
            final(self).enemies@.len() == old(self).enemies@.len() + 1,
            final(self).enemies@.subrange(0, old(self).enemies@.len() as int) == old(
                self,
            ).enemies@,
            spawn_ok(final(self).enemies@.last()),
            final(self).player == old(self).player,
            final(self).keysystem == old(self).keysystem,
            final(self).mouse_position == old(self).mouse_position,
            gwf(*final(self)),
    {
        let r = random_below(2_000_000);
        let x = 200 * SCALE + (r as i64);
        let enemy = Enemy::new(Vec2 { x, y: 200 * SCALE });
        self.enemies.push(enemy);
        proof {
            assert(self.enemies@.subrange(0, old(self).enemies@.len() as int) =~= old(
                self,
            ).enemies@);
        }
    }

    /// One tick: keys become the player's impulse (and possible spawn),
    /// the player integrates facing the pointer, then every pursuer in
    /// registry order steers toward the player, integrates, and is pushed
    /// out of the other pursuers as they stand at that moment.
    pub fn update(&mut self, dt: i64)
        requires
            gwf(*old(self)),
            0 <= dt <= DT_LIMIT,
        ensures
            final(self).keysystem == old(self).keysystem,
            final(self).mouse_position == old(self).mouse_position,
            final(self).player == player_after_keys(
                old(self).player,
                old(self).keysystem.held(),
            ).stepped(dt as int, Some(old(self).mouse_position)),
            old(self).keysystem.held().contains(Key::Spawn) ==> exists|e: Enemy|
                spawn_ok(e) && final(self).enemies@ == enemies_pass(
                    old(self).enemies@.push(e),
                    final(self).player.pos,
                    dt as int,
                    0,
                ),
            !old(self).keysystem.held().contains(Key::Spawn) ==> final(self).enemies@
                == enemies_pass(old(self).enemies@, final(self).player.pos, dt as int, 0),
            gwf(*final(self)),
    {
        self.check_keypress();
        self.player.update(dt, Some(self.mouse_position));
        let ghost start = self.enemies@;
        let ppos = self.player.pos;
        let n = self.enemies.len();
        let mut i: usize = 0;
        while i < n
            invariant
                n == self.enemies@.len(),
                i <= n,
                0 <= dt <= DT_LIMIT,
                wf(self.player),
                ppos == self.player.pos,
                in_range(ppos, WORLD_LIMIT as int),
                self.keysystem == old(self).keysystem,
                self.mouse_position == old(self).mouse_position,
                self.player == player_after_keys(
                    old(self).player,
                    old(self).keysystem.held(),
                ).stepped(dt as int, Some(old(self).mouse_position)),
                old(self).keysystem.held().contains(Key::Spawn) ==> start.len() == old(
                    self,
                ).enemies@.len() + 1 && start.subrange(0, old(self).enemies@.len() as int) == old(
                    self,
                ).enemies@ && spawn_ok(start.last()),
                !old(self).keysystem.held().contains(Key::Spawn) ==> start == old(self).enemies@,
                old(self).keysystem.wf(),
                in_range(old(self).mouse_position, WORLD_LIMIT as int),
                forall|k: int| 0 <= k < self.enemies@.len() ==> ewf(#[trigger] self.enemies@[k]),
                enemies_pass(self.enemies@, ppos, dt as int, i as nat) == enemies_pass(
                    start,
                    ppos,
                    dt as int,
                    0,
                ),
            decreases n - i,
        {
            let ghost pre = self.enemies@;
            let mut others: Vec<Enemy> = Vec::new();
            let mut j: usize = 0;
            while j < n
                invariant
                    n == self.enemies@.len(),
                    i < n,
                    j <= n,
                    forall|k: int|
                        0 <= k < self.enemies@.len() ==> ewf(#[trigger] self.enemies@[k]),
                    j <= i ==> others@ == self.enemies@.subrange(0, j as int),
                    j > i ==> others@ == self.enemies@.subrange(0, i as int)
                        + self.enemies@.subrange(i + 1, j as int),
                decreases n - j,
            {
                if j != i {
                    let o = self.enemies[j];
                    others.push(o);
                    proof {
                        if j <= i {
                            assert(others@ =~= self.enemies@.subrange(0, j + 1));
                        } else {
                            assert(others@ =~= self.enemies@.subrange(0, i as int)
                                + self.enemies@.subrange(i + 1, j + 1));
                        }
                    }
                } else {
                    proof {
                        assert(others@ =~= self.enemies@.subrange(0, i as int)
                            + self.enemies@.subrange(i + 1, i + 1));
                    }
                }
                j += 1;
            }
            proof {
                assert(others@ =~= pre.remove(i as int));
            }
            let mut e = self.enemies[i];
            e.move_to(&ppos);
            e.update(dt);
            e.check_collision(&others);
            self.enemies[i] = e;
            proof {
                assert(e == step_enemy(pre[i as int], pre.remove(i as int), ppos, dt as int));
                assert(self.enemies@ == pre.update(i as int, e));
                assert(enemies_pass(pre, ppos, dt as int, i as nat) == enemies_pass(
                    pre.update(i as int, e),
                    ppos,
                    dt as int,
                    (i + 1) as nat,
                ));
            }
            i += 1;
        }
        proof {
            assert(enemies_pass(self.enemies@, ppos, dt as int, n as nat) == self.enemies@);
            if old(self).keysystem.held().contains(Key::Spawn) {
                let e = start.last();
                assert(old(self).enemies@.push(e) =~= start);
            }
        }
    }
}

} // verus!
