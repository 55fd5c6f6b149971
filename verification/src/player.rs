//! The kinematic body shared by the player and the pursuers: position,
//! facing direction, velocity and the per-tick impulse, advanced by one
//! integration step per tick.

use vstd::prelude::*;
use crate::geom::{in_range, v2, Vec2};
use crate::intmath::{abs_i, clamp_i64, clamp_spec, div_trunc, div_trunc_i64};
use crate::{ACC_DIVISOR, ACC_LIMIT, DT_LIMIT, FRAME_MILLIS, FRICTION_DIVISOR, IMPULSE_LIMIT,
    MAX_SPEED, SNAP_EPS_SQ, WORLD_LIMIT};

verus! {

/// A body on the plane. `dir` is the facing: the last direction vector the
/// body was turned toward (the front end derives the drawn angle from it);
/// it is independent of the direction of motion.
#[derive(Clone, Copy, PartialEq, Eq, Structural, Debug)]
pub struct Player {
    pub pos: Vec2,
    pub dir: Vec2,
    pub speed: Vec2,
    pub acc: Vec2,
}

/// Well-formedness: every field within its clamped range.
pub open spec fn wf(p: Player) -> bool {
    &&& in_range(p.pos, WORLD_LIMIT as int)
    &&& in_range(p.speed, MAX_SPEED as int)
    &&& in_range(p.acc, ACC_LIMIT as int)
    &&& in_range(p.dir, 2 * WORLD_LIMIT as int)
}

/// One friction step on one axis: a tenth of the velocity leaves the stored
/// acceleration, and the result is kept inside the acceleration range.
pub open spec fn friction_axis(acc: int, vel: int) -> int {
    clamp_spec(acc - div_trunc(vel, FRICTION_DIVISOR as int), -ACC_LIMIT as int, ACC_LIMIT as int)
}

/// The snap rule: a velocity of squared magnitude under the threshold
/// becomes exactly zero.
pub open spec fn snapped_vel(v: Vec2) -> Vec2 {
    if v.x * v.x + v.y * v.y < SNAP_EPS_SQ {
        Vec2 { x: 0i64, y: 0i64 }
    } else {
        v
    }
}

/// New velocity on one axis: accelerate, then clamp axis-wise (never a
/// magnitude check).
pub open spec fn next_vel_axis(acc: int, vel: int, dt: int) -> int {
    clamp_spec(acc * dt + vel, -MAX_SPEED as int, MAX_SPEED as int)
}

/// New position on one axis: constant-acceleration kinematics with the new
/// velocity, kept inside the world square.
pub open spec fn next_pos_axis(pos: int, acc: int, vel: int, dt: int) -> int {
    clamp_spec(pos + div_trunc(acc * dt * dt, 2) + vel * dt, -WORLD_LIMIT as int,
        WORLD_LIMIT as int)
}

impl Player {
    /// The whole integration step as a function of the old state: turn
    /// toward `face` if given, apply friction and the snap rule, then
    /// update velocity and position.
    pub open spec fn stepped(self, dt: int, face: Option<Vec2>) -> Player {
        let dir2 = match face {
            Some(t) => v2(t.x - self.pos.x, t.y - self.pos.y),
            None => self.dir,
        };
        let ax = friction_axis(self.acc.x as int, self.speed.x as int);
        let ay = friction_axis(self.acc.y as int, self.speed.y as int);
        let sv = snapped_vel(self.speed);
        let vx = next_vel_axis(ax, sv.x as int, dt);
        let vy = next_vel_axis(ay, sv.y as int, dt);
        let px = next_pos_axis(self.pos.x as int, ax, vx, dt);
        let py = next_pos_axis(self.pos.y as int, ay, vy, dt);
        Player { pos: v2(px, py), dir: dir2, speed: v2(vx, vy), acc: v2(ax, ay) }
    }

    /// A fresh body at the origin, at rest, facing along the positive x
    /// axis.
    pub fn new() -> (p: Player)
        ensures
            p.pos == (Vec2 { x: 0i64, y: 0i64 }),
            p.speed == (Vec2 { x: 0i64, y: 0i64 }),
            p.acc == (Vec2 { x: 0i64, y: 0i64 }),
            p.dir == (Vec2 { x: crate::SCALE, y: 0i64 }),
            wf(p),
    {
        Player {
            pos: Vec2 { x: 0, y: 0 },
            speed: Vec2 { x: 0, y: 0 },
            acc: Vec2 { x: 0, y: 0 },
            dir: Vec2 { x: crate::SCALE, y: 0 },
        }
    }

    /// Store this tick's impulse: the raw direction scaled down by the gain
    /// divisor. The input need not be normalized, so a diagonal impulse is
    /// stronger than an axis-aligned one.
    pub fn move_(&mut self, acc: Vec2)
        requires
            wf(*old(self)),
            in_range(acc, IMPULSE_LIMIT as int),
        ensures
            final(self).acc.x == div_trunc(acc.x as int, ACC_DIVISOR as int),
            final(self).acc.y == div_trunc(acc.y as int, ACC_DIVISOR as int),
            final(self).pos == old(self).pos,
            final(self).dir == old(self).dir,
            final(self).speed == old(self).speed,
            wf(*final(self)),
    {
        self.acc = Vec2 {
            x: div_trunc_i64(acc.x, ACC_DIVISOR),
            y: div_trunc_i64(acc.y, ACC_DIVISOR),
        };
    }

    /// Friction: subtract a tenth of the velocity from the stored
    /// acceleration, and snap a velocity already under the threshold to
    /// exactly zero.
    pub fn decelerate(&mut self)
        requires
            wf(*old(self)),
        ensures
            final(self).acc.x == friction_axis(old(self).acc.x as int, old(self).speed.x as int),
            final(self).acc.y == friction_axis(old(self).acc.y as int, old(self).speed.y as int),
            final(self).speed == snapped_vel(old(self).speed),
            final(self).pos == old(self).pos,
            final(self).dir == old(self).dir,
            wf(*final(self)),
    {
        self.acc = Vec2 {
            x: clamp_i64(self.acc.x - div_trunc_i64(self.speed.x, FRICTION_DIVISOR), -ACC_LIMIT,
                ACC_LIMIT),
            y: clamp_i64(self.acc.y - div_trunc_i64(self.speed.y, FRICTION_DIVISOR), -ACC_LIMIT,
                ACC_LIMIT),
        };
        if self.speed.mag_sq() < SNAP_EPS_SQ {
            self.speed = Vec2 { x: 0, y: 0 };
        }
    }

    /// Turn the body toward `pos`: the facing becomes the offset from the
    /// body to `pos`.
    pub fn set_dir(&mut self, pos: Vec2)
        requires
            wf(*old(self)),
            in_range(pos, WORLD_LIMIT as int),
        ensures
            final(self).dir.x == pos.x - old(self).pos.x,
            final(self).dir.y == pos.y - old(self).pos.y,
            final(self).pos == old(self).pos,
            final(self).speed == old(self).speed,
            final(self).acc == old(self).acc,
            wf(*final(self)),
    {
        self.dir = Vec2 { x: pos.x - self.pos.x, y: pos.y - self.pos.y };
    }

    /// One integration step of `dt` milliseconds: face the target if one is
    /// given, apply friction and the snap rule, clamp the new velocity
    /// axis-wise to `MAX_SPEED`, and move. The acceleration is left as
    /// friction set it; the next tick's impulse overwrites it.
    pub fn update(&mut self, dt: i64, mouse_pos: Option<Vec2>)
        requires
            wf(*old(self)),
            0 <= dt <= DT_LIMIT,
            mouse_pos is Some ==> in_range(mouse_pos->0, WORLD_LIMIT as int),
        ensures
            *final(self) == old(self).stepped(dt as int, mouse_pos),
            -MAX_SPEED <= final(self).speed.x <= MAX_SPEED,
            -MAX_SPEED <= final(self).speed.y <= MAX_SPEED,
            wf(*final(self)),
    {
        if let Some(pos) = mouse_pos {
            self.set_dir(pos);
        }

        self.decelerate();

        proof {
            assert(-1_000_000_000_000 <= self.acc.x * dt <= 1_000_000_000_000
                && -1_000_000_000_000 <= self.acc.y * dt <= 1_000_000_000_000) by (nonlinear_arith)
                requires
                    -ACC_LIMIT <= self.acc.x <= ACC_LIMIT,
                    -ACC_LIMIT <= self.acc.y <= ACC_LIMIT,
                    0 <= dt <= DT_LIMIT,
            {}
        }
        self.speed = Vec2 {
            x: clamp_i64(self.acc.x * dt + self.speed.x, -MAX_SPEED, MAX_SPEED),
            y: clamp_i64(self.acc.y * dt + self.speed.y, -MAX_SPEED, MAX_SPEED),
        };

        proof {
            assert(-1_000_000_000_000_000_000 <= (self.acc.x * dt) * dt <= 1_000_000_000_000_000_000
                && -1_000_000_000_000_000_000 <= (self.acc.y * dt) * dt
                    <= 1_000_000_000_000_000_000
                && -3_000_000_000 <= self.speed.x * dt <= 3_000_000_000
                && -3_000_000_000 <= self.speed.y * dt <= 3_000_000_000) by (nonlinear_arith)
                requires
                    -1_000_000_000_000 <= self.acc.x * dt <= 1_000_000_000_000,
                    -1_000_000_000_000 <= self.acc.y * dt <= 1_000_000_000_000,
                    -MAX_SPEED <= self.speed.x <= MAX_SPEED,
                    -MAX_SPEED <= self.speed.y <= MAX_SPEED,
                    0 <= dt <= DT_LIMIT,
            {}
        }
        self.pos = Vec2 {
            x: clamp_i64(div_trunc_i64(self.acc.x * dt * dt, 2) + self.speed.x * dt + self.pos.x,
                -WORLD_LIMIT, WORLD_LIMIT),
            y: clamp_i64(div_trunc_i64(self.acc.y * dt * dt, 2) + self.speed.y * dt + self.pos.y,
                -WORLD_LIMIT, WORLD_LIMIT),
        };
    }
}

/// One tick with no impulse at the fixed frame length: a zero impulse is
/// stored (the gain divisor of zero is zero) and the body integrates with
/// no face target.
pub open spec fn coast_step(p: Player) -> Player {
    (Player { acc: Vec2 { x: 0i64, y: 0i64 }, ..p }).stepped(FRAME_MILLIS as int, None)
}

/// `n` impulse-free ticks in a row.
pub open spec fn coasted(p: Player, n: nat) -> Player
    decreases n,
{
    if n == 0 {
        p
    } else {
        coast_step(coasted(p, (n - 1) as nat))
    }
}

/// A body at rest — zero velocity, zero stored acceleration — is left
/// exactly where it is by an integration step of any length.
pub proof fn lemma_rest_step(p: Player, dt: int)
    requires
        wf(p),
        p.speed == (Vec2 { x: 0i64, y: 0i64 }),
        p.acc == (Vec2 { x: 0i64, y: 0i64 }),
        0 <= dt,
    ensures
        p.stepped(dt, None) == p,
{
    assert(0 * dt == 0) by (nonlinear_arith) {}
    assert(0 * dt * dt == 0) by (nonlinear_arith) {}
    assert(div_trunc(0, 10) == 0);
    assert(div_trunc(0, 2) == 0);
}

/// The rest state is idempotent: any number of impulse-free ticks leaves a
/// resting body unchanged.
pub proof fn lemma_rest_state(p: Player, n: nat)
    requires
        wf(p),
        p.speed == (Vec2 { x: 0i64, y: 0i64 }),
        p.acc == (Vec2 { x: 0i64, y: 0i64 }),
    ensures
        coasted(p, n) == p,
    decreases n,
{
    if n > 0 {
        lemma_rest_state(p, (n - 1) as nat);
        assert(Player { acc: Vec2 { x: 0i64, y: 0i64 }, ..p } == p);
        lemma_rest_step(p, FRAME_MILLIS as int);
    }
}

/// Shifting one coast step out of the iteration.
proof fn lemma_coasted_shift(p: Player, n: nat)
    ensures
        coasted(coast_step(p), n) == coasted(p, n + 1),
    decreases n,
{
    let q = coast_step(p);
    if n == 0 {
        assert(coasted(q, 0) == q);
        assert(coasted(p, 0) == p);
        assert(coasted(p, 1) == coast_step(coasted(p, 0)));
    } else {
        lemma_coasted_shift(p, (n - 1) as nat);
        assert(coasted(q, n) == coast_step(coasted(q, (n - 1) as nat)));
        assert(coasted(p, n + 1) == coast_step(coasted(p, n)));
    }
}

/// Friction convergence: a body whose velocity lies on the x axis and that
/// receives no further impulse reaches exactly zero velocity within a
/// bounded number of ticks — the velocity may overshoot and change sign,
/// but never indefinitely — and from that tick on its state never changes
/// again.
pub proof fn lemma_friction_convergence(p: Player) -> (n: nat)
    requires
        wf(p),
        p.speed.y == 0,
    ensures
        1 <= n <= abs_i(p.speed.x as int) + 2,
        n <= MAX_SPEED + 2,
        coasted(p, n).speed == (Vec2 { x: 0i64, y: 0i64 }),
        coasted(p, n).acc == (Vec2 { x: 0i64, y: 0i64 }),
        wf(coasted(p, n)),
        coast_step(coasted(p, n)) == coasted(p, n),
    decreases abs_i(p.speed.x as int),
{
    let vx = p.speed.x as int;
    let t = div_trunc(vx, 10);
    let q1 = coast_step(p);
    assert(q1.speed.y == 0 && wf(q1));
    if -9 <= vx <= 9 {
        // the snap zone: friction is already truncated to nothing, the
        // snap rule zeroes the velocity, and no kick remains
        assert(t == 0);
        assert(vx * vx < SNAP_EPS_SQ && 0 * 0 < SNAP_EPS_SQ) by (nonlinear_arith)
            requires
                -9 <= vx <= 9,
                SNAP_EPS_SQ == 100,
        {}
        assert(0 * (FRAME_MILLIS as int) == 0) by (nonlinear_arith) {}
        assert(0 * (FRAME_MILLIS as int) * (FRAME_MILLIS as int) == 0) by (nonlinear_arith) {}
        assert(q1.speed == (Vec2 { x: 0i64, y: 0i64 }) && q1.acc == (Vec2 { x: 0i64, y: 0i64 }));
        assert(Player { acc: Vec2 { x: 0i64, y: 0i64 }, ..q1 } == q1);
        lemma_rest_step(q1, FRAME_MILLIS as int);
        assert(coasted(p, 0) == p);
        assert(coasted(p, 1) == coast_step(coasted(p, 0)));
        1
    } else {
        // outside the snap zone at least a tenth (truncated) of the
        // velocity leaves each tick, and the magnitude strictly shrinks
        assert(vx * vx >= SNAP_EPS_SQ) by (nonlinear_arith)
            requires
                vx <= -10 || vx >= 10,
                SNAP_EPS_SQ == 100,
        {}
        if vx >= 10 {
            vstd::arithmetic::div_mod::lemma_fundamental_div_mod(vx, 10);
            vstd::arithmetic::div_mod::lemma_mod_bound(vx, 10);
            assert(10 * t <= vx <= 10 * t + 9 && 1 <= t <= 300);
        } else {
            vstd::arithmetic::div_mod::lemma_fundamental_div_mod(-vx, 10);
            vstd::arithmetic::div_mod::lemma_mod_bound(-vx, 10);
            assert(10 * t - 9 <= vx <= 10 * t && -300 <= t <= -1);
        }
        assert(q1.acc.x == -t && q1.acc.y == 0);
        assert(q1.speed.x == vx - 16 * t);
        assert(abs_i(q1.speed.x as int) < abs_i(vx));
        let n1 = lemma_friction_convergence(q1);
        lemma_coasted_shift(p, n1);
        assert(coasted(p, n1 + 1) == coasted(q1, n1));
        n1 + 1
    }
}

/// The mirror of `lemma_friction_convergence` for a velocity on the y
/// axis.
pub proof fn lemma_friction_convergence_y(p: Player) -> (n: nat)
    requires
        wf(p),
        p.speed.x == 0,
    ensures
        1 <= n <= abs_i(p.speed.y as int) + 2,
        n <= MAX_SPEED + 2,
        coasted(p, n).speed == (Vec2 { x: 0i64, y: 0i64 }),
        coasted(p, n).acc == (Vec2 { x: 0i64, y: 0i64 }),
        wf(coasted(p, n)),
        coast_step(coasted(p, n)) == coasted(p, n),
    decreases abs_i(p.speed.y as int),
{
    let vy = p.speed.y as int;
    let t = div_trunc(vy, 10);
    let q1 = coast_step(p);
    assert(q1.speed.x == 0 && wf(q1));
    if -9 <= vy <= 9 {
        assert(t == 0);
        assert(vy * vy < SNAP_EPS_SQ && 0 * 0 < SNAP_EPS_SQ) by (nonlinear_arith)
            requires
                -9 <= vy <= 9,
                SNAP_EPS_SQ == 100,
        {}
        assert(0 * (FRAME_MILLIS as int) == 0) by (nonlinear_arith) {}
        assert(0 * (FRAME_MILLIS as int) * (FRAME_MILLIS as int) == 0) by (nonlinear_arith) {}
        assert(q1.speed == (Vec2 { x: 0i64, y: 0i64 }) && q1.acc == (Vec2 { x: 0i64, y: 0i64 }));
        assert(Player { acc: Vec2 { x: 0i64, y: 0i64 }, ..q1 } == q1);
        lemma_rest_step(q1, FRAME_MILLIS as int);
        assert(coasted(p, 0) == p);
        assert(coasted(p, 1) == coast_step(coasted(p, 0)));
        1
    } else {
        assert(vy * vy >= SNAP_EPS_SQ) by (nonlinear_arith)
            requires
                vy <= -10 || vy >= 10,
                SNAP_EPS_SQ == 100,
        {}
        if vy >= 10 {
            vstd::arithmetic::div_mod::lemma_fundamental_div_mod(vy, 10);
            vstd::arithmetic::div_mod::lemma_mod_bound(vy, 10);
            assert(10 * t <= vy <= 10 * t + 9 && 1 <= t <= 300);
        } else {
            vstd::arithmetic::div_mod::lemma_fundamental_div_mod(-vy, 10);
            vstd::arithmetic::div_mod::lemma_mod_bound(-vy, 10);
            assert(10 * t - 9 <= vy <= 10 * t && -300 <= t <= -1);
        }
        assert(q1.acc.y == -t && q1.acc.x == 0);
        assert(q1.speed.y == vy - 16 * t);
        assert(abs_i(q1.speed.y as int) < abs_i(vy));
        let n1 = lemma_friction_convergence_y(q1);
        lemma_coasted_shift(p, n1);
        assert(coasted(p, n1 + 1) == coasted(q1, n1));
        n1 + 1
    }
}

} // verus!
