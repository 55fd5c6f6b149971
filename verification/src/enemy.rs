//! A pursuer: a kinematic body plus a collision radius and a steering gain.
//! It steers toward a target outside the dead-zone, integrates like any
//! body, and is pushed out of other pursuers' circles once per tick.

use vstd::prelude::*;
use crate::geom::{in_range, v2, Vec2};
use crate::intmath::{abs_i, clamp_i64, clamp_spec, div_trunc, div_trunc_i64, isqrt_u64,
    lemma_div_trunc_exact, lemma_div_trunc_le, lemma_sqrt_of_square, sqrt_floor};
use crate::player::{wf, Player};
use crate::{DEADZONE_SQ, DT_LIMIT, ENEMY_SPEED, MAX_SPEED, RADIUS, SCALE, WORLD_LIMIT};

verus! {

/// A pursuer agent.
#[derive(Clone, Copy, PartialEq, Eq, Structural, Debug)]
pub struct Enemy {
    pub inner: Player,
    pub speed: i64,
    pub radius: i64,
}

/// Well-formedness: a well-formed body with the fixed radius and gain.
pub open spec fn ewf(e: Enemy) -> bool {
    &&& wf(e.inner)
    &&& e.speed == ENEMY_SPEED
    &&& e.radius == RADIUS
}

/// The position of a body after one pairwise push away from a neighbour at
/// `q`: nothing when the circles do not overlap; otherwise the separation
/// direction scaled to what the overlap lacks, with the literal `(1, 1)`
/// unit-ish fallback when the two are coincident.
pub open spec fn resolved_pos(p: Vec2, q: Vec2) -> Vec2 {
    let dx = p.x - q.x;
    let dy = p.y - q.y;
    let dist = sqrt_floor(dx * dx + dy * dy);
    if dist < 2 * RADIUS {
        if dx == 0 && dy == 0 {
            v2(
                clamp_spec(p.x + 2 * RADIUS, -WORLD_LIMIT as int, WORLD_LIMIT as int),
                clamp_spec(p.y + 2 * RADIUS, -WORLD_LIMIT as int, WORLD_LIMIT as int),
            )
        } else {
            v2(
                clamp_spec(
                    p.x + div_trunc(dx * (2 * RADIUS - dist), dist),
                    -WORLD_LIMIT as int,
                    WORLD_LIMIT as int,
                ),
                clamp_spec(
                    p.y + div_trunc(dy * (2 * RADIUS - dist), dist),
                    -WORLD_LIMIT as int,
                    WORLD_LIMIT as int,
                ),
            )
        }
    } else {
        p
    }
}

/// The position after pushing away from every neighbour in turn, in list
/// order.
pub open spec fn resolved_all(p: Vec2, others: Seq<Enemy>) -> Vec2
    decreases others.len(),
{
    if others.len() == 0 {
        p
    } else {
        resolved_all(resolved_pos(p, others[0].inner.pos), others.skip(1))
    }
}

/// Unfolding `resolved_all` at the back of the list.
pub proof fn lemma_resolved_all_push(p: Vec2, others: Seq<Enemy>, e: Enemy)
    ensures
        resolved_all(p, others.push(e)) == resolved_pos(resolved_all(p, others), e.inner.pos),
    decreases others.len(),
{
    let s = others.push(e);
    if others.len() == 0 {
        let q = resolved_pos(p, e.inner.pos);
        assert(s[0] == e);
        assert(s.skip(1) =~= Seq::<Enemy>::empty());
        assert(resolved_all(p, s) == resolved_all(q, s.skip(1)));
        assert(resolved_all(q, Seq::<Enemy>::empty()) == q);
        assert(resolved_all(p, others) == p);
    } else {
        let q = resolved_pos(p, others[0].inner.pos);
        assert(s[0] == others[0]);
        assert(s.skip(1) =~= others.skip(1).push(e));
        assert(resolved_all(p, s) == resolved_all(q, s.skip(1)));
        lemma_resolved_all_push(q, others.skip(1), e);
        assert(resolved_all(p, others) == resolved_all(q, others.skip(1)));
    }
}

/// Degenerate overlap: a pursuer coincident with its neighbour is moved by
/// exactly the combined extent along each axis — the literal `(1, 1)`
/// fallback direction, deliberately not a unit vector.
pub proof fn lemma_degenerate_overlap(p: Vec2)
    requires
        in_range(p, WORLD_LIMIT - 2 * RADIUS),
    ensures
        resolved_pos(p, p) == v2(p.x + 2 * RADIUS, p.y + 2 * RADIUS),
{
    crate::intmath::lemma_sqrt_floor_zero();
}

/// Overlap resolution on one axis: for two overlapping pursuers on a
/// horizontal line, one resolution step strictly increases their
/// separation, to exactly the combined extent of the two circles.
pub proof fn lemma_axis_overlap(p: Vec2, q: Vec2)
    requires
        p.y == q.y,
        p.x != q.x,
        -2 * RADIUS < p.x - q.x < 2 * RADIUS,
        in_range(p, WORLD_LIMIT - 2 * RADIUS),
        in_range(q, WORLD_LIMIT as int),
    ensures
        resolved_pos(p, q).y == p.y,
        abs_i(resolved_pos(p, q).x - q.x) == 2 * RADIUS,
        abs_i(resolved_pos(p, q).x - q.x) > abs_i(p.x - q.x),
{
    let dx: int = p.x - q.x;
    let d = abs_i(dx);
    assert(dx * dx == d * d) by (nonlinear_arith)
        requires
            d == abs_i(dx),
    {}
    lemma_sqrt_of_square(d);
    assert(0 * (2 * RADIUS - d) == 0);
    assert(div_trunc(0, d) == 0) by {
        lemma_div_trunc_exact(0, d);
        assert(0 * d == 0);
    }
    if dx > 0 {
        assert(dx * (2 * RADIUS - d) == (2 * RADIUS - d) * d) by (nonlinear_arith)
            requires
                dx == d,
        {}
        lemma_div_trunc_exact(2 * RADIUS - d, d);
    } else {
        assert(dx * (2 * RADIUS - d) == (-(2 * RADIUS - d)) * d) by (nonlinear_arith)
            requires
                dx == -d,
        {}
        lemma_div_trunc_exact(-(2 * RADIUS - d), d);
    }
}

impl Enemy {
    /// The result of one steering call: unchanged inside the dead-zone;
    /// otherwise the facing becomes the offset to the target and the
    /// impulse the unit direction scaled by the gain.
    pub open spec fn steered(self, target: Vec2) -> Enemy {
        let dx = target.x - self.inner.pos.x;
        let dy = target.y - self.inner.pos.y;
        if dx * dx + dy * dy < DEADZONE_SQ {
            self
        } else {
            let dist = sqrt_floor(dx * dx + dy * dy);
            let ux = div_trunc(dx * SCALE, dist);
            let uy = div_trunc(dy * SCALE, dist);
            let rawx = div_trunc(ux * self.speed, SCALE as int);
            let rawy = div_trunc(uy * self.speed, SCALE as int);
            Enemy {
                inner: Player {
                    pos: self.inner.pos,
                    dir: v2(dx, dy),
                    speed: self.inner.speed,
                    acc: v2(
                        div_trunc(rawx, crate::ACC_DIVISOR as int),
                        div_trunc(rawy, crate::ACC_DIVISOR as int),
                    ),
                },
                speed: self.speed,
                radius: self.radius,
            }
        }
    }

    /// A fresh pursuer at rest at `pos`.
    pub fn new(pos: Vec2) -> (e: Enemy)
        requires
            in_range(pos, WORLD_LIMIT as int),
        ensures
            e.inner.pos == pos,
            e.inner.speed == (Vec2 { x: 0i64, y: 0i64 }),
            e.inner.acc == (Vec2 { x: 0i64, y: 0i64 }),
            e.inner.dir == (Vec2 { x: SCALE, y: 0i64 }),
            ewf(e),
    {
        let mut inner = Player::new();
        inner.pos = pos;
        Enemy { inner, speed: ENEMY_SPEED, radius: RADIUS }
    }

    /// Steer toward `pos`: inside the squared-distance dead-zone nothing
    /// changes at all; outside it the pursuer faces the target and stores
    /// an impulse of gain length toward it.
    pub fn move_to(&mut self, pos: &Vec2)
        requires
            ewf(*old(self)),
            in_range(*pos, WORLD_LIMIT as int),
        ensures
            *final(self) == old(self).steered(*pos),
            (pos.x - old(self).inner.pos.x) * (pos.x - old(self).inner.pos.x) + (pos.y - old(
                self,
            ).inner.pos.y) * (pos.y - old(self).inner.pos.y) < DEADZONE_SQ ==> *final(self) == *old(
                self,
            ),
            ewf(*final(self)),
    {
        let diff = Vec2 { x: pos.x - self.inner.pos.x, y: pos.y - self.inner.pos.y };
        let d2 = diff.mag_sq();
        if d2 < DEADZONE_SQ {
            return ;
        }
        let dist_u = isqrt_u64(d2 as u64);
        proof {
            assert(dist_u >= 1 && dist_u < 0x1_0000_0000u64) by (nonlinear_arith)
                requires
                    (dist_u as int) * (dist_u as int) <= d2 as int,
                    (d2 as int) < ((dist_u as int) + 1) * ((dist_u as int) + 1),
                    d2 >= DEADZONE_SQ,
                    d2 <= 8_000_000_000_000_000_000i64,
            {}
        }
        let dist = dist_u as i64;
        proof {
            assert(-(dist as int) <= diff.x <= dist && -(dist as int) <= diff.y <= dist
                && -(dist as int) * SCALE <= diff.x * SCALE <= dist * SCALE && -(dist as int)
                * SCALE <= diff.y * SCALE <= dist * SCALE && -20_000_000_000_000 <= diff.x * SCALE
                <= 20_000_000_000_000 && -20_000_000_000_000 <= diff.y * SCALE
                <= 20_000_000_000_000) by (nonlinear_arith)
                requires
                    d2 == diff.x * diff.x + diff.y * diff.y,
                    dist * dist <= d2,
                    (d2 as int) < ((dist as int) + 1) * ((dist as int) + 1),
                    dist >= 1,
                    -2_000_000_000 <= diff.x <= 2_000_000_000,
                    -2_000_000_000 <= diff.y <= 2_000_000_000,
                    SCALE == 10_000,
            {}
            lemma_div_trunc_le(diff.x * SCALE, dist as int, SCALE as int);
            lemma_div_trunc_le(diff.y * SCALE, dist as int, SCALE as int);
        }
        let ux = div_trunc_i64(diff.x * SCALE, dist);
        let uy = div_trunc_i64(diff.y * SCALE, dist);
        self.inner.set_dir(*pos);
        proof {
            assert(-SCALE * ENEMY_SPEED <= ux * self.speed <= SCALE * ENEMY_SPEED && -SCALE
                * ENEMY_SPEED <= uy * self.speed <= SCALE * ENEMY_SPEED) by (nonlinear_arith)
                requires
                    -SCALE <= ux <= SCALE,
                    -SCALE <= uy <= SCALE,
                    self.speed == ENEMY_SPEED,
            {}
            lemma_div_trunc_le(ux * self.speed, SCALE as int, ENEMY_SPEED as int);
            lemma_div_trunc_le(uy * self.speed, SCALE as int, ENEMY_SPEED as int);
        }
        let raw = Vec2 {
            x: div_trunc_i64(ux * self.speed, SCALE),
            y: div_trunc_i64(uy * self.speed, SCALE),
        };
        self.inner.move_(raw);
    }

    /// One integration step; a pursuer never turns toward a face target
    /// here (steering already set its facing).
    pub fn update(&mut self, dt: i64)
        requires
            ewf(*old(self)),
            0 <= dt <= DT_LIMIT,
        ensures
            final(self).inner == old(self).inner.stepped(dt as int, None),
            -MAX_SPEED <= final(self).inner.speed.x <= MAX_SPEED,
            -MAX_SPEED <= final(self).inner.speed.y <= MAX_SPEED,
            final(self).speed == old(self).speed,
            final(self).radius == old(self).radius,
            ewf(*final(self)),
    {
        self.inner.update(dt, None);
    }

    /// Push this pursuer out of every listed neighbour's circle, in list
    /// order, each push against the neighbour's position as it stands in
    /// the list.
    pub fn check_collision(&mut self, others: &Vec<Enemy>)
        requires
            ewf(*old(self)),
            forall|k: int| 0 <= k < others@.len() ==> ewf(#[trigger] others@[k]),
        ensures
            final(self).inner.pos == resolved_all(old(self).inner.pos, others@),
            final(self).inner.dir == old(self).inner.dir,
            final(self).inner.speed == old(self).inner.speed,
            final(self).inner.acc == old(self).inner.acc,
            final(self).speed == old(self).speed,
            final(self).radius == old(self).radius,
            ewf(*final(self)),
    {
        let n = others.len();
        let mut i: usize = 0;
        while i < n
            invariant
                n == others@.len(),
                i <= n,
                forall|k: int| 0 <= k < others@.len() ==> ewf(#[trigger] others@[k]),
                self.inner.pos == resolved_all(old(self).inner.pos, others@.subrange(0, i as int)),
                self.inner.dir == old(self).inner.dir,
                self.inner.speed == old(self).inner.speed,
                self.inner.acc == old(self).inner.acc,
                self.speed == old(self).speed,
                self.radius == old(self).radius,
                ewf(*self),
            decreases n - i,
        {
            let other = &others[i];
            let delta = Vec2 {
                x: self.inner.pos.x - other.inner.pos.x,
                y: self.inner.pos.y - other.inner.pos.y,
            };
            let d2 = delta.mag_sq();
            let dist_u = isqrt_u64(d2 as u64);
            proof {
                assert(dist_u < 0x1_0000_0000u64) by (nonlinear_arith)
                    requires
                        (dist_u as int) * (dist_u as int) <= d2 as int,
                        d2 <= 8_000_000_000_000_000_000i64,
                {}
            }
            let dist = dist_u as i64;
            if dist < 2 * self.radius {
                if delta.x == 0 && delta.y == 0 {
                    proof {
                        crate::intmath::lemma_sqrt_floor_zero();
                    }
                    self.inner.pos = Vec2 {
                        x: clamp_i64(self.inner.pos.x + 2 * RADIUS, -WORLD_LIMIT, WORLD_LIMIT),
                        y: clamp_i64(self.inner.pos.y + 2 * RADIUS, -WORLD_LIMIT, WORLD_LIMIT),
                    };
                } else {
                    proof {
                        assert(dist >= 1 && -(dist as int) <= delta.x <= dist && -(dist as int)
                            <= delta.y <= dist && -(dist as int) * (2 * RADIUS) <= delta.x * (2
                            * self.radius - dist) <= dist * (2 * RADIUS) && -(dist as int) * (2
                            * RADIUS) <= delta.y * (2 * self.radius - dist) <= dist * (2 * RADIUS)
                            && -800_000_000_000_000 <= delta.x * (2 * self.radius - dist)
                            <= 800_000_000_000_000 && -800_000_000_000_000 <= delta.y * (2
                            * self.radius - dist) <= 800_000_000_000_000) by (nonlinear_arith)
                            requires
                                d2 == delta.x * delta.x + delta.y * delta.y,
                                dist * dist <= d2,
                                (d2 as int) < ((dist as int) + 1) * ((dist as int) + 1),
                                delta.x != 0 || delta.y != 0,
                                0 <= dist,
                                dist < 2 * RADIUS,
                                self.radius == RADIUS,
                                RADIUS == 200_000,
                                -2_000_000_000 <= delta.x <= 2_000_000_000,
                                -2_000_000_000 <= delta.y <= 2_000_000_000,
                        {}
                        lemma_div_trunc_le(
                            delta.x * (2 * self.radius - dist),
                            dist as int,
                            2 * RADIUS as int,
                        );
                        lemma_div_trunc_le(
                            delta.y * (2 * self.radius - dist),
                            dist as int,
                            2 * RADIUS as int,
                        );
                    }
                    let off_x = div_trunc_i64(delta.x * (2 * self.radius - dist), dist);
                    let off_y = div_trunc_i64(delta.y * (2 * self.radius - dist), dist);
                    self.inner.pos = Vec2 {
                        x: clamp_i64(self.inner.pos.x + off_x, -WORLD_LIMIT, WORLD_LIMIT),
                        y: clamp_i64(self.inner.pos.y + off_y, -WORLD_LIMIT, WORLD_LIMIT),
                    };
                }
            }
            proof {
                assert(others@.subrange(0, i + 1).drop_last() =~= others@.subrange(0, i as int));
                lemma_resolved_all_push(
                    old(self).inner.pos,
                    others@.subrange(0, i as int),
                    others@[i as int],
                );
                assert(others@.subrange(0, i + 1) =~= others@.subrange(0, i as int).push(
                    others@[i as int],
                ));
            }
            i += 1;
        }
        proof {
            assert(others@.subrange(0, n as int) =~= others@);
        }
    }
}

} // verus!
