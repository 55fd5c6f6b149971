//! The plane vector the simulation works in: two fixed-point coordinates.

use vstd::prelude::*;

verus! {

/// A 2D vector in fixed-point coordinates (`crate::SCALE` steps per world
/// unit).
#[derive(Clone, Copy, PartialEq, Eq, Structural, Debug)]
pub struct Vec2 {
    pub x: i64,
    pub y: i64,
}

/// Both coordinates of `v` lie in `[-b, b]`.
pub open spec fn in_range(v: Vec2, b: int) -> bool {
    -b <= v.x <= b && -b <= v.y <= b
}

/// Spec constructor from unbounded integers; exact whenever the values fit
/// in a coordinate.
pub open spec fn v2(x: int, y: int) -> Vec2 {
    Vec2 { x: x as i64, y: y as i64 }
}

impl Vec2 {
    /// Squared magnitude, exact.
    pub fn mag_sq(self) -> (r: i64)
        requires
            in_range(self, 2_000_000_000),
        ensures
            r == self.x * self.x + self.y * self.y,
            0 <= r <= 8_000_000_000_000_000_000,
    {
        proof {
            assert(0 <= self.x * self.x <= 4_000_000_000_000_000_000
                && 0 <= self.y * self.y <= 4_000_000_000_000_000_000) by (nonlinear_arith)
                requires
                    -2_000_000_000 <= self.x <= 2_000_000_000,
                    -2_000_000_000 <= self.y <= 2_000_000_000,
            {}
        }
        self.x * self.x + self.y * self.y
    }
}

} // verus!
