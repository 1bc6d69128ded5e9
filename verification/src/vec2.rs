//! Fixed-point 2D vectors, with their mathematical view over `int`.
use vstd::prelude::*;

use crate::fx::abs_s;
use crate::fx::atan2_s;
use crate::fx::clamp_abs_s;
use crate::fx::cos_milli_s;
use crate::fx::div_trunc_s;
use crate::fx::fx_atan2;
use crate::fx::fx_cos;
use crate::fx::fx_sin;
use crate::fx::is_isqrt;
use crate::fx::isqrt;
use crate::fx::isqrt_s;
use crate::fx::lemma_abs_mul;
use crate::fx::lemma_component_le_len;
use crate::fx::lemma_div_trunc_bound;
use crate::fx::lemma_div_trunc_props;
use crate::fx::lemma_isqrt_agrees;
use crate::fx::lemma_len_root_bound;
use crate::fx::lemma_mul_le;
use crate::fx::lemma_sqr_bounds;
use crate::fx::sin_milli_s;
use crate::fx::ANGLE_LIMIT;
use crate::fx::COORD_LIMIT;
use crate::fx::SCALE;

verus! {

/// The mathematical value of a fixed-point vector.
pub struct V2 {
    pub x: int,
    pub y: int,
}

/// Vector sum.
pub open spec fn add_s(a: V2, b: V2) -> V2 {
    V2 { x: a.x + b.x, y: a.y + b.y }
}

/// Vector difference.
pub open spec fn sub_s(a: V2, b: V2) -> V2 {
    V2 { x: a.x - b.x, y: a.y - b.y }
}

/// Dot product.
pub open spec fn dot_s(a: V2, b: V2) -> int {
    a.x * b.x + a.y * b.y
}

/// Squared length.
pub open spec fn len_sqr_s(a: V2) -> int {
    a.x * a.x + a.y * a.y
}

/// Length: the integer square root of the squared length.
pub open spec fn len_s(a: V2) -> int {
    isqrt_s(len_sqr_s(a))
}

/// Both components within `m` in magnitude.
pub open spec fn in_box_s(a: V2, m: int) -> bool {
    abs_s(a.x) <= m && abs_s(a.y) <= m
}

/// Componentwise clamp into a square box.
pub open spec fn sat_s(a: V2, m: int) -> V2 {
    V2 { x: clamp_abs_s(a.x, m), y: clamp_abs_s(a.y, m) }
}

/// The zero vector.
pub open spec fn zero_s() -> V2 {
    V2 { x: 0, y: 0 }
}

/// Scaling a vector by a milli-unit factor, truncating.
pub open spec fn scale_milli_s(a: V2, k: int) -> V2 {
    V2 { x: div_trunc_s(a.x * k, SCALE as int), y: div_trunc_s(a.y * k, SCALE as int) }
}

/// Dividing both components by a plain integer, truncating.
pub open spec fn div_int_s(a: V2, n: int) -> V2 {
    V2 { x: div_trunc_s(a.x, n), y: div_trunc_s(a.y, n) }
}

/// The vector scaled down to length at most `m`, componentwise exact:
/// each component becomes `c * m / len` when the length exceeds `m`.
pub open spec fn clamp_len_s(a: V2, m: int) -> V2 {
    if len_sqr_s(a) > m * m {
        let l = len_s(a);
        V2 { x: div_trunc_s(a.x * m, l), y: div_trunc_s(a.y * m, l) }
    } else {
        a
    }
}

/// The vector scaled to length (about) one unit, or zero if it is zero.
pub open spec fn normalize_s(a: V2) -> V2 {
    if a.x == 0 && a.y == 0 {
        zero_s()
    } else {
        let l = len_s(a);
        V2 { x: div_trunc_s(a.x * (SCALE as int), l), y: div_trunc_s(a.y * (SCALE as int), l) }
    }
}

/// Rotation by an angle in milli-radians.
pub open spec fn rotate_s(a: V2, ang: int) -> V2 {
    let c = cos_milli_s(ang);
    let s = sin_milli_s(ang);
    V2 {
        x: div_trunc_s(a.x * c - a.y * s, SCALE as int),
        y: div_trunc_s(a.x * s + a.y * c, SCALE as int),
    }
}

/// The bearing of the vector, in milli-radians.
pub open spec fn arg_s(a: V2) -> int {
    atan2_s(a.y, a.x)
}

/// A fixed-point 2D vector: a component of `1000` is one world unit.
#[derive(Clone, Copy, PartialEq, Eq, Structural, Debug)]
pub struct Vec2Fx {
    pub x: i64,
    pub y: i64,
}

impl View for Vec2Fx {
    type V = V2;

    open spec fn view(&self) -> V2 {
        V2 { x: self.x as int, y: self.y as int }
    }
}

/// Both components within the working coordinate range.
pub open spec fn in_range(a: V2) -> bool {
    in_box_s(a, COORD_LIMIT as int)
}

impl Vec2Fx {
    /// The zero vector.
    pub fn zero() -> (r: Vec2Fx)
        ensures
            r@ == zero_s(),
    {
        Vec2Fx { x: 0, y: 0 }
    }

    /// Build from components.
    pub fn new(x: i64, y: i64) -> (r: Vec2Fx)
        ensures
            r@ == (V2 { x: x as int, y: y as int }),
    {
        Vec2Fx { x, y }
    }

    /// Vector sum.
    pub fn add(self, o: Vec2Fx) -> (r: Vec2Fx)
        requires
            in_range(self@),
            in_range(o@),
        ensures
            r@ == add_s(self@, o@),
    {
        Vec2Fx { x: self.x + o.x, y: self.y + o.y }
    }

    /// Vector difference.
    pub fn sub(self, o: Vec2Fx) -> (r: Vec2Fx)
        requires
            in_range(self@),
            in_range(o@),
        ensures
            r@ == sub_s(self@, o@),
    {
        Vec2Fx { x: self.x - o.x, y: self.y - o.y }
    }

    /// Componentwise clamp into a square box.
    pub fn sat(self, m: i64) -> (r: Vec2Fx)
        requires
            0 <= m,
        ensures
            r@ == sat_s(self@, m as int),
            in_box_s(r@, m as int),
    {
        let x = if self.x > m {
            m
        } else if self.x < -m {
            -m
        } else {
            self.x
        };
        let y = if self.y > m {
            m
        } else if self.y < -m {
            -m
        } else {
            self.y
        };
        Vec2Fx { x, y }
    }

    /// Dot product.
    pub fn dot(self, o: Vec2Fx) -> (r: i64)
        requires
            in_range(self@),
            in_range(o@),
        ensures
            r == dot_s(self@, o@),
    {
        proof {
            lemma_abs_mul(self@.x, o@.x);
            lemma_abs_mul(self@.y, o@.y);
            lemma_mul_le(abs_s(self@.x), COORD_LIMIT as int, abs_s(o@.x));
            lemma_mul_le(COORD_LIMIT as int, COORD_LIMIT as int, abs_s(o@.x));
            lemma_mul_le(abs_s(self@.y), COORD_LIMIT as int, abs_s(o@.y));
            lemma_mul_le(COORD_LIMIT as int, COORD_LIMIT as int, abs_s(o@.y));
        }
        self.x * o.x + self.y * o.y
    }

    /// Squared length.
    pub fn len_sqr(self) -> (r: i64)
        requires
            in_range(self@),
        ensures
            r == len_sqr_s(self@),
            r >= 0,
    {
        proof {
            lemma_sqr_bounds(self@.x, COORD_LIMIT as int);
            lemma_sqr_bounds(self@.y, COORD_LIMIT as int);
        }
        self.x * self.x + self.y * self.y
    }

    /// Length.
    pub fn len(self) -> (r: i64)
        requires
            in_range(self@),
        ensures
            r == len_s(self@),
            is_isqrt(len_sqr_s(self@), r as int),
            0 <= r <= 2 * COORD_LIMIT,
            abs_s(self@.x) <= r && abs_s(self@.y) <= r,
    {
        let sq = self.len_sqr();
        let r = isqrt(sq as u64);
        proof {
            lemma_isqrt_agrees(sq as int, r as int);
            lemma_component_le_len(self@.x, self@.y, r as int);
            lemma_len_root_bound(self@.x, self@.y, r as int, COORD_LIMIT as int);
        }
        r as i64
    }

    /// The vector scaled down to length at most `m`.
    pub fn clamp_len(self, m: i64) -> (r: Vec2Fx)
        requires
            in_range(self@),
            0 <= m <= COORD_LIMIT,
        ensures
            r@ == clamp_len_s(self@, m as int),
            len_sqr_s(self@) > (m as int) * (m as int) ==> in_box_s(r@, m as int),
            len_sqr_s(self@) <= (m as int) * (m as int) ==> r@ == self@,
    {
        let sq = self.len_sqr();
        proof {
            lemma_sqr_bounds(m as int, COORD_LIMIT as int);
        }
        if sq > m * m {
            let l = self.len();
            proof {
                lemma_sqr_bounds(m as int, m as int);
                assert(l as int >= 1) by (nonlinear_arith)
                    requires
                        0 <= l as int,
                        len_sqr_s(self@) < (l as int + 1) * (l as int + 1),
                        len_sqr_s(self@) > (m as int) * (m as int),
                        0 <= (m as int) * (m as int),
                ;
                lemma_abs_mul(self@.x, m as int);
                lemma_abs_mul(self@.y, m as int);
                lemma_mul_le(abs_s(self@.x), l as int, m as int);
                lemma_mul_le(abs_s(self@.y), l as int, m as int);
                lemma_mul_le(abs_s(self@.x), COORD_LIMIT as int, m as int);
                lemma_mul_le(abs_s(self@.y), COORD_LIMIT as int, m as int);
                lemma_mul_le(m as int, COORD_LIMIT as int, COORD_LIMIT as int);
                lemma_div_trunc_bound(self@.x * m as int, l as int, m as int);
                lemma_div_trunc_bound(self@.y * m as int, l as int, m as int);
            }
            Vec2Fx { x: (self.x * m) / l, y: (self.y * m) / l }
        } else {
            self
        }
    }

    /// The vector scaled to length (about) one unit, or zero if zero.
    pub fn normalize_or_zero(self) -> (r: Vec2Fx)
        requires
            in_range(self@),
        ensures
            r@ == normalize_s(self@),
            in_box_s(r@, SCALE as int),
    {
        if self.x == 0 && self.y == 0 {
            Vec2Fx { x: 0, y: 0 }
        } else {
            let l = self.len();
            proof {
                lemma_sqr_bounds(self@.x, COORD_LIMIT as int);
                lemma_sqr_bounds(self@.y, COORD_LIMIT as int);
                assert(len_sqr_s(self@) >= 1) by (nonlinear_arith)
                    requires
                        len_sqr_s(self@) == self@.x * self@.x + self@.y * self@.y,
                        !(self@.x == 0 && self@.y == 0),
                ;
                assert(l >= 1);
                lemma_abs_mul(self@.x, SCALE as int);
                lemma_abs_mul(self@.y, SCALE as int);
                lemma_mul_le(abs_s(self@.x), l as int, SCALE as int);
                lemma_mul_le(abs_s(self@.y), l as int, SCALE as int);
                lemma_div_trunc_bound(self@.x * (SCALE as int), l as int, SCALE as int);
                lemma_div_trunc_bound(self@.y * (SCALE as int), l as int, SCALE as int);
            }
            Vec2Fx { x: (self.x * SCALE) / l, y: (self.y * SCALE) / l }
        }
    }

    /// Scale by a milli-unit factor (`k == 1000` is the identity up to
    /// truncation).
    pub fn scale_milli(self, k: i64) -> (r: Vec2Fx)
        requires
            abs_s(self@.x) * abs_s(k as int) <= 4_000_000_000_000_000_000,
            abs_s(self@.y) * abs_s(k as int) <= 4_000_000_000_000_000_000,
        ensures
            r@ == scale_milli_s(self@, k as int),
            abs_s(r@.x) * (SCALE as int) <= abs_s(self@.x) * abs_s(k as int),
            abs_s(r@.y) * (SCALE as int) <= abs_s(self@.y) * abs_s(k as int),
    {
        proof {
            lemma_abs_mul(self@.x, k as int);
            lemma_abs_mul(self@.y, k as int);
            lemma_scale_abs(self@.x, k as int);
            lemma_scale_abs(self@.y, k as int);
        }
        Vec2Fx { x: (self.x * k) / SCALE, y: (self.y * k) / SCALE }
    }

    /// Divide both components by a positive integer.
    pub fn div_int(self, n: i64) -> (r: Vec2Fx)
        requires
            in_range(self@),
            n > 0,
        ensures
            r@ == div_int_s(self@, n as int),
            abs_s(r@.x) <= abs_s(self@.x) && abs_s(r@.y) <= abs_s(self@.y),
    {
        proof {
            lemma_div_trunc_props(self@.x, n as int);
            lemma_div_trunc_props(self@.y, n as int);
            vstd::arithmetic::div_mod::lemma_div_nonincreasing(abs_s(self@.x), n as int);
            vstd::arithmetic::div_mod::lemma_div_nonincreasing(abs_s(self@.y), n as int);
        }
        Vec2Fx { x: self.x / n, y: self.y / n }
    }

    /// Rotate by an angle in milli-radians.
    pub fn rotate(self, ang: i64) -> (r: Vec2Fx)
        requires
            in_range(self@),
            -ANGLE_LIMIT + 2000 <= ang <= ANGLE_LIMIT - 2000,
        ensures
            r@ == rotate_s(self@, ang as int),
            abs_s(r@.x) <= abs_s(self@.x) + abs_s(self@.y),
            abs_s(r@.y) <= abs_s(self@.x) + abs_s(self@.y),
    {
        let c = fx_cos(ang);
        let s = fx_sin(ang);
        proof {
            lemma_abs_mul(self@.x, c as int);
            lemma_abs_mul(self@.y, s as int);
            lemma_abs_mul(self@.x, s as int);
            lemma_abs_mul(self@.y, c as int);
            lemma_mul_le(abs_s(self@.x), COORD_LIMIT as int, abs_s(c as int));
            lemma_mul_le(COORD_LIMIT as int, COORD_LIMIT as int, abs_s(c as int));
            lemma_mul_le(abs_s(self@.y), COORD_LIMIT as int, abs_s(s as int));
            lemma_mul_le(COORD_LIMIT as int, COORD_LIMIT as int, abs_s(s as int));
            lemma_mul_le(abs_s(self@.x), COORD_LIMIT as int, abs_s(s as int));
            lemma_mul_le(abs_s(self@.y), COORD_LIMIT as int, abs_s(c as int));
            lemma_mul_le(abs_s(c as int), 1000, abs_s(self@.x));
            lemma_mul_le(abs_s(s as int), 1000, abs_s(self@.y));
            lemma_mul_le(abs_s(s as int), 1000, abs_s(self@.x));
            lemma_mul_le(abs_s(c as int), 1000, abs_s(self@.y));
            assert(abs_s(self@.x * c as int) == abs_s(c as int) * abs_s(self@.x)
                && abs_s(self@.y * s as int) == abs_s(s as int) * abs_s(self@.y)
                && abs_s(self@.x * s as int) == abs_s(s as int) * abs_s(self@.x)
                && abs_s(self@.y * c as int) == abs_s(c as int) * abs_s(self@.y))
                by (nonlinear_arith)
                requires
                    abs_s(self@.x * c as int) == abs_s(self@.x) * abs_s(c as int),
                    abs_s(self@.y * s as int) == abs_s(self@.y) * abs_s(s as int),
                    abs_s(self@.x * s as int) == abs_s(self@.x) * abs_s(s as int),
                    abs_s(self@.y * c as int) == abs_s(self@.y) * abs_s(c as int),
            ;
            lemma_div_trunc_bound(
                self@.x * c as int - self@.y * s as int,
                SCALE as int,
                abs_s(self@.x) + abs_s(self@.y),
            );
            lemma_div_trunc_bound(
                self@.x * s as int + self@.y * c as int,
                SCALE as int,
                abs_s(self@.x) + abs_s(self@.y),
            );
        }
        Vec2Fx { x: (self.x * c - self.y * s) / SCALE, y: (self.x * s + self.y * c) / SCALE }
    }

    /// The bearing of the vector, in milli-radians.
    pub fn arg(self) -> (r: i64)
        requires
            in_range(self@),
        ensures
            r == arg_s(self@),
            -crate::fx::PI_MILLI <= r <= crate::fx::PI_MILLI,
    {
        fx_atan2(self.y, self.x)
    }
}

/// A vector whose squared length is at most `m * m` lies in the `m` box.
pub proof fn lemma_box_from_sqr(a: V2, m: int)
    requires
        len_sqr_s(a) <= m * m,
        0 <= m,
    ensures
        in_box_s(a, m),
{
    assert(abs_s(a.x) <= m && abs_s(a.y) <= m) by (nonlinear_arith)
        requires
            a.x * a.x + a.y * a.y <= m * m,
            0 <= m,
            abs_s(a.x) == (if a.x < 0 {
                -a.x
            } else {
                a.x
            }),
            abs_s(a.y) == (if a.y < 0 {
                -a.y
            } else {
                a.y
            }),
    ;
}

proof fn lemma_scale_abs(x: int, k: int)
    ensures
        abs_s(div_trunc_s(x * k, SCALE as int)) * (SCALE as int) <= abs_s(x) * abs_s(k),
{
    lemma_div_trunc_props(x * k, SCALE as int);
    lemma_abs_mul(x, k);
    vstd::arithmetic::div_mod::lemma_fundamental_div_mod(abs_s(x * k), SCALE as int);
    vstd::arithmetic::div_mod::lemma_mod_bound(abs_s(x * k), SCALE as int);
    assert((abs_s(x * k) / (SCALE as int)) * (SCALE as int) == (SCALE as int) * (abs_s(x * k) / (
    SCALE as int)) && abs_s(x) * abs_s(k) == abs_s(x * k)) by (nonlinear_arith)
        requires
            abs_s(x * k) == abs_s(x) * abs_s(k),
    ;
}

} // verus!
