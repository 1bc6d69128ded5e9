//! Client-side reconstruction: a cubic Hermite curve per entity, rebuilt on
//! every authoritative sample so that the rendered position and velocity
//! stay continuous, and the new sample is met exactly at the end of the
//! blend window.
use vstd::prelude::*;

use crate::fx::abs_s;
use crate::fx::clamp_abs;
use crate::fx::clamp_abs_s;
use crate::fx::div_trunc_s;
use crate::fx::lemma_abs_mul;
use crate::fx::lemma_div_trunc_bound;
use crate::fx::lemma_mul_le;
use crate::fx::SCALE;
use crate::motion::Position;
use crate::vec2::Vec2Fx;

verus! {

/// The blend window, in milliseconds: one second of smoothing per sample.
pub const INTERPOLATION_TIME: i64 = 1000;

/// Stored curve coefficients stay inside this box.
pub const COEFF_BOX: i64 = 1_000_000_000_000;

/// Coefficient ranges under which a server update is exact (no coefficient
/// clamp can fire).
pub const INTERP_EXACT: i64 = 1_000_000_000;

/// One scalar Hermite curve `f(t) = a t^3 + b t^2 + c t + d` with a cursor
/// `t` in milli-units of the blend window.
#[derive(Clone, Copy, PartialEq, Eq, Structural, Debug)]
pub struct Interpolated {
    pub a: i64,
    pub b: i64,
    pub c: i64,
    pub d: i64,
    pub t: i64,
}

/// Coefficients and cursor inside their representable ranges.
pub open spec fn interp_wf(i: Interpolated) -> bool {
    &&& abs_s(i.a as int) <= COEFF_BOX as int
    &&& abs_s(i.b as int) <= COEFF_BOX as int
    &&& abs_s(i.c as int) <= COEFF_BOX as int
    &&& abs_s(i.d as int) <= COEFF_BOX as int
    &&& -1000 <= i.t <= 1000
}

/// The curve value at cursor `t`, by Horner steps with truncating
/// fixed-point division.
pub open spec fn eval_at_s(i: Interpolated, t: int) -> int {
    let h1 = div_trunc_s(i.a as int * t, SCALE as int) + i.b as int;
    let h2 = div_trunc_s(h1 * t, SCALE as int) + i.c as int;
    div_trunc_s(h2 * t, SCALE as int) + i.d as int
}

/// The curve derivative at cursor `t`, per second of real time.
pub open spec fn deriv_at_s(i: Interpolated, t: int) -> int {
    let g1 = div_trunc_s(3 * i.a as int * t, SCALE as int) + 2 * i.b as int;
    div_trunc_s(g1 * t, SCALE as int) + i.c as int
}

/// The curve value at the current cursor.
pub open spec fn eval_s(i: Interpolated) -> int {
    eval_at_s(i, i.t as int)
}

/// The curve derivative at the current cursor.
pub open spec fn deriv_s(i: Interpolated) -> int {
    deriv_at_s(i, i.t as int)
}

/// The curve after a new authoritative sample `(p2, v2)`: it starts (cursor
/// zero) at the currently rendered value and slope and ends (cursor one)
/// exactly on the sample; each stored coefficient is clamped into its box.
pub open spec fn server_update_s(i: Interpolated, p2: int, v2: int) -> Interpolated {
    let d = clamp_abs_s(eval_s(i), COEFF_BOX as int);
    let c = clamp_abs_s(deriv_s(i), COEFF_BOX as int);
    let b = clamp_abs_s(3 * p2 - 2 * c - 3 * d - v2, COEFF_BOX as int);
    let a = clamp_abs_s(p2 - b - c - d, COEFF_BOX as int);
    Interpolated { a: a as i64, b: b as i64, c: c as i64, d: d as i64, t: 0 }
}

/// Advancing the cursor by `dt` milliseconds, clamped to one window on
/// either side.
pub open spec fn cursor_after_s(t: int, dt: int) -> int {
    clamp_abs_s(t + dt, 1000)
}

proof fn lemma_horner_step(x: int, t: int, m: int)
    requires
        abs_s(x) <= m,
        -1000 <= t <= 1000,
        0 <= m,
    ensures
        abs_s(div_trunc_s(x * t, SCALE as int)) <= m,
        abs_s(x * t) <= m * 1000,
{
    lemma_abs_mul(x, t);
    lemma_mul_le(abs_s(x), m, abs_s(t));
    lemma_mul_le(abs_s(t), 1000, m);
    assert(m * abs_s(t) == abs_s(t) * m) by (nonlinear_arith);
    lemma_div_trunc_bound(x * t, SCALE as int, m);
}

/// The value of a curve with bounded coefficients is bounded.
proof fn lemma_eval_bounds(i: Interpolated, t: int, m: int)
    requires
        abs_s(i.a as int) <= m,
        abs_s(i.b as int) <= m,
        abs_s(i.c as int) <= m,
        abs_s(i.d as int) <= m,
        -1000 <= t <= 1000,
        0 <= m,
    ensures
        abs_s(eval_at_s(i, t)) <= 4 * m,
        abs_s(deriv_at_s(i, t)) <= 6 * m,
{
    lemma_horner_step(i.a as int, t, m);
    let h1 = div_trunc_s(i.a as int * t, SCALE as int) + i.b as int;
    lemma_horner_step(h1, t, 2 * m);
    let h2 = div_trunc_s(h1 * t, SCALE as int) + i.c as int;
    lemma_horner_step(h2, t, 3 * m);
    lemma_horner_step(3 * i.a as int, t, 3 * m);
    let g1 = div_trunc_s(3 * i.a as int * t, SCALE as int) + 2 * i.b as int;
    lemma_horner_step(g1, t, 5 * m);
}

impl Interpolated {
    /// A curve that sits at `p` with slope `v` from the start.
    pub fn new(p: i64, v: i64) -> (r: Interpolated)
        requires
            -COEFF_BOX <= p <= COEFF_BOX,
            -COEFF_BOX <= v <= COEFF_BOX,
        ensures
            r == (Interpolated { a: 0i64, b: 0i64, c: v, d: p, t: 0i64 }),
            interp_wf(r),
    {
        Interpolated { a: 0, b: 0, c: v, d: p, t: 0 }
    }

    /// The curve value at the current cursor.
    pub fn get(&self) -> (r: i64)
        requires
            interp_wf(*self),
        ensures
            r == eval_s(*self),
            abs_s(r as int) <= 4 * COEFF_BOX as int,
    {
        proof {
            lemma_eval_bounds(*self, self.t as int, COEFF_BOX as int);
            lemma_horner_step(self.a as int, self.t as int, COEFF_BOX as int);
            let h1 = div_trunc_s(self.a as int * self.t as int, SCALE as int) + self.b as int;
            lemma_horner_step(h1, self.t as int, 2 * COEFF_BOX as int);
        }
        let h1 = (self.a * self.t) / SCALE + self.b;
        let h2 = (h1 * self.t) / SCALE + self.c;
        (h2 * self.t) / SCALE + self.d
    }

    /// The curve derivative at the current cursor.
    pub fn get_derivative(&self) -> (r: i64)
        requires
            interp_wf(*self),
        ensures
            r == deriv_s(*self),
            abs_s(r as int) <= 6 * COEFF_BOX as int,
    {
        proof {
            lemma_eval_bounds(*self, self.t as int, COEFF_BOX as int);
            lemma_horner_step(3 * self.a as int, self.t as int, 3 * COEFF_BOX as int);
        }
        let g1 = (3 * self.a * self.t) / SCALE + 2 * self.b;
        (g1 * self.t) / SCALE + self.c
    }

    /// Reparameterize the curve from the currently rendered value and slope
    /// to a new authoritative sample.
    pub fn server_update(&mut self, p2: i64, v2: i64)
        requires
            interp_wf(*old(self)),
            -COEFF_BOX <= p2 <= COEFF_BOX,
            -COEFF_BOX <= v2 <= COEFF_BOX,
        ensures
            *final(self) == server_update_s(*old(self), p2 as int, v2 as int),
            interp_wf(*final(self)),
    {
        let p1 = self.get();
        let v1 = self.get_derivative();
        let d = clamp_abs(p1, COEFF_BOX);
        let c = clamp_abs(v1, COEFF_BOX);
        let b = clamp_abs(3 * p2 - 2 * c - 3 * d - v2, COEFF_BOX);
        let a = clamp_abs(p2 - b - c - d, COEFF_BOX);
        self.a = a;
        self.b = b;
        self.c = c;
        self.d = d;
        self.t = 0;
    }

    /// Advance the cursor by `dt` milliseconds of render time.
    pub fn update(&mut self, delta_time: i64)
        requires
            interp_wf(*old(self)),
            -1_000_000 <= delta_time <= 1_000_000,
        ensures
            *final(self) == (Interpolated {
                t: cursor_after_s(old(self).t as int, delta_time as int) as i64,
                ..*old(self)
            }),
            interp_wf(*final(self)),
    {
        self.t = clamp_abs(self.t + delta_time, 1000);
    }
}

/// Feeding a new sample into a curve keeps the rendered value and slope
/// continuous, and meets the sample exactly at the end of the window: at
/// cursor zero the updated curve returns the old curve's value and slope,
/// and at cursor one (a full window) it returns exactly `(p2, v2)` — as
/// long as all quantities are within the exact range.
pub proof fn lemma_server_update_round_trip(i: Interpolated, p2: int, v2: int)
    requires
        abs_s(i.a as int) <= INTERP_EXACT as int,
        abs_s(i.b as int) <= INTERP_EXACT as int,
        abs_s(i.c as int) <= INTERP_EXACT as int,
        abs_s(i.d as int) <= INTERP_EXACT as int,
        -1000 <= i.t <= 1000,
        abs_s(p2) <= INTERP_EXACT as int,
        abs_s(v2) <= INTERP_EXACT as int,
    ensures
        eval_at_s(server_update_s(i, p2, v2), 0) == eval_s(i),
        deriv_at_s(server_update_s(i, p2, v2), 0) == deriv_s(i),
        eval_at_s(server_update_s(i, p2, v2), 1000) == p2,
        deriv_at_s(server_update_s(i, p2, v2), 1000) == v2,
{
    lemma_eval_bounds(i, i.t as int, INTERP_EXACT as int);
    let u = server_update_s(i, p2, v2);
    let d = eval_s(i);
    let c = deriv_s(i);
    let b = 3 * p2 - 2 * c - 3 * d - v2;
    let a = p2 - b - c - d;
    assert(u.a as int == a && u.b as int == b && u.c as int == c && u.d as int == d);
    assert(eval_at_s(u, 0) == u.d as int) by {
        lemma_mul_zero(u.a as int);
        let h1 = div_trunc_s(u.a as int * 0, SCALE as int) + u.b as int;
        lemma_mul_zero(h1);
        let h2 = div_trunc_s(h1 * 0, SCALE as int) + u.c as int;
        lemma_mul_zero(h2);
    }
    assert(deriv_at_s(u, 0) == u.c as int) by {
        lemma_mul_zero(3 * u.a as int);
        let g1 = div_trunc_s(3 * u.a as int * 0, SCALE as int) + 2 * u.b as int;
        lemma_mul_zero(g1);
    }
    assert(eval_at_s(u, 1000) == u.a as int + u.b as int + u.c as int + u.d as int) by {
        lemma_div_milli_exact(u.a as int);
        let h1 = div_trunc_s(u.a as int * 1000, SCALE as int) + u.b as int;
        lemma_div_milli_exact(h1);
        let h2 = div_trunc_s(h1 * 1000, SCALE as int) + u.c as int;
        lemma_div_milli_exact(h2);
    }
    assert(deriv_at_s(u, 1000) == 3 * u.a as int + 2 * u.b as int + u.c as int) by {
        lemma_div_milli_exact(3 * u.a as int);
        let g1 = div_trunc_s(3 * u.a as int * 1000, SCALE as int) + 2 * u.b as int;
        lemma_div_milli_exact(g1);
    }
}

proof fn lemma_mul_zero(x: int)
    ensures
        x * 0 == 0,
        div_trunc_s(0, SCALE as int) == 0,
{
    assert(x * 0 == 0) by (nonlinear_arith);
}

proof fn lemma_div_milli_exact(x: int)
    ensures
        div_trunc_s(x * 1000, SCALE as int) == x,
{
    if x >= 0 {
        vstd::arithmetic::div_mod::lemma_div_multiples_vanish(x, 1000);
        assert(x * 1000 == 1000 * x) by (nonlinear_arith);
        assert(x * 1000 >= 0) by (nonlinear_arith)
            requires
                x >= 0,
        ;
    } else {
        vstd::arithmetic::div_mod::lemma_div_multiples_vanish(-x, 1000);
        assert(-(x * 1000) == 1000 * (-x)) by (nonlinear_arith);
        assert(x * 1000 < 0) by (nonlinear_arith)
            requires
                x < 0,
        ;
    }
}

/// The interpolated pose of one remote entity: a curve for each position
/// coordinate and one for the heading.
#[derive(Clone, Copy, PartialEq, Eq, Structural, Debug)]
pub struct InterpolatedPosition {
    pub pos_x: Interpolated,
    pub pos_y: Interpolated,
    pub rot: Interpolated,
}

/// All three curves well-formed.
pub open spec fn interp_pos_wf(i: InterpolatedPosition) -> bool {
    interp_wf(i.pos_x) && interp_wf(i.pos_y) && interp_wf(i.rot)
}

/// A fresh view: sitting still at the authoritative pose.
pub open spec fn fresh_view_s(pos: Position) -> InterpolatedPosition {
    InterpolatedPosition {
        pos_x: Interpolated { a: 0i64, b: 0i64, c: 0i64, d: pos.pos.x, t: 0i64 },
        pos_y: Interpolated { a: 0i64, b: 0i64, c: 0i64, d: pos.pos.y, t: 0i64 },
        rot: Interpolated { a: 0i64, b: 0i64, c: 0i64, d: pos.rot, t: 0i64 },
    }
}

/// A view after one authoritative sample.
pub open spec fn server_updated_s(i: InterpolatedPosition, pos: Position) -> InterpolatedPosition {
    InterpolatedPosition {
        pos_x: server_update_s(i.pos_x, pos.pos.x as int, pos.vel.x as int),
        pos_y: server_update_s(i.pos_y, pos.pos.y as int, pos.vel.y as int),
        rot: server_update_s(i.rot, pos.rot as int, 0),
    }
}

/// A view after one render frame.
pub open spec fn advanced_s(i: InterpolatedPosition, dt: int) -> InterpolatedPosition {
    InterpolatedPosition {
        pos_x: Interpolated { t: cursor_after_s(i.pos_x.t as int, dt) as i64, ..i.pos_x },
        pos_y: Interpolated { t: cursor_after_s(i.pos_y.t as int, dt) as i64, ..i.pos_y },
        rot: Interpolated { t: cursor_after_s(i.rot.t as int, dt) as i64, ..i.rot },
    }
}

impl InterpolatedPosition {
    /// Start rendering an entity at its authoritative pose, at rest.
    pub fn new(pos: &Position) -> (r: InterpolatedPosition)
        requires
            crate::motion::position_wf(pos@),
        ensures
            r.pos_x == (Interpolated { a: 0i64, b: 0i64, c: 0i64, d: pos.pos.x, t: 0i64 }),
            r.pos_y == (Interpolated { a: 0i64, b: 0i64, c: 0i64, d: pos.pos.y, t: 0i64 }),
            r.rot == (Interpolated { a: 0i64, b: 0i64, c: 0i64, d: pos.rot, t: 0i64 }),
            interp_pos_wf(r),
    {
        InterpolatedPosition {
            pos_x: Interpolated::new(pos.pos.x, 0),
            pos_y: Interpolated::new(pos.pos.y, 0),
            rot: Interpolated::new(pos.rot, 0),
        }
    }

    /// Feed a new authoritative sample into all three curves.
    pub fn server_update(&mut self, pos: &Position)
        requires
            interp_pos_wf(*old(self)),
            crate::motion::position_wf(pos@),
        ensures
            final(self).pos_x == server_update_s(old(self).pos_x, pos@.pos.x, pos@.vel.x),
            final(self).pos_y == server_update_s(old(self).pos_y, pos@.pos.y, pos@.vel.y),
            final(self).rot == server_update_s(old(self).rot, pos@.rot, 0),
            interp_pos_wf(*final(self)),
    {
        self.pos_x.server_update(pos.pos.x, pos.vel.x);
        self.pos_y.server_update(pos.pos.y, pos.vel.y);
        self.rot.server_update(pos.rot, 0);
    }

    /// Advance all three cursors by one render frame.
    pub fn update(&mut self, delta_time: i64)
        requires
            interp_pos_wf(*old(self)),
            -1_000_000 <= delta_time <= 1_000_000,
        ensures
            final(self).pos_x == (Interpolated {
                t: cursor_after_s(old(self).pos_x.t as int, delta_time as int) as i64,
                ..old(self).pos_x
            }),
            final(self).pos_y == (Interpolated {
                t: cursor_after_s(old(self).pos_y.t as int, delta_time as int) as i64,
                ..old(self).pos_y
            }),
            final(self).rot == (Interpolated {
                t: cursor_after_s(old(self).rot.t as int, delta_time as int) as i64,
                ..old(self).rot
            }),
            interp_pos_wf(*final(self)),
    {
        self.pos_x.update(delta_time);
        self.pos_y.update(delta_time);
        self.rot.update(delta_time);
    }

    /// The rendered pose: curve values for position and heading, curve
    /// slopes for velocity.
    pub fn get(&self) -> (r: Position)
        requires
            interp_pos_wf(*self),
        ensures
            r@.pos.x == eval_s(self.pos_x),
            r@.pos.y == eval_s(self.pos_y),
            r@.vel.x == deriv_s(self.pos_x),
            r@.vel.y == deriv_s(self.pos_y),
            r@.rot == clamp_abs_s(eval_s(self.rot), crate::motion::ROT_BOX as int),
            r@.w == 0,
    {
        Position {
            pos: Vec2Fx::new(self.pos_x.get(), self.pos_y.get()),
            vel: Vec2Fx::new(self.pos_x.get_derivative(), self.pos_y.get_derivative()),
            rot: clamp_abs(self.rot.get(), crate::motion::ROT_BOX),
            w: 0,
        }
    }
}

} // verus!
