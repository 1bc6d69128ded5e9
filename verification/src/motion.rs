//! The motion integrator: one steering step of an agent toward a target
//! point, under speed, turn-rate and acceleration limits, optionally gated
//! by facing (a boat cannot strafe). Every moving entity goes through this
//! one routine.
use vstd::prelude::*;

use crate::fx::abs_s;
use crate::fx::clamp_abs;
use crate::fx::clamp_abs_s;
use crate::fx::div_trunc_s;
use crate::fx::lemma_div_trunc_bound;
use crate::fx::lemma_div_trunc_props;
use crate::fx::norm_angle_s;
use crate::fx::normalize_angle;
use crate::fx::SCALE;
use crate::vec2::add_s;
use crate::vec2::arg_s;
use crate::vec2::clamp_len_s;
use crate::vec2::dot_s;
use crate::vec2::in_box_s;
use crate::vec2::len_s;
use crate::vec2::len_sqr_s;
use crate::vec2::normalize_s;
use crate::vec2::rotate_s;
use crate::vec2::sat_s;
use crate::vec2::scale_milli_s;
use crate::vec2::sub_s;
use crate::vec2::zero_s;
use crate::vec2::Vec2Fx;
use crate::vec2::V2;

verus! {

/// Positions are kept inside this componentwise box (ten thousand units).
pub const POS_BOX: i64 = 10_000_000;

/// Velocities are kept inside this componentwise box.
pub const VEL_BOX: i64 = 1_000_000;

/// Angular velocities are kept within this magnitude.
pub const W_BOX: i64 = 1_000_000;

/// Headings are kept within this magnitude between normalizations.
pub const ROT_BOX: i64 = 1_000_000_000;

/// Movement parameters never exceed this magnitude.
pub const PROP_LIMIT: i64 = 1_000_000;

/// A time step never exceeds this many milliseconds.
pub const DT_LIMIT: i64 = 10_000;

/// Below this squared distance the integrator holds its heading instead of
/// snapping toward the target (a tenth of a unit).
pub const DEADZONE_SQR: i64 = 10_000;

/// The kinematic state of one agent: position, velocity, heading and
/// angular velocity.
#[derive(Clone, Copy, PartialEq, Eq, Structural, Debug)]
pub struct Position {
    pub pos: Vec2Fx,
    pub vel: Vec2Fx,
    pub rot: i64,
    pub w: i64,
}

/// The mathematical value of a kinematic state.
pub struct PositionView {
    pub pos: V2,
    pub vel: V2,
    pub rot: int,
    pub w: int,
}

impl View for Position {
    type V = PositionView;

    open spec fn view(&self) -> PositionView {
        PositionView { pos: self.pos@, vel: self.vel@, rot: self.rot as int, w: self.w as int }
    }
}

/// A kinematic state inside the representable boxes.
pub open spec fn position_wf(p: PositionView) -> bool {
    &&& in_box_s(p.pos, POS_BOX as int)
    &&& in_box_s(p.vel, VEL_BOX as int)
    &&& abs_s(p.rot) <= ROT_BOX as int
    &&& abs_s(p.w) <= W_BOX as int
}

impl Position {
    /// An agent at rest at `pos` with heading `rot`.
    pub fn at(pos: Vec2Fx, rot: i64) -> (r: Position)
        requires
            in_box_s(pos@, POS_BOX as int),
            -ROT_BOX <= rot <= ROT_BOX,
        ensures
            r@.pos == pos@,
            r@.vel == zero_s(),
            r@.rot == rot as int,
            r@.w == 0,
            position_wf(r@),
    {
        Position { pos, vel: Vec2Fx::zero(), rot, w: 0 }
    }
}

/// The limits under which one agent steers.
#[derive(Clone, Copy, PartialEq, Eq, Structural, Debug)]
pub struct MovementProps {
    pub max_speed: i64,
    pub max_rotation_speed: i64,
    pub angular_acceleration: i64,
    pub acceleration: i64,
    pub water: bool,
}

/// The mathematical value of a parameter set.
pub struct PropsView {
    pub max_speed: int,
    pub max_rotation_speed: int,
    pub angular_acceleration: int,
    pub acceleration: int,
    pub water: bool,
}

impl View for MovementProps {
    type V = PropsView;

    open spec fn view(&self) -> PropsView {
        PropsView {
            max_speed: self.max_speed as int,
            max_rotation_speed: self.max_rotation_speed as int,
            angular_acceleration: self.angular_acceleration as int,
            acceleration: self.acceleration as int,
            water: self.water,
        }
    }
}

/// All limits non-negative and within range.
pub open spec fn props_wf(pr: PropsView) -> bool {
    &&& 0 <= pr.max_speed <= PROP_LIMIT as int
    &&& 0 <= pr.max_rotation_speed <= PROP_LIMIT as int
    &&& 0 <= pr.angular_acceleration <= PROP_LIMIT as int
    &&& 0 <= pr.acceleration <= PROP_LIMIT as int
}

/// The desired heading: the bearing to the target, unless the target is
/// within the deadzone, in which case the current heading is held.
pub open spec fn desired_heading_s(p: PositionView, target: V2) -> int {
    let d = sub_s(target, p.pos);
    if len_sqr_s(d) > DEADZONE_SQR as int {
        arg_s(d)
    } else {
        p.rot
    }
}

/// The desired velocity: the offset to the target clamped to the speed
/// limit and, on water, scaled by the forward component of the bearing so
/// that a boat can only accelerate along its heading.
pub open spec fn desired_velocity_s(p: PositionView, target: V2, pr: PropsView, rot1: int) -> V2 {
    let d = sub_s(target, p.pos);
    let tv = clamp_len_s(d, pr.max_speed);
    if pr.water {
        let fwd = rotate_s(V2 { x: SCALE as int, y: 0 }, rot1);
        let f = div_trunc_s(dot_s(normalize_s(d), fwd), SCALE as int);
        scale_milli_s(tv, if f > 0 {
            f
        } else {
            0
        })
    } else {
        tv
    }
}

/// One integrator step: angular velocity chases the heading error, heading
/// integrates it, velocity chases the desired velocity under the
/// acceleration limit, and position integrates velocity; every write is
/// clamped into its representable box.
pub open spec fn update_movement_s(
    p: PositionView,
    target: V2,
    pr: PropsView,
    dt: int,
) -> PositionView {
    let heading = desired_heading_s(p, target);
    let tw = clamp_abs_s(norm_angle_s(heading - p.rot) * 10, pr.max_rotation_speed);
    let aa = div_trunc_s(pr.angular_acceleration * dt, SCALE as int);
    let w1 = clamp_abs_s(p.w + clamp_abs_s(tw - p.w, aa), W_BOX as int);
    let rot1 = clamp_abs_s(p.rot + div_trunc_s(w1 * dt, SCALE as int), ROT_BOX as int);
    let tv = desired_velocity_s(p, target, pr, rot1);
    let lim = div_trunc_s(pr.acceleration * dt, SCALE as int);
    let vel1 = sat_s(add_s(p.vel, clamp_len_s(sub_s(tv, p.vel), lim)), VEL_BOX as int);
    let pos1 = sat_s(add_s(p.pos, scale_milli_s(vel1, dt)), POS_BOX as int);
    PositionView { pos: pos1, vel: vel1, rot: rot1, w: w1 }
}

/// Advance one agent one time step toward `target_pos`.
pub fn update_movement(
    pos: &mut Position,
    target_pos: Vec2Fx,
    props: MovementProps,
    delta_time: i64,
)
    requires
        position_wf(old(pos)@),
        in_box_s(target_pos@, POS_BOX as int),
        props_wf(props@),
        0 <= delta_time <= DT_LIMIT,
    ensures
        final(pos)@ == update_movement_s(old(pos)@, target_pos@, props@, delta_time as int),
        position_wf(final(pos)@),
{
    let d = target_pos.sub(pos.pos);
    let heading: i64 = if d.len_sqr() > DEADZONE_SQR {
        d.arg()
    } else {
        pos.rot
    };
    let err = normalize_angle(heading - pos.rot);
    let tw = clamp_abs(err * 10, props.max_rotation_speed);
    proof {
        assert(0 <= props@.angular_acceleration * delta_time <= (SCALE as int) * 10_000_000)
            by (nonlinear_arith)
            requires
                0 <= props@.angular_acceleration <= PROP_LIMIT as int,
                0 <= delta_time <= DT_LIMIT,
        ;
        lemma_div_trunc_props(props@.angular_acceleration * delta_time, SCALE as int);
        lemma_div_trunc_bound(props@.angular_acceleration * delta_time, SCALE as int, 10_000_000);
    }
    let aa = (props.angular_acceleration * delta_time) / SCALE;
    let w1 = clamp_abs(pos.w + clamp_abs(tw - pos.w, aa), W_BOX);
    proof {
        assert(-(SCALE as int) * 10_000_000_000 <= w1 as int * delta_time <= (SCALE as int)
            * 10_000_000_000 && abs_s(w1 as int * delta_time) <= (SCALE as int) * 10_000_000_000)
            by (nonlinear_arith)
            requires
                -W_BOX <= w1 <= W_BOX,
                0 <= delta_time <= DT_LIMIT,
        ;
        lemma_div_trunc_props(w1 as int * delta_time, SCALE as int);
        lemma_div_trunc_bound(w1 as int * delta_time, SCALE as int, 10_000_000_000);
    }
    let rot1 = clamp_abs(pos.rot + (w1 * delta_time) / SCALE, ROT_BOX);
    let tv0 = d.clamp_len(props.max_speed);
    let tv = if props.water {
        let fwd = Vec2Fx::new(SCALE, 0).rotate(rot1);
        let nd = d.normalize_or_zero();
        let dp = nd.dot(fwd);
        proof {
            lemma_dot_small(nd@, fwd@);
            lemma_div_trunc_props(dot_s(nd@, fwd@), SCALE as int);
            lemma_div_trunc_bound(dot_s(nd@, fwd@), SCALE as int, 4000);
        }
        let f = dp / SCALE;
        let fpos = if f > 0 {
            f
        } else {
            0
        };
        proof {
            crate::fx::lemma_mul_le(abs_s(tv0@.x), 2 * POS_BOX as int, abs_s(fpos as int));
            crate::fx::lemma_mul_le(abs_s(tv0@.y), 2 * POS_BOX as int, abs_s(fpos as int));
        }
        tv0.scale_milli(fpos)
    } else {
        tv0
    };
    proof {
        assert(0 <= props@.acceleration * delta_time <= (SCALE as int) * 10_000_000)
            by (nonlinear_arith)
            requires
                0 <= props@.acceleration <= PROP_LIMIT as int,
                0 <= delta_time <= DT_LIMIT,
        ;
        lemma_div_trunc_props(props@.acceleration * delta_time, SCALE as int);
        lemma_div_trunc_bound(props@.acceleration * delta_time, SCALE as int, 10_000_000);
    }
    let lim = (props.acceleration * delta_time) / SCALE;
    let vel1 = pos.vel.add(tv.sub(pos.vel).clamp_len(lim)).sat(VEL_BOX);
    proof {
        crate::fx::lemma_mul_le(abs_s(vel1@.x), VEL_BOX as int, abs_s(delta_time as int));
        crate::fx::lemma_mul_le(abs_s(vel1@.y), VEL_BOX as int, abs_s(delta_time as int));
    }
    let pos1 = pos.pos.add(vel1.scale_milli(delta_time)).sat(POS_BOX);
    pos.pos = pos1;
    pos.vel = vel1;
    pos.rot = rot1;
    pos.w = w1;
}

/// Damping one component toward zero never grows its magnitude.
proof fn lemma_damp_component(v: int, lim: int, l: int)
    requires
        0 <= lim <= l,
        1 <= l,
    ensures
        abs_s(v + div_trunc_s(-v * lim, l)) <= abs_s(v),
{
    let c = div_trunc_s(-v * lim, l);
    crate::fx::lemma_abs_mul(-v, lim);
    lemma_div_trunc_props(-v * lim, l);
    assert(abs_s(-v * lim) == abs_s(v) * lim);
    crate::fx::lemma_mul_le(lim, l, abs_s(v));
    assert(abs_s(v) * lim <= abs_s(v) * l) by (nonlinear_arith)
        requires
            lim * abs_s(v) <= l * abs_s(v),
    ;
    vstd::arithmetic::div_mod::lemma_div_is_ordered(abs_s(v) * lim, abs_s(v) * l, l);
    assert((abs_s(v) * l) / l == abs_s(v)) by {
        vstd::arithmetic::div_mod::lemma_div_multiples_vanish(abs_s(v), l);
        assert(abs_s(v) * l == l * abs_s(v)) by (nonlinear_arith);
    }
    assert(abs_s(c) <= abs_s(v));
    if v >= 0 {
        assert(-v * lim <= 0) by (nonlinear_arith)
            requires
                v >= 0 && lim >= 0,
        ;
    } else {
        assert(-v * lim >= 0) by (nonlinear_arith)
            requires
                v < 0 && lim >= 0,
        ;
    }
}

/// Steering toward one's own position exerts no force: from rest, the
/// integrator leaves position and velocity unchanged, and from any state
/// the velocity relaxes, never growing in length.
pub proof fn lemma_hold_position(p: PositionView, pr: PropsView, dt: int)
    requires
        position_wf(p),
        props_wf(pr),
        0 <= dt <= DT_LIMIT,
    ensures
        len_sqr_s(update_movement_s(p, p.pos, pr, dt).vel) <= len_sqr_s(p.vel),
        p.vel == zero_s() ==> update_movement_s(p, p.pos, pr, dt).pos == p.pos
            && update_movement_s(p, p.pos, pr, dt).vel == zero_s(),
{
    let q = update_movement_s(p, p.pos, pr, dt);
    let d = sub_s(p.pos, p.pos);
    assert(d == zero_s());
    assert(len_sqr_s(d) == 0);
    let tv0 = clamp_len_s(d, pr.max_speed);
    crate::fx::lemma_sqr_bounds(pr.max_speed, PROP_LIMIT as int);
    assert(tv0 == zero_s());
    let tv = desired_velocity_s(p, p.pos, pr, q.rot);
    assert(tv == zero_s()) by {
        if pr.water {
            assert(normalize_s(d) == zero_s());
            let fwd = rotate_s(V2 { x: SCALE as int, y: 0 }, q.rot);
            assert(dot_s(zero_s(), fwd) == 0) by (nonlinear_arith)
                requires
                    dot_s(zero_s(), fwd) == 0 * fwd.x + 0 * fwd.y,
            ;
            assert(scale_milli_s(zero_s(), 0) == zero_s());
        }
    }
    let lim = div_trunc_s(pr.acceleration * dt, SCALE as int);
    assert(0 <= pr.acceleration * dt) by (nonlinear_arith)
        requires
            0 <= pr.acceleration && 0 <= dt,
    ;
    lemma_div_trunc_props(pr.acceleration * dt, SCALE as int);
    let mv = sub_s(tv, p.vel);
    assert(mv == (V2 { x: -p.vel.x, y: -p.vel.y }));
    let c = clamp_len_s(mv, lim);
    let vel_raw = add_s(p.vel, c);
    crate::fx::lemma_sqr_bounds(lim, lim);
    if len_sqr_s(mv) > lim * lim {
        let l = len_s(mv);
        crate::fx::lemma_isqrt_s_is_isqrt(len_sqr_s(mv));
        assert(l >= 1 && lim <= l) by (nonlinear_arith)
            requires
                0 <= l,
                0 <= lim,
                (l as int) * (l as int) <= len_sqr_s(mv) < (l + 1) * (l + 1),
                lim * lim < len_sqr_s(mv),
        ;
        assert(mv.x * lim == -p.vel.x * lim && mv.y * lim == -p.vel.y * lim);
        lemma_damp_component(p.vel.x, lim, l);
        lemma_damp_component(p.vel.y, lim, l);
        assert(abs_s(vel_raw.x) <= abs_s(p.vel.x));
        assert(abs_s(vel_raw.y) <= abs_s(p.vel.y));
    } else {
        assert(c == mv);
        assert(vel_raw == zero_s());
    }
    assert(abs_s(vel_raw.x) <= abs_s(p.vel.x) && abs_s(vel_raw.y) <= abs_s(p.vel.y));
    assert(q.vel == sat_s(vel_raw, VEL_BOX as int));
    assert(q.vel == vel_raw);
    assert(len_sqr_s(q.vel) <= len_sqr_s(p.vel)) by (nonlinear_arith)
        requires
            abs_s(q.vel.x) <= abs_s(p.vel.x),
            abs_s(q.vel.y) <= abs_s(p.vel.y),
            abs_s(q.vel.x) == (if q.vel.x < 0 {
                -q.vel.x
            } else {
                q.vel.x
            }),
            abs_s(q.vel.y) == (if q.vel.y < 0 {
                -q.vel.y
            } else {
                q.vel.y
            }),
            abs_s(p.vel.x) == (if p.vel.x < 0 {
                -p.vel.x
            } else {
                p.vel.x
            }),
            abs_s(p.vel.y) == (if p.vel.y < 0 {
                -p.vel.y
            } else {
                p.vel.y
            }),
            len_sqr_s(q.vel) == q.vel.x * q.vel.x + q.vel.y * q.vel.y,
            len_sqr_s(p.vel) == p.vel.x * p.vel.x + p.vel.y * p.vel.y,
    ;
    if p.vel == zero_s() {
        assert(q.vel == zero_s());
        assert(0 * dt == 0) by (nonlinear_arith);
        assert(scale_milli_s(q.vel, dt) == zero_s());
        assert(q.pos == sat_s(add_s(p.pos, zero_s()), POS_BOX as int));
        assert(add_s(p.pos, zero_s()) == p.pos);
        assert(q.pos == p.pos);
    }
}

/// The dot product of a normalized vector and a rotated unit vector is
/// small.
proof fn lemma_dot_small(a: V2, b: V2)
    requires
        in_box_s(a, SCALE as int),
        in_box_s(b, 2 * SCALE as int),
    ensures
        abs_s(dot_s(a, b)) <= 4000 * (SCALE as int),
{
    crate::fx::lemma_abs_mul(a.x, b.x);
    crate::fx::lemma_abs_mul(a.y, b.y);
    crate::fx::lemma_mul_le(abs_s(a.x), SCALE as int, abs_s(b.x));
    crate::fx::lemma_mul_le(abs_s(b.x), 2 * SCALE as int, SCALE as int);
    crate::fx::lemma_mul_le(abs_s(a.y), SCALE as int, abs_s(b.y));
    crate::fx::lemma_mul_le(abs_s(b.y), 2 * SCALE as int, SCALE as int);
    assert(abs_s(a.x) * abs_s(b.x) == abs_s(b.x) * abs_s(a.x) && abs_s(a.y) * abs_s(b.y) == abs_s(
        b.y,
    ) * abs_s(a.y) && (SCALE as int) * (2 * SCALE as int) == 2000 * (SCALE as int))
        by (nonlinear_arith);
}

} // verus!
