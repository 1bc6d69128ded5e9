//! Fixed-point scalars. A value of `1000` stands for one world unit; angles
//! are in milli-radians with `PI_MILLI` standing for pi.
use vstd::prelude::*;

verus! {

/// Fixed-point scale: how many integer steps make one unit.
pub const SCALE: i64 = 1000;

/// Pi in milli-radians (rounded so that a right angle is exact).
pub const PI_MILLI: i64 = 3142;

/// A full turn in milli-radians.
pub const TWO_PI_MILLI: i64 = 6284;

/// A right angle in milli-radians.
pub const HALF_PI_MILLI: i64 = 1571;

/// Largest magnitude an angle may have before normalization.
pub const ANGLE_LIMIT: i64 = 1_000_000_000_000;

/// Coordinates, velocities and their intermediates stay within this bound,
/// which keeps every product taken here inside `i64`.
pub const COORD_LIMIT: i64 = 2_000_000_000;

/// The magnitude of `x`.
pub open spec fn abs_s(x: int) -> int {
    if x < 0 {
        -x
    } else {
        x
    }
}

/// Truncating division, the value Rust's `/` takes on signed integers:
/// this is the semantics of every fixed-point quotient in the library.
pub open spec fn div_trunc_s(a: int, b: int) -> int {
    if a >= 0 {
        a / b
    } else {
        -((-a) / b)
    }
}

/// Clamping `x` into `[-m, m]`.
pub open spec fn clamp_abs_s(x: int, m: int) -> int {
    if x > m {
        m
    } else if x < -m {
        -m
    } else {
        x
    }
}

/// Clamp a value to the symmetric interval `[-m, m]`.
pub fn clamp_abs(x: i64, m: i64) -> (r: i64)
    requires
        0 <= m,
    ensures
        r == clamp_abs_s(x as int, m as int),
{
    if x > m {
        m
    } else if x < -m {
        -m
    } else {
        x
    }
}

/// Repeatedly taking a full turn off an angle above pi.
pub open spec fn norm_down_s(a: int) -> int
    decreases (if a > PI_MILLI { a } else { 0 }),
{
    if a > PI_MILLI {
        norm_down_s(a - TWO_PI_MILLI)
    } else {
        a
    }
}

/// Repeatedly adding a full turn to an angle below minus pi.
pub open spec fn norm_up_s(a: int) -> int
    decreases (if a < -PI_MILLI { -a } else { 0 }),
{
    if a < -PI_MILLI {
        norm_up_s(a + TWO_PI_MILLI)
    } else {
        a
    }
}

/// The angle congruent to `a` modulo a full turn that lies in `[-pi, pi]`.
pub open spec fn norm_angle_s(a: int) -> int {
    norm_up_s(norm_down_s(a))
}

proof fn lemma_norm_down_le(a: int)
    ensures
        norm_down_s(a) <= PI_MILLI,
        a <= PI_MILLI ==> norm_down_s(a) == a,
    decreases (if a > PI_MILLI { a } else { 0 }),
{
    if a > PI_MILLI {
        lemma_norm_down_le(a - TWO_PI_MILLI);
    }
}

proof fn lemma_norm_up_range(a: int)
    requires
        a <= PI_MILLI,
    ensures
        -PI_MILLI <= norm_up_s(a) <= PI_MILLI,
        -PI_MILLI <= a ==> norm_up_s(a) == a,
    decreases (if a < -PI_MILLI { -a } else { 0 }),
{
    if a < -PI_MILLI {
        lemma_norm_up_range(a + TWO_PI_MILLI);
    }
}

/// A normalized angle lies in `[-pi, pi]`, and one already there is unchanged.
pub proof fn lemma_norm_angle_range(a: int)
    ensures
        -PI_MILLI <= norm_angle_s(a) <= PI_MILLI,
        -PI_MILLI <= a <= PI_MILLI ==> norm_angle_s(a) == a,
{
    lemma_norm_down_le(a);
    lemma_norm_up_range(norm_down_s(a));
}

/// The sine this library defines on `[0, pi]`: a rational approximation,
/// exact at `0`, at the right angle and at `pi`.
pub open spec fn sin_half_s(x: int) -> int {
    (1000 * (16 * x * (PI_MILLI - x))) / (5 * PI_MILLI * PI_MILLI - 4 * x * (PI_MILLI - x))
}

/// Sine on a normalized angle in `[-pi, pi]`, odd around zero.
pub open spec fn sin_norm_s(a: int) -> int {
    if a >= 0 {
        sin_half_s(a)
    } else {
        -sin_half_s(-a)
    }
}

/// The library's sine of any angle, in milli-units of `[-1, 1]`.
pub open spec fn sin_milli_s(a: int) -> int {
    sin_norm_s(norm_angle_s(a))
}

/// The library's cosine: the sine a right angle ahead.
pub open spec fn cos_milli_s(a: int) -> int {
    sin_milli_s(a + HALF_PI_MILLI)
}

proof fn lemma_sin_half_bounds(x: int)
    requires
        0 <= x <= PI_MILLI,
    ensures
        0 <= sin_half_s(x) <= 1000,
{
    let n = 16 * x * (PI_MILLI - x);
    let d = 5 * PI_MILLI * PI_MILLI - 4 * x * (PI_MILLI - x);
    assert(0 <= n && n <= d && 0 < d) by (nonlinear_arith)
        requires
            0 <= x <= PI_MILLI && n == 16 * x * (PI_MILLI - x) && d == 5 * PI_MILLI * PI_MILLI - 4
                * x * (PI_MILLI - x),
    {
        assert((PI_MILLI - 2 * x) * (PI_MILLI - 2 * x) >= 0);
    }
    assert(1000 * n <= 1000 * d);
    assert(0 <= (1000 * n) / d <= 1000) by {
        vstd::arithmetic::div_mod::lemma_div_pos_is_pos(1000 * n, d);
        vstd::arithmetic::div_mod::lemma_div_is_ordered(1000 * n, 1000 * d, d);
        vstd::arithmetic::div_mod::lemma_div_by_multiple(1000, d);
    }
}

/// Sine and cosine stay within one unit of magnitude.
pub proof fn lemma_sin_cos_bounds(a: int)
    ensures
        -1000 <= sin_milli_s(a) <= 1000,
        -1000 <= cos_milli_s(a) <= 1000,
{
    lemma_norm_angle_range(a);
    lemma_norm_angle_range(a + HALF_PI_MILLI);
    let v = norm_angle_s(a);
    if v >= 0 {
        lemma_sin_half_bounds(v);
    } else {
        lemma_sin_half_bounds(-v);
    }
    let w = norm_angle_s(a + HALF_PI_MILLI);
    if w >= 0 {
        lemma_sin_half_bounds(w);
    } else {
        lemma_sin_half_bounds(-w);
    }
}

fn sin_half(x: i64) -> (r: i64)
    requires
        0 <= x <= PI_MILLI,
    ensures
        r == sin_half_s(x as int),
        0 <= r <= 1000,
{
    proof {
        assert(0 <= 16 * (x as int) * (PI_MILLI - x as int) <= 100_000_000 && 0 <= 4 * (x as int)
            * (PI_MILLI - x as int) <= PI_MILLI * PI_MILLI) by (nonlinear_arith)
            requires
                0 <= x as int <= PI_MILLI,
        {
            assert((PI_MILLI - 2 * (x as int)) * (PI_MILLI - 2 * (x as int)) >= 0);
        }
    }
    let n: i64 = 16 * x * (PI_MILLI - x);
    let d: i64 = 5 * PI_MILLI * PI_MILLI - 4 * x * (PI_MILLI - x);
    proof {
        lemma_sin_half_bounds(x as int);
    }
    (1000 * n) / d
}

/// The library's sine, on any representable angle.
pub fn fx_sin(a: i64) -> (r: i64)
    requires
        -ANGLE_LIMIT <= a <= ANGLE_LIMIT,
    ensures
        r == sin_milli_s(a as int),
        -1000 <= r <= 1000,
{
    let v = normalize_angle(a);
    if v >= 0 {
        sin_half(v)
    } else {
        -sin_half(-v)
    }
}

/// The library's cosine, on any representable angle.
pub fn fx_cos(a: i64) -> (r: i64)
    requires
        -ANGLE_LIMIT <= a <= ANGLE_LIMIT - HALF_PI_MILLI,
    ensures
        r == cos_milli_s(a as int),
        -1000 <= r <= 1000,
{
    fx_sin(a + HALF_PI_MILLI)
}

/// Arctangent, in milli-radians, of a ratio given in milli-units of `[0, 1]`.
pub open spec fn atan_unit_s(z: int) -> int {
    (z * (785000 + 273 * (1000 - z))) / 1000000
}

proof fn lemma_atan_unit_bounds(z: int)
    requires
        0 <= z <= 1000,
    ensures
        0 <= atan_unit_s(z) <= 785,
{
    let n = z * (785000 + 273 * (1000 - z));
    assert(0 <= n && n <= 785000000) by (nonlinear_arith)
        requires
            0 <= z <= 1000 && n == z * (785000 + 273 * (1000 - z)),
    {
        assert((1000 - z) * (785000 - 273 * z) >= 0);
    }
    assert(0 <= n / 1000000 <= 785) by {
        vstd::arithmetic::div_mod::lemma_div_pos_is_pos(n, 1000000);
        vstd::arithmetic::div_mod::lemma_div_is_ordered(n, 785000000, 1000000);
    }
}

fn atan_unit(z: i64) -> (r: i64)
    requires
        0 <= z <= 1000,
    ensures
        r == atan_unit_s(z as int),
        0 <= r <= 785,
{
    proof {
        lemma_atan_unit_bounds(z as int);
    }
    (z * (785000 + 273 * (1000 - z))) / 1000000
}

/// The library's two-argument arctangent: the bearing of the vector
/// `(x, y)`, in milli-radians within `[-pi, pi]`, with `atan2_s(0, 0) == 0`.
pub open spec fn atan2_s(y: int, x: int) -> int {
    let ay = abs_s(y);
    let ax = abs_s(x);
    if ax == 0 && ay == 0 {
        0
    } else if ay <= ax {
        let t = atan_unit_s(1000 * ay / ax);
        if x > 0 {
            if y >= 0 {
                t
            } else {
                -t
            }
        } else {
            if y >= 0 {
                PI_MILLI - t
            } else {
                -(PI_MILLI - t)
            }
        }
    } else {
        let t = atan_unit_s(1000 * ax / ay);
        if y > 0 {
            if x >= 0 {
                HALF_PI_MILLI - t
            } else {
                HALF_PI_MILLI + t
            }
        } else {
            if x >= 0 {
                -(HALF_PI_MILLI - t)
            } else {
                -(HALF_PI_MILLI + t)
            }
        }
    }
}

/// The bearing of the vector `(x, y)`.
pub fn fx_atan2(y: i64, x: i64) -> (r: i64)
    requires
        -COORD_LIMIT <= y <= COORD_LIMIT,
        -COORD_LIMIT <= x <= COORD_LIMIT,
    ensures
        r == atan2_s(y as int, x as int),
        -PI_MILLI <= r <= PI_MILLI,
{
    let ay: i64 = if y >= 0 {
        y
    } else {
        -y
    };
    let ax: i64 = if x >= 0 {
        x
    } else {
        -x
    };
    if ax == 0 && ay == 0 {
        0
    } else if ay <= ax {
        let z: i64 = 1000 * ay / ax;
        proof {
            assert(1000 * ay as int / ax as int <= 1000) by {
                assert(1000 * ay <= 1000 * ax);
                vstd::arithmetic::div_mod::lemma_div_is_ordered(
                    1000 * ay as int,
                    1000 * ax as int,
                    ax as int,
                );
                vstd::arithmetic::div_mod::lemma_div_by_multiple(1000, ax as int);
            }
            vstd::arithmetic::div_mod::lemma_div_pos_is_pos(1000 * ay as int, ax as int);
        }
        let t = atan_unit(z);
        if x > 0 {
            if y >= 0 {
                t
            } else {
                -t
            }
        } else {
            if y >= 0 {
                PI_MILLI - t
            } else {
                -(PI_MILLI - t)
            }
        }
    } else {
        let z: i64 = 1000 * ax / ay;
        proof {
            assert(1000 * ax as int / ay as int <= 1000) by {
                assert(1000 * ax <= 1000 * ay);
                vstd::arithmetic::div_mod::lemma_div_is_ordered(
                    1000 * ax as int,
                    1000 * ay as int,
                    ay as int,
                );
                vstd::arithmetic::div_mod::lemma_div_by_multiple(1000, ay as int);
            }
            vstd::arithmetic::div_mod::lemma_div_pos_is_pos(1000 * ax as int, ay as int);
        }
        let t = atan_unit(z);
        if y > 0 {
            if x >= 0 {
                HALF_PI_MILLI - t
            } else {
                HALF_PI_MILLI + t
            }
        } else {
            if x >= 0 {
                -(HALF_PI_MILLI - t)
            } else {
                -(HALF_PI_MILLI + t)
            }
        }
    }
}

/// `r` is the integer square root of `n`.
pub open spec fn is_isqrt(n: int, r: int) -> bool {
    0 <= r && r * r <= n < (r + 1) * (r + 1)
}

/// The integer square root as a function: the largest `r` with `r * r <= n`.
pub open spec fn isqrt_s(n: int) -> int
    decreases n,
{
    if n < 1 {
        0
    } else {
        let r = isqrt_s(n - 1);
        if (r + 1) * (r + 1) <= n {
            r + 1
        } else {
            r
        }
    }
}

/// `isqrt_s(n)` really is the integer square root of `n`.
pub proof fn lemma_isqrt_s_is_isqrt(n: int)
    requires
        0 <= n,
    ensures
        is_isqrt(n, isqrt_s(n)),
    decreases n,
{
    if n >= 1 {
        lemma_isqrt_s_is_isqrt(n - 1);
        let r = isqrt_s(n - 1);
        assert(forall|k: int| 0 <= k ==> (k + 1) * (k + 1) > #[trigger] (k * k)) by (nonlinear_arith);
        assert((r + 2) * (r + 2) > (r + 1) * (r + 1)) by (nonlinear_arith)
            requires
                r >= 0,
        ;
    }
}

/// Two integer square roots of the same number are the same number.
proof fn lemma_isqrt_unique(n: int, a: int, b: int)
    requires
        is_isqrt(n, a),
        is_isqrt(n, b),
    ensures
        a == b,
{
    assert(a == b) by (nonlinear_arith)
        requires
            0 <= a && a * a <= n < (a + 1) * (a + 1) && 0 <= b && b * b <= n < (b + 1) * (b + 1),
    {
        if a < b {
            assert((a + 1) * (a + 1) <= b * b);
        }
        if b < a {
            assert((b + 1) * (b + 1) <= a * a);
        }
    }
}

/// Any `r` that brackets `n` between consecutive squares is `isqrt_s(n)`.
pub proof fn lemma_isqrt_agrees(n: int, r: int)
    requires
        is_isqrt(n, r),
    ensures
        r == isqrt_s(n),
{
    assert(0 <= n) by (nonlinear_arith)
        requires
            0 <= r && r * r <= n,
    ;
    lemma_isqrt_s_is_isqrt(n);
    lemma_isqrt_unique(n, r, isqrt_s(n));
}

/// Integer square root by bisection.
pub fn isqrt(n: u64) -> (r: u64)
    ensures
        is_isqrt(n as int, r as int),
{
    let mut lo: u64 = 0;
    let mut hi: u64 = 4294967296;
    proof {
        assert((hi as int) * (hi as int) > n as int) by (nonlinear_arith)
            requires
                hi == 4294967296u64 && n <= 0xffff_ffff_ffff_ffffu64,
        ;
    }
    while hi - lo > 1
        invariant
            lo < hi <= 4294967296,
            (lo as int) * (lo as int) <= n as int,
            (hi as int) * (hi as int) > n as int,
        decreases hi - lo,
    {
        let mid: u64 = lo + (hi - lo) / 2;
        proof {
            assert((mid as int) * (mid as int) <= 0x1_0000_0000_0000_0000) by (nonlinear_arith)
                requires
                    mid <= 4294967296u64,
            ;
        }
        if (mid as u128) * (mid as u128) <= n as u128 {
            lo = mid;
        } else {
            hi = mid;
        }
    }
    lo
}

/// A square is bounded by the square of a bound on its magnitude.
pub proof fn lemma_sqr_bounds(x: int, m: int)
    requires
        -m <= x <= m,
    ensures
        0 <= x * x <= m * m,
{
    assert(0 <= x * x <= m * m) by (nonlinear_arith)
        requires
            -m <= x <= m,
    ;
}

/// Multiplication on the left by a non-negative number is monotone.
pub proof fn lemma_mul_le(a: int, b: int, c: int)
    requires
        0 <= a <= b,
        0 <= c,
    ensures
        a * c <= b * c,
{
    assert(a * c <= b * c) by (nonlinear_arith)
        requires
            0 <= a <= b && 0 <= c,
    ;
}

/// Magnitudes multiply.
pub proof fn lemma_abs_mul(a: int, b: int)
    ensures
        abs_s(a * b) == abs_s(a) * abs_s(b),
{
    if a >= 0 && b >= 0 {
        assert(a * b >= 0) by (nonlinear_arith)
            requires
                a >= 0 && b >= 0,
        ;
    } else if a >= 0 && b < 0 {
        assert(a * b <= 0 && a * (-b) == -(a * b)) by (nonlinear_arith)
            requires
                a >= 0 && b < 0,
        ;
    } else if a < 0 && b >= 0 {
        assert(a * b <= 0 && (-a) * b == -(a * b)) by (nonlinear_arith)
            requires
                a < 0 && b >= 0,
        ;
    } else {
        assert(a * b >= 0 && (-a) * (-b) == a * b) by (nonlinear_arith)
            requires
                a < 0 && b < 0,
        ;
    }
}

/// Each component of a vector is at most the vector's integer length.
pub proof fn lemma_component_le_len(x: int, y: int, l: int)
    requires
        is_isqrt(x * x + y * y, l),
    ensures
        abs_s(x) <= l,
        abs_s(y) <= l,
{
    let ax = abs_s(x);
    let ay = abs_s(y);
    assert(ax * ax == x * x && ay * ay == y * y) by {
        if x < 0 {
            assert((-x) * (-x) == x * x) by (nonlinear_arith);
        }
        if y < 0 {
            assert((-y) * (-y) == y * y) by (nonlinear_arith);
        }
    }
    assert(x * x >= 0 && y * y >= 0) by (nonlinear_arith);
    assert(ax <= l && ay <= l) by (nonlinear_arith)
        requires
            0 <= ax,
            0 <= ay,
            0 <= l,
            ax * ax < (l + 1) * (l + 1),
            ay * ay < (l + 1) * (l + 1),
    ;
}

/// A bound on the components gives a bound on the integer length.
pub proof fn lemma_len_root_bound(x: int, y: int, l: int, m: int)
    requires
        is_isqrt(x * x + y * y, l),
        -m <= x <= m,
        -m <= y <= m,
    ensures
        0 <= l <= 2 * m,
{
    lemma_sqr_bounds(x, m);
    lemma_sqr_bounds(y, m);
    assert(l <= 2 * m) by (nonlinear_arith)
        requires
            0 <= l,
            0 <= m,
            l * l <= 2 * (m * m),
    ;
}

/// Truncating division by a positive number keeps the sign of the dividend
/// and divides the magnitude.
pub proof fn lemma_div_trunc_props(a: int, b: int)
    requires
        b > 0,
    ensures
        abs_s(div_trunc_s(a, b)) == abs_s(a) / b,
        a >= 0 ==> div_trunc_s(a, b) >= 0,
        a < 0 ==> div_trunc_s(a, b) <= 0,
{
    if a >= 0 {
        vstd::arithmetic::div_mod::lemma_div_pos_is_pos(a, b);
    } else {
        vstd::arithmetic::div_mod::lemma_div_pos_is_pos(-a, b);
    }
}

/// A truncating quotient whose dividend is at most `b * c` in magnitude is
/// at most `c` in magnitude.
pub proof fn lemma_div_trunc_bound(a: int, b: int, c: int)
    requires
        b > 0,
        0 <= c,
        abs_s(a) <= b * c,
    ensures
        abs_s(div_trunc_s(a, b)) <= c,
{
    lemma_div_trunc_props(a, b);
    vstd::arithmetic::div_mod::lemma_div_is_ordered(abs_s(a), b * c, b);
    assert((b * c) / b == c) by {
        vstd::arithmetic::div_mod::lemma_div_multiples_vanish(c, b);
    }
}

/// Bring an angle into `[-pi, pi]` by whole turns.
pub fn normalize_angle(a: i64) -> (r: i64)
    requires
        -ANGLE_LIMIT <= a <= ANGLE_LIMIT,
    ensures
        r == norm_angle_s(a as int),
        -PI_MILLI <= r <= PI_MILLI,
{
    let mut x: i64 = a;
    while x > PI_MILLI
        invariant
            -ANGLE_LIMIT <= x <= ANGLE_LIMIT,
            norm_down_s(x as int) == norm_down_s(a as int),
        decreases x + TWO_PI_MILLI,
    {
        x = x - TWO_PI_MILLI;
    }
    proof {
        lemma_norm_down_le(a as int);
    }
    while x < -PI_MILLI
        invariant
            -ANGLE_LIMIT <= x,
            x <= PI_MILLI,
            norm_up_s(x as int) == norm_up_s(norm_down_s(a as int)),
        decreases TWO_PI_MILLI - x,
    {
        x = x + TWO_PI_MILLI;
    }
    proof {
        lemma_norm_angle_range(a as int);
    }
    x
}

} // verus!
