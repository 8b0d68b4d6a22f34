//! Planar and spatial vectors of fixed-point scalars, with the direction
//! utilities the actor logic needs: per-axis sign-with-deadzone, length,
//! normalization and clamping of the length.

use vstd::prelude::*;

verus! {

use crate::fixed::{
    SCALE, FIX_MAX, in_range, abs, scale_div, fmul, mul_div, fixed_mul, sqrt_floor, sqrt_ceil,
    isqrt, isqrt_ceil, lemma_sqrt_floor_bounds, lemma_sqrt_ceil_bounds,
};

/// Per-axis dead zone under which a direction component counts as zero
/// (a tenth of a unit).
pub const DEADZONE: i64 = 100;

/// A planar direction (the ground plane), as fixed-point scalars.
#[derive(Clone, Copy, Debug, PartialEq, Eq, Structural)]
pub struct Vec2 {
    pub x: i64,
    pub y: i64,
}

/// A spatial vector, as fixed-point scalars.
#[derive(Clone, Copy, Debug, PartialEq, Eq, Structural)]
pub struct Vec3 {
    pub x: i64,
    pub y: i64,
    pub z: i64,
}

/// Discretizes a scalar to `0` inside the dead zone, otherwise to one unit
/// with the scalar's sign.
pub open spec fn signum_axis(n: int) -> int {
    if -DEADZONE < n && n < DEADZONE {
        0
    } else if n > 0 {
        SCALE as int
    } else {
        -(SCALE as int)
    }
}

/// The per-axis sign-with-deadzone transform of a whole vector.
pub open spec fn spec_zero_signum(v: Vec3) -> Vec3 {
    Vec3 {
        x: signum_axis(v.x as int) as i64,
        y: signum_axis(v.y as int) as i64,
        z: signum_axis(v.z as int) as i64,
    }
}

/// The vector scaled to unit length (in fixed-point units), every component
/// rounded toward zero; the divisor is the rounded-down length. Meaningful
/// only for a vector of positive length.
pub open spec fn spec_normalized(v: Vec3) -> Vec3 {
    let l = sqrt_floor(v.len_sq());
    Vec3 {
        x: scale_div(v.x as int, SCALE as int, l) as i64,
        y: scale_div(v.y as int, SCALE as int, l) as i64,
        z: scale_div(v.z as int, SCALE as int, l) as i64,
    }
}

/// The vector unchanged if its length is within `max`, otherwise scaled down
/// by `max` over the rounded-up length.
pub open spec fn spec_clamp_length_max(v: Vec3, max: int) -> Vec3 {
    if v.len_sq() <= max * max {
        v
    } else {
        let l = sqrt_ceil(v.len_sq());
        Vec3 {
            x: scale_div(v.x as int, max, l) as i64,
            y: scale_div(v.y as int, max, l) as i64,
            z: scale_div(v.z as int, max, l) as i64,
        }
    }
}

impl Vec2 {
    /// Squared length.
    pub open spec fn len_sq(self) -> int {
        self.x * self.x + self.y * self.y
    }

    /// Both components within `b` in magnitude.
    pub open spec fn bounded(self, b: int) -> bool {
        -b <= self.x <= b && -b <= self.y <= b
    }

    /// Builds a planar vector.
    pub fn new(x: i64, y: i64) -> (v: Vec2)
        ensures
            v == (Vec2 { x, y }),
    {
        Vec2 { x, y }
    }
}

impl Vec3 {
    /// Squared length.
    pub open spec fn len_sq(self) -> int {
        self.x * self.x + self.y * self.y + self.z * self.z
    }

    /// All components within `b` in magnitude.
    pub open spec fn bounded(self, b: int) -> bool {
        -b <= self.x <= b && -b <= self.y <= b && -b <= self.z <= b
    }

    /// Builds a spatial vector.
    pub fn new(x: i64, y: i64, z: i64) -> (v: Vec3)
        ensures
            v == (Vec3 { x, y, z }),
    {
        Vec3 { x, y, z }
    }

    /// The zero vector.
    pub fn zero() -> (v: Vec3)
        ensures
            v == (Vec3 { x: 0, y: 0, z: 0 }),
    {
        Vec3 { x: 0, y: 0, z: 0 }
    }

    /// Componentwise sum.
    pub fn plus(self, o: Vec3) -> (r: Vec3)
        requires
            in_range(self.x + o.x),
            in_range(self.y + o.y),
            in_range(self.z + o.z),
        ensures
            r == (Vec3 { x: (self.x + o.x) as i64, y: (self.y + o.y) as i64, z: (self.z + o.z) as i64 }),
    {
        Vec3 { x: self.x + o.x, y: self.y + o.y, z: self.z + o.z }
    }

    /// Componentwise difference.
    pub fn minus(self, o: Vec3) -> (r: Vec3)
        requires
            in_range(self.x - o.x),
            in_range(self.y - o.y),
            in_range(self.z - o.z),
        ensures
            r == (Vec3 { x: (self.x - o.x) as i64, y: (self.y - o.y) as i64, z: (self.z - o.z) as i64 }),
    {
        Vec3 { x: self.x - o.x, y: self.y - o.y, z: self.z - o.z }
    }

    /// Componentwise negation.
    pub fn negated(self) -> (r: Vec3)
        requires
            self.bounded(FIX_MAX as int),
        ensures
            r == (Vec3 { x: (-self.x) as i64, y: (-self.y) as i64, z: (-self.z) as i64 }),
    {
        Vec3 { x: -self.x, y: -self.y, z: -self.z }
    }

    /// Multiplies every component by a scaled scalar.
    pub fn scaled_by(self, s: i64) -> (r: Vec3)
        requires
            self.bounded(FIX_MAX as int),
            in_range(s as int),
        ensures
            r.x == fmul(self.x as int, s as int),
            r.y == fmul(self.y as int, s as int),
            r.z == fmul(self.z as int, s as int),
    {
        Vec3 { x: fixed_mul(self.x, s), y: fixed_mul(self.y, s), z: fixed_mul(self.z, s) }
    }

}

/// The per-axis sign-with-deadzone transform used to normalize directional
/// intent.
pub trait ZeroSignum: Sized {
    /// Maps every axis to zero inside the dead zone, else to one unit with
    /// the axis's sign.
    fn zero_signum(&self) -> (r: Vec3)
        ensures
            r == Self::spec_zero_signum_of(*self),
            r.bounded(SCALE as int),
    ;

    /// The transform's value, as the contract states it.
    spec fn spec_zero_signum_of(v: Self) -> Vec3;
}

impl ZeroSignum for Vec3 {
    open spec fn spec_zero_signum_of(v: Vec3) -> Vec3 {
        spec_zero_signum(v)
    }

    fn zero_signum(&self) -> (r: Vec3) {
        Vec3 {
            x: signum_axis_exec(self.x),
            y: signum_axis_exec(self.y),
            z: signum_axis_exec(self.z),
        }
    }
}

/// Truncated scaling of one component by `m / L` cannot grow its square
/// beyond the exact ratio: `(x * m / L)^2 * L^2 <= x^2 * m^2`.
proof fn lemma_scale_component_sq(x: int, m: int, L: int)
    requires
        m >= 0,
        L > 0,
    ensures
        scale_div(x, m, L) * scale_div(x, m, L) * (L * L) <= (x * x) * (m * m),
{
    let p = x * m;
    assert(abs(p) == abs(x) * m) by (nonlinear_arith)
        requires
            m >= 0,
            p == x * m,
    ;
    let u = abs(p);
    let t = u / L;
    let d = scale_div(x, m, L);
    if p >= 0 {
        assert(d == t);
    } else {
        assert(d == -t);
    }
    assert(t * L <= u && t >= 0) by (nonlinear_arith)
        requires
            t == u / L,
            u >= 0,
            L > 0,
    ;
    assert(t * t * (L * L) <= u * u) by (nonlinear_arith)
        requires
            0 <= t,
            0 <= u,
            0 < L,
            t * L <= u,
    ;
    assert(u * u == (x * x) * (m * m)) by (nonlinear_arith)
        requires
            (p >= 0 && u == p) || (p < 0 && u == -p),
            p == x * m,
    ;
    assert(d * d * (L * L) <= (x * x) * (m * m)) by (nonlinear_arith)
        requires
            d == t || d == -t,
            t * t * (L * L) <= u * u,
            u * u == (x * x) * (m * m),
    ;
}

/// A component no longer than the divisor scales to at most `m`.
proof fn lemma_scale_component_bound(x: int, m: int, L: int)
    requires
        0 < L,
        0 <= m,
        abs(x) <= L,
    ensures
        abs(scale_div(x, m, L)) <= m,
{
    let p = x * m;
    assert(abs(p) == abs(x) * m) by (nonlinear_arith)
        requires
            m >= 0,
            p == x * m,
    ;
    let u = abs(p);
    let t = u / L;
    assert(t <= m) by (nonlinear_arith)
        requires
            t == u / L,
            u == abs(x) * m,
            0 <= abs(x) <= L,
            0 <= m,
            0 < L,
    ;
    assert(t >= 0) by (nonlinear_arith)
        requires
            t == u / L,
            u >= 0,
            L > 0,
    ;
    if p >= 0 {
        assert(scale_div(x, m, L) == t);
    } else {
        assert(scale_div(x, m, L) == -t);
    }
}

impl Vec3 {
    /// Computes the squared length as a machine integer.
    pub fn len_sq_exec(self) -> (q: i64)
        requires
            self.bounded(FIX_MAX as int),
        ensures
            q == self.len_sq(),
            0 <= q <= 3 * (FIX_MAX as int) * (FIX_MAX as int),
    {
        proof {
            assert(0 <= self.x * self.x <= (FIX_MAX as int) * (FIX_MAX as int)) by (nonlinear_arith)
                requires
                    -FIX_MAX <= self.x <= FIX_MAX,
            ;
            assert(0 <= self.y * self.y <= (FIX_MAX as int) * (FIX_MAX as int)) by (nonlinear_arith)
                requires
                    -FIX_MAX <= self.y <= FIX_MAX,
            ;
            assert(0 <= self.z * self.z <= (FIX_MAX as int) * (FIX_MAX as int)) by (nonlinear_arith)
                requires
                    -FIX_MAX <= self.z <= FIX_MAX,
            ;
        }
        self.x * self.x + self.y * self.y + self.z * self.z
    }

    /// Computes the length, rounded down to fixed-point units.
    pub fn length(self) -> (r: i64)
        requires
            self.bounded(FIX_MAX as int),
        ensures
            r == sqrt_floor(self.len_sq()),
    {
        let q = self.len_sq_exec();
        proof {
            lemma_sqrt_floor_bounds(q as int);
        }
        let l = isqrt(q as u64);
        proof {
            assert(l <= 2_000_000_000) by (nonlinear_arith)
                requires
                    l >= 0,
                    (l as int) * (l as int) <= q,
                    q <= 3 * (FIX_MAX as int) * (FIX_MAX as int),
            ;
        }
        l as i64
    }

    /// Scales the vector to unit length (in fixed-point units), rounding each
    /// component toward zero; the divisor is the rounded-down length.
    pub fn normalized(self) -> (r: Vec3)
        requires
            self.bounded(FIX_MAX as int),
            self.len_sq() > 0,
        ensures
            r == spec_normalized(self),
            r.bounded(SCALE as int),
    {
        let q = self.len_sq_exec();
        let l = isqrt(q as u64);
        proof {
            lemma_sqrt_floor_bounds(q as int);
            assert(l <= 2_000_000_000) by (nonlinear_arith)
                requires
                    l >= 0,
                    (l as int) * (l as int) <= q,
                    q <= 3 * (FIX_MAX as int) * (FIX_MAX as int),
            ;
            if l == 0 {
                assert((0 + 1) * (0 + 1) == 1);
                assert(false);
            }
            assert(abs(self.x as int) <= l as int) by (nonlinear_arith)
                requires
                    q == (self.x as int) * (self.x as int) + (self.y as int) * (self.y as int) + (
                    self.z as int) * (self.z as int),
                    q < (l as int + 1) * (l as int + 1),
                    l >= 0,
            ;
            assert(abs(self.y as int) <= l as int) by (nonlinear_arith)
                requires
                    q == (self.x as int) * (self.x as int) + (self.y as int) * (self.y as int) + (
                    self.z as int) * (self.z as int),
                    q < (l as int + 1) * (l as int + 1),
                    l >= 0,
            ;
            assert(abs(self.z as int) <= l as int) by (nonlinear_arith)
                requires
                    q == (self.x as int) * (self.x as int) + (self.y as int) * (self.y as int) + (
                    self.z as int) * (self.z as int),
                    q < (l as int + 1) * (l as int + 1),
                    l >= 0,
            ;
            lemma_scale_component_bound(self.x as int, SCALE as int, l as int);
            lemma_scale_component_bound(self.y as int, SCALE as int, l as int);
            lemma_scale_component_bound(self.z as int, SCALE as int, l as int);
        }
        let li = l as i64;
        let rx = mul_div(self.x, SCALE, li);
        let ry = mul_div(self.y, SCALE, li);
        let rz = mul_div(self.z, SCALE, li);
        Vec3 { x: rx, y: ry, z: rz }
    }

    /// Returns the vector unchanged if its length is within `max`, otherwise
    /// scaled down so that its length cannot exceed `max`; the divisor is the
    /// rounded-up length.
    pub fn clamp_length_max(self, max: i64) -> (r: Vec3)
        requires
            self.bounded(FIX_MAX as int),
            0 <= max <= FIX_MAX,
        ensures
            r == spec_clamp_length_max(self, max as int),
            r.len_sq() <= max * max,
            r.bounded(max as int),
    {
        let q = self.len_sq_exec();
        proof {
            assert(0 <= (max as int) * (max as int) <= (FIX_MAX as int) * (FIX_MAX as int))
                by (nonlinear_arith)
                requires
                    0 <= max <= FIX_MAX,
            ;
        }
        let mm = max * max;
        if q <= mm {
            proof {
                assert(self.bounded(max as int)) by (nonlinear_arith)
                    requires
                        self.len_sq() <= (max as int) * (max as int),
                        self.len_sq() == (self.x as int) * (self.x as int) + (self.y as int) * (
                        self.y as int) + (self.z as int) * (self.z as int),
                        0 <= max,
                        -FIX_MAX <= self.x <= FIX_MAX,
                        -FIX_MAX <= self.y <= FIX_MAX,
                        -FIX_MAX <= self.z <= FIX_MAX,
                ;
            }
            return self;
        }
        let l = isqrt_ceil(q as u64);
        proof {
            lemma_sqrt_ceil_bounds(q as int);
            lemma_sqrt_floor_bounds(q as int);
            assert(sqrt_floor(q as int) <= 2_000_000_000) by (nonlinear_arith)
                requires
                    sqrt_floor(q as int) >= 0,
                    sqrt_floor(q as int) * sqrt_floor(q as int) <= q,
                    q <= 3 * (FIX_MAX as int) * (FIX_MAX as int),
            ;
            assert(abs(self.x as int) <= l as int) by (nonlinear_arith)
                requires
                    q == (self.x as int) * (self.x as int) + (self.y as int) * (self.y as int) + (
                    self.z as int) * (self.z as int),
                    q <= (l as int) * (l as int),
                    l >= 0,
            ;
            assert(abs(self.y as int) <= l as int) by (nonlinear_arith)
                requires
                    q == (self.x as int) * (self.x as int) + (self.y as int) * (self.y as int) + (
                    self.z as int) * (self.z as int),
                    q <= (l as int) * (l as int),
                    l >= 0,
            ;
            assert(abs(self.z as int) <= l as int) by (nonlinear_arith)
                requires
                    q == (self.x as int) * (self.x as int) + (self.y as int) * (self.y as int) + (
                    self.z as int) * (self.z as int),
                    q <= (l as int) * (l as int),
                    l >= 0,
            ;
            lemma_scale_component_bound(self.x as int, max as int, l as int);
            lemma_scale_component_bound(self.y as int, max as int, l as int);
            lemma_scale_component_bound(self.z as int, max as int, l as int);
            lemma_scale_component_sq(self.x as int, max as int, l as int);
            lemma_scale_component_sq(self.y as int, max as int, l as int);
            lemma_scale_component_sq(self.z as int, max as int, l as int);
        }
        let li = l as i64;
        let rx = mul_div(self.x, max, li);
        let ry = mul_div(self.y, max, li);
        let rz = mul_div(self.z, max, li);
        let r = Vec3 { x: rx, y: ry, z: rz };
        proof {
            let ll = (l as int) * (l as int);
            assert(r.len_sq() * ll <= q * ((max as int) * (max as int))) by (nonlinear_arith)
                requires
                    r.len_sq() == (rx as int) * (rx as int) + (ry as int) * (ry as int) + (
                    rz as int) * (rz as int),
                    q == (self.x as int) * (self.x as int) + (self.y as int) * (self.y as int) + (
                    self.z as int) * (self.z as int),
                    ll == (l as int) * (l as int),
                    (rx as int) * (rx as int) * ll <= (self.x as int) * (self.x as int) * ((
                    max as int) * (max as int)),
                    (ry as int) * (ry as int) * ll <= (self.y as int) * (self.y as int) * ((
                    max as int) * (max as int)),
                    (rz as int) * (rz as int) * ll <= (self.z as int) * (self.z as int) * ((
                    max as int) * (max as int)),
            ;
            assert(r.len_sq() <= (max as int) * (max as int)) by (nonlinear_arith)
                requires
                    r.len_sq() * ll <= q * ((max as int) * (max as int)),
                    q <= ll,
                    0 <= max,
                    0 < ll,
            ;
        }
        r
    }
}

/// Discretizes one axis: zero inside the dead zone, else a signed unit.
pub fn signum_axis_exec(n: i64) -> (r: i64)
    ensures
        r == signum_axis(n as int),
{
    if n < DEADZONE && n > -DEADZONE {
        0
    } else if n > 0 {
        SCALE
    } else {
        -SCALE
    }
}

} // verus!
