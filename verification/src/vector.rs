//! Exact fixed-point vectors: integer lattice coordinates, `UNIT` steps to one
//! world unit.

use vstd::prelude::*;

verus! {

/// Lattice steps in one world unit.
pub const UNIT: i64 = 1000;

/// The square of `UNIT`.
pub const UNIT_SQ: i64 = 1_000_000;

/// The least that the squared length of a unit vector can be: rounding makes
/// a unit vector up to four steps shorter than `UNIT`.
pub const UNIT_NORM_SQ_MIN: i64 = 993_997;

/// The most that the squared length of a unit vector can be: less than one
/// step longer than `UNIT`.
pub const UNIT_NORM_SQ_MAX: i64 = 1_002_000;

/// Largest magnitude of a coordinate of a body in the world: a quarter of
/// `WIDE_LIMIT`, so that the difference of two places, and the sum of the
/// three coordinates of a place, are vectors and numbers that the operations
/// accept. It is more than a quarter of a million world units.
pub const WORLD_LIMIT: i64 = 268_435_456;

/// Largest magnitude of a coordinate that the vector operations accept.
pub const WIDE_LIMIT: i64 = 1_073_741_824;

/// Whether `r` is the integer square root of `n`.
pub open spec fn is_isqrt(n: int, r: int) -> bool {
    0 <= r && r * r <= n < (r + 1) * (r + 1)
}

/// The integer square root: the largest `r` with `r * r <= n`.
pub open spec fn isqrt(n: int) -> int {
    choose|r: int| is_isqrt(n, r)
}

/// Division that rounds toward zero, for a positive divisor.
pub open spec fn trunc_div(a: int, b: int) -> int {
    if a >= 0 {
        a / b
    } else {
        -((-a) / b)
    }
}

/// At most one number is the integer square root of `n`.
pub proof fn lemma_isqrt_unique(n: int, r1: int, r2: int)
    requires
        is_isqrt(n, r1),
        is_isqrt(n, r2),
    ensures
        r1 == r2,
{
    if r1 < r2 {
        assert((r1 + 1) * (r1 + 1) <= r2 * r2) by (nonlinear_arith)
            requires
                0 <= r1,
                r1 + 1 <= r2,
        ;
    } else if r2 < r1 {
        assert((r2 + 1) * (r2 + 1) <= r1 * r1) by (nonlinear_arith)
            requires
                0 <= r2,
                r2 + 1 <= r1,
        ;
    }
}

/// The integer square root of `n`, by bisection.
pub fn integer_sqrt(n: u64) -> (r: u64)
    ensures
        is_isqrt(n as int, r as int),
        r as int == isqrt(n as int),
{
    let mut lo: u64 = 0;
    let mut hi: u64 = 4_294_967_296;
    assert(hi * hi > n) by (nonlinear_arith)
        requires
            hi == 4_294_967_296,
            n <= u64::MAX,
    ;
    while hi - lo > 1
        invariant
            lo < hi <= 4_294_967_296,
            lo * lo <= n < hi * hi,
        decreases hi - lo,
    {
        let mid: u64 = lo + (hi - lo) / 2;
        assert(mid * mid <= 4_294_967_295 * 4_294_967_295) by (nonlinear_arith)
            requires
                0 <= mid <= 4_294_967_295,
        ;
        if mid * mid <= n {
            lo = mid;
        } else {
            hi = mid;
        }
    }
    proof {
        assert(hi == lo + 1);
        assert(is_isqrt(n as int, lo as int));
        lemma_isqrt_unique(n as int, lo as int, isqrt(n as int));
    }
    lo
}

/// The integer square root of a wide number, by bisection.
pub fn integer_sqrt_wide(n: u128) -> (r: u64)
    ensures
        is_isqrt(n as int, r as int),
        r as int == isqrt(n as int),
{
    let mut lo: u128 = 0;
    let mut hi: u128 = 18_446_744_073_709_551_616;
    assert(hi * hi > n) by (nonlinear_arith)
        requires
            hi == 18_446_744_073_709_551_616,
            n <= u128::MAX,
    ;
    while hi - lo > 1
        invariant
            lo < hi <= 18_446_744_073_709_551_616,
            lo * lo <= n < hi * hi,
        decreases hi - lo,
    {
        let mid: u128 = lo + (hi - lo) / 2;
        assert(mid * mid <= 18_446_744_073_709_551_615 * 18_446_744_073_709_551_615)
            by (nonlinear_arith)
            requires
                0 <= mid <= 18_446_744_073_709_551_615,
        ;
        if mid * mid <= n {
            lo = mid;
        } else {
            hi = mid;
        }
    }
    proof {
        assert(hi == lo + 1);
        assert(is_isqrt(n as int, lo as int));
        lemma_isqrt_unique(n as int, lo as int, isqrt(n as int));
    }
    lo as u64
}

/// A vector of mathematical integers: what a `Vec3` stands for in contracts.
pub struct V3 {
    pub x: int,
    pub y: int,
    pub z: int,
}

impl V3 {
    pub open spec fn zero() -> V3 {
        V3 { x: 0, y: 0, z: 0 }
    }

    pub open spec fn is_zero(self) -> bool {
        self.x == 0 && self.y == 0 && self.z == 0
    }

    /// Every coordinate lies in `-bound ..= bound`.
    pub open spec fn within(self, bound: int) -> bool {
        &&& -bound <= self.x <= bound
        &&& -bound <= self.y <= bound
        &&& -bound <= self.z <= bound
    }

    /// Every coordinate is a value of `i64`.
    pub open spec fn fits(self) -> bool {
        &&& i64::MIN <= self.x <= i64::MAX
        &&& i64::MIN <= self.y <= i64::MAX
        &&& i64::MIN <= self.z <= i64::MAX
    }

    pub open spec fn neg(self) -> V3 {
        V3 { x: -self.x, y: -self.y, z: -self.z }
    }

    pub open spec fn plus(self, o: V3) -> V3 {
        V3 { x: self.x + o.x, y: self.y + o.y, z: self.z + o.z }
    }

    pub open spec fn minus(self, o: V3) -> V3 {
        V3 { x: self.x - o.x, y: self.y - o.y, z: self.z - o.z }
    }

    pub open spec fn scaled(self, k: int) -> V3 {
        V3 { x: self.x * k, y: self.y * k, z: self.z * k }
    }

    /// Each coordinate divided by `d`, rounded toward zero.
    pub open spec fn shrunk(self, d: int) -> V3 {
        V3 { x: trunc_div(self.x, d), y: trunc_div(self.y, d), z: trunc_div(self.z, d) }
    }

    /// The vector times the fixed-point number `k`: `UNIT` stands for one.
    pub open spec fn times(self, k: int) -> V3 {
        self.scaled(k).shrunk(UNIT as int)
    }

    pub open spec fn dot(self, o: V3) -> int {
        self.x * o.x + self.y * o.y + self.z * o.z
    }

    pub open spec fn cross(self, o: V3) -> V3 {
        V3 {
            x: self.y * o.z - self.z * o.y,
            y: self.z * o.x - self.x * o.z,
            z: self.x * o.y - self.y * o.x,
        }
    }

    /// The squared Euclidean length.
    pub open spec fn norm_sq(self) -> int {
        self.dot(self)
    }

    /// The Euclidean length, rounded down to a lattice step.
    pub open spec fn length(self) -> int {
        isqrt(self.norm_sq())
    }

    /// The Euclidean length in thousandths of a lattice step, rounded down.
    pub open spec fn fine_length(self) -> int {
        isqrt(self.norm_sq() * UNIT_SQ)
    }

    /// The vector of length `UNIT` in the direction of `self`, which is not
    /// the zero vector: each coordinate times `UNIT` and divided by the
    /// length, rounded toward zero.
    pub open spec fn unit(self) -> V3 {
        self.scaled(UNIT_SQ as int).shrunk(self.fine_length())
    }

    /// Whether this is a direction: a vector that is `UNIT` long, up to
    /// rounding.
    pub open spec fn is_unit(self) -> bool {
        &&& self.within(UNIT as int)
        &&& UNIT_NORM_SQ_MIN <= self.norm_sq() <= UNIT_NORM_SQ_MAX
    }

    /// The unit vector in the direction of `self`; `None` for the zero vector,
    /// which has no direction.
    pub open spec fn normalize(self) -> Option<V3> {
        if self.is_zero() {
            None
        } else {
            Some(self.unit())
        }
    }
}

/// A fixed-point vector or point, in lattice steps.
#[derive(Clone, Copy, PartialEq, Eq, Structural, Debug)]
pub struct Vec3 {
    pub x: i64,
    pub y: i64,
    pub z: i64,
}

impl View for Vec3 {
    type V = V3;

    open spec fn view(&self) -> V3 {
        V3 { x: self.x as int, y: self.y as int, z: self.z as int }
    }
}

/// The mathematical vector behind an optional `Vec3`.
pub open spec fn view_opt(v: Option<Vec3>) -> Option<V3> {
    match v {
        Some(u) => Some(u@),
        None => None,
    }
}

/// The product of two bounded numbers is bounded by the product of the bounds.
pub proof fn lemma_product_bound(a: int, b: int, m: int, n: int)
    requires
        -m <= a <= m,
        -n <= b <= n,
    ensures
        -(m * n) <= a * b <= m * n,
{
    assert(-(m * n) <= a * b <= m * n) by (nonlinear_arith)
        requires
            -m <= a <= m,
            -n <= b <= n,
    ;
}

/// The cross product of two bounded vectors is bounded, coordinate by
/// coordinate, by twice the product of the bounds.
pub proof fn lemma_cross_bound(a: V3, b: V3, m: int, n: int)
    requires
        a.within(m),
        b.within(n),
    ensures
        a.cross(b).within(2 * (m * n)),
{
    lemma_product_bound(a.y, b.z, m, n);
    lemma_product_bound(a.z, b.y, m, n);
    lemma_product_bound(a.z, b.x, m, n);
    lemma_product_bound(a.x, b.z, m, n);
    lemma_product_bound(a.x, b.y, m, n);
    lemma_product_bound(a.y, b.x, m, n);
}

/// One coordinate of a unit vector: for a coordinate `c` of a vector whose
/// length, in thousandths of a step, is `d` rounded down, the coordinate of
/// the unit vector is at most `UNIT`, and times `d` it is at most `d` away
/// from `c * UNIT_SQ`.
pub proof fn lemma_unit_coordinate(c: int, d: int)
    requires
        d > 0,
        -d <= c * UNIT <= d,
    ensures
        -UNIT <= trunc_div(c * UNIT_SQ, d) <= UNIT,
        trunc_div(c * UNIT_SQ, d) * trunc_div(c * UNIT_SQ, d) * (d * d) <= (c * UNIT_SQ) * (c
            * UNIT_SQ),
        (c * UNIT_SQ) * (c * UNIT_SQ) <= trunc_div(c * UNIT_SQ, d) * trunc_div(c * UNIT_SQ, d) * (d
            * d) + 2001 * (d * d),
        -d < c * UNIT_SQ - trunc_div(c * UNIT_SQ, d) * d < d,
{
    let k: int = if c >= 0 {
        c
    } else {
        -c
    };
    let a: int = k * UNIT_SQ;
    assert(a == (k * UNIT) * UNIT && (c * UNIT_SQ == a || c * UNIT_SQ == -a) && k * UNIT == if c
        >= 0 {
        c * UNIT
    } else {
        -(c * UNIT)
    }) by (nonlinear_arith)
        requires
            a == k * UNIT_SQ,
            k == c || k == -c,
            c >= 0 ==> k == c,
            c < 0 ==> k == -c,
            UNIT == 1000,
            UNIT_SQ == 1_000_000,
    ;
    assert(0 <= a <= UNIT * d) by (nonlinear_arith)
        requires
            a == (k * UNIT) * UNIT,
            0 <= k * UNIT <= d,
            UNIT == 1000,
    ;
    let u: int = a / d;
    let r: int = a % d;
    assert(a == u * d + r && 0 <= r < d && 0 <= u) by (nonlinear_arith)
        requires
            d > 0,
            a >= 0,
            u == a / d,
            r == a % d,
    ;
    assert(u <= UNIT) by (nonlinear_arith)
        requires
            a == u * d + r,
            0 <= r,
            a <= UNIT * d,
            d > 0,
    ;
    assert(u * u * (d * d) == (u * d) * (u * d)) by (nonlinear_arith);
    assert((u * d) * (u * d) <= a * a) by (nonlinear_arith)
        requires
            0 <= u * d <= a,
    ;
    assert(a * a == (u * d) * (u * d) + 2 * ((u * d) * r) + r * r) by (nonlinear_arith)
        requires
            a == u * d + r,
    ;
    assert((u * d) * r <= 1000 * (d * d)) by (nonlinear_arith)
        requires
            0 <= u <= 1000,
            0 <= r < d,
            d > 0,
    ;
    assert(r * r <= d * d) by (nonlinear_arith)
        requires
            0 <= r < d,
    ;
    assert(trunc_div(c * UNIT_SQ, d) == u || trunc_div(c * UNIT_SQ, d) == -u);
    assert((-u) * (-u) == u * u && (-a) * (-a) == a * a) by (nonlinear_arith);
    assert((-u) * d == -(u * d)) by (nonlinear_arith);
    if c >= 0 {
        assert(c * UNIT_SQ == a && trunc_div(c * UNIT_SQ, d) == u);
    } else {
        assert(c * UNIT_SQ == -a && trunc_div(c * UNIT_SQ, d) == -u);
    }
}

/// One coordinate's part in how far a unit vector lies along a direction.
proof fn lemma_part_along(c: int, u: int, w: int, r: int, d: int)
    requires
        r == c * UNIT_SQ - u * d,
    ensures
        (u * w) * d == UNIT_SQ * (c * w) - r * w,
{
    assert((u * w) * d == (u * d) * w) by (nonlinear_arith);
    assert((c * UNIT_SQ - r) * w == UNIT_SQ * (c * w) - r * w) by (nonlinear_arith);
}

/// A unit vector keeps the right angle of the vector that it was made from:
/// where `c` is at a right angle with the direction `up`, the unit vector of
/// `c` lies less than three steps along `up`.
pub proof fn lemma_unit_across(c: V3, up: V3)
    requires
        !c.is_zero(),
        c.dot(up) == 0,
        up.within(UNIT as int),
    ensures
        -3 * UNIT < c.unit().dot(up) < 3 * UNIT,
{
    lemma_unit_length(c);
    let m = c.norm_sq() * UNIT_SQ;
    let d = c.fine_length();
    assert((c.x * UNIT) * (c.x * UNIT) == (c.x * c.x) * UNIT_SQ && (c.y * UNIT) * (c.y * UNIT) == (
    c.y * c.y) * UNIT_SQ && (c.z * UNIT) * (c.z * UNIT) == (c.z * c.z) * UNIT_SQ)
        by (nonlinear_arith)
        requires
            UNIT == 1000,
            UNIT_SQ == 1_000_000,
    ;
    lemma_square_nonnegative(c.x);
    lemma_square_nonnegative(c.y);
    lemma_square_nonnegative(c.z);
    lemma_isqrt_dominates(c.x * UNIT, m);
    lemma_isqrt_dominates(c.y * UNIT, m);
    lemma_isqrt_dominates(c.z * UNIT, m);
    lemma_unit_coordinate(c.x, d);
    lemma_unit_coordinate(c.y, d);
    lemma_unit_coordinate(c.z, d);
    let u = c.unit();
    let rx = c.x * UNIT_SQ - u.x * d;
    let ry = c.y * UNIT_SQ - u.y * d;
    let rz = c.z * UNIT_SQ - u.z * d;
    lemma_product_bound(rx, up.x, d - 1, UNIT as int);
    lemma_product_bound(ry, up.y, d - 1, UNIT as int);
    lemma_product_bound(rz, up.z, d - 1, UNIT as int);
    let along = u.dot(up);
    lemma_part_along(c.x, u.x, up.x, rx, d);
    lemma_part_along(c.y, u.y, up.y, ry, d);
    lemma_part_along(c.z, u.z, up.z, rz, d);
    assert(along * d == (u.x * up.x) * d + (u.y * up.y) * d + (u.z * up.z) * d)
        by (nonlinear_arith)
        requires
            along == u.x * up.x + u.y * up.y + u.z * up.z,
    ;
    assert(UNIT_SQ * (c.x * up.x) + UNIT_SQ * (c.y * up.y) + UNIT_SQ * (c.z * up.z) == 0)
        by (nonlinear_arith)
        requires
            c.x * up.x + c.y * up.y + c.z * up.z == 0,
    ;
    assert(along * d == -(rx * up.x + ry * up.y + rz * up.z));
    assert(-3 * UNIT < along < 3 * UNIT) by (nonlinear_arith)
        requires
            -(3 * ((d - 1) * UNIT)) <= along * d <= 3 * ((d - 1) * UNIT),
            d >= 1000,
            UNIT == 1000,
    ;
}

/// A unit vector is about `UNIT` long, whatever the length of the vector that
/// it was made from: its squared length lies between `UNIT_NORM_SQ_MIN` and
/// `UNIT_NORM_SQ_MAX`, and no coordinate is over `UNIT`.
pub proof fn lemma_unit_length(v: V3)
    requires
        !v.is_zero(),
    ensures
        is_isqrt(v.norm_sq() * UNIT_SQ, v.fine_length()),
        v.fine_length() >= UNIT,
        v.unit().within(UNIT as int),
        UNIT_NORM_SQ_MIN <= v.unit().norm_sq() <= UNIT_NORM_SQ_MAX,
{
    let n = v.norm_sq();
    lemma_square_nonnegative(v.x);
    lemma_square_nonnegative(v.y);
    lemma_square_nonnegative(v.z);
    assert(n >= 1) by (nonlinear_arith)
        requires
            n == v.x * v.x + v.y * v.y + v.z * v.z,
            v.x != 0 || v.y != 0 || v.z != 0,
    ;
    let m = n * UNIT_SQ;
    lemma_isqrt_exists(m);
    let d = v.fine_length();
    lemma_isqrt_dominates(1000, m);
    assert((v.x * UNIT) * (v.x * UNIT) == (v.x * v.x) * UNIT_SQ && (v.y * UNIT) * (v.y * UNIT) == (
    v.y * v.y) * UNIT_SQ && (v.z * UNIT) * (v.z * UNIT) == (v.z * v.z) * UNIT_SQ)
        by (nonlinear_arith)
        requires
            UNIT == 1000,
            UNIT_SQ == 1_000_000,
    ;
    lemma_isqrt_dominates(v.x * UNIT, m);
    lemma_isqrt_dominates(v.y * UNIT, m);
    lemma_isqrt_dominates(v.z * UNIT, m);
    lemma_unit_coordinate(v.x, d);
    lemma_unit_coordinate(v.y, d);
    lemma_unit_coordinate(v.z, d);
    let u = v.unit();
    assert(u.x == trunc_div(v.x * UNIT_SQ, d));
    assert(u.y == trunc_div(v.y * UNIT_SQ, d));
    assert(u.z == trunc_div(v.z * UNIT_SQ, d));
    let len_sq = u.norm_sq();
    let ax = v.x * UNIT_SQ;
    let ay = v.y * UNIT_SQ;
    let az = v.z * UNIT_SQ;
    let total = ax * ax + ay * ay + az * az;
    assert(total == UNIT_SQ * m) by (nonlinear_arith)
        requires
            total == ax * ax + ay * ay + az * az,
            ax == v.x * UNIT_SQ,
            ay == v.y * UNIT_SQ,
            az == v.z * UNIT_SQ,
            m == (v.x * v.x + v.y * v.y + v.z * v.z) * UNIT_SQ,
    ;
    let dd = d * d;
    assert(len_sq * dd == u.x * u.x * dd + u.y * u.y * dd + u.z * u.z * dd) by (nonlinear_arith)
        requires
            len_sq == u.x * u.x + u.y * u.y + u.z * u.z,
    ;
    assert(len_sq * dd <= total <= len_sq * dd + 6003 * dd);
    assert(dd >= 1_000_000 && dd <= m) by (nonlinear_arith)
        requires
            dd == d * d,
            d >= 1000,
            d * d <= m,
    ;
    assert(len_sq >= UNIT_NORM_SQ_MIN) by (nonlinear_arith)
        requires
            UNIT_SQ * m <= len_sq * dd + 6003 * dd,
            dd <= m,
            dd > 0,
            UNIT_SQ == 1_000_000,
            UNIT_NORM_SQ_MIN == 993_997,
    ;
    assert(UNIT_SQ * ((d + 1) * (d + 1)) <= 1_002_001 * dd) by (nonlinear_arith)
        requires
            d >= 1000,
            dd == d * d,
            UNIT_SQ == 1_000_000,
    ;
    assert(len_sq <= UNIT_NORM_SQ_MAX) by (nonlinear_arith)
        requires
            len_sq * dd <= UNIT_SQ * m,
            m < (d + 1) * (d + 1),
            UNIT_SQ * ((d + 1) * (d + 1)) <= 1_002_001 * dd,
            dd > 0,
            UNIT_SQ == 1_000_000,
            UNIT_NORM_SQ_MAX == 1_002_000,
    ;
}

/// A vector times a whole fixed-point number is the vector that many times
/// over, with nothing rounded away, and that many times as long.
pub proof fn lemma_times_whole(v: V3, m: int)
    ensures
        v.times(m * UNIT) == v.scaled(m),
        v.times(m * UNIT).norm_sq() == m * m * v.norm_sq(),
{
    assert forall|c: int| #[trigger] trunc_div(c * (m * UNIT), UNIT as int) == c * m by {
        let a = c * m;
        assert(c * (m * UNIT) == a * 1000) by (nonlinear_arith)
            requires
                a == c * m,
                UNIT == 1000,
        ;
        if a >= 0 {
            assert((a * 1000) / 1000 == a) by (nonlinear_arith);
        } else {
            assert((-(a * 1000)) / 1000 == -a) by (nonlinear_arith);
        }
    }
    let t = v.times(m * UNIT);
    assert(t.x == v.x * m && t.y == v.y * m && t.z == v.z * m);
    let mm = m * m;
    assert((v.x * m) * (v.x * m) == mm * (v.x * v.x)) by (nonlinear_arith)
        requires
            mm == m * m,
    ;
    assert((v.y * m) * (v.y * m) == mm * (v.y * v.y)) by (nonlinear_arith)
        requires
            mm == m * m,
    ;
    assert((v.z * m) * (v.z * m) == mm * (v.z * v.z)) by (nonlinear_arith)
        requires
            mm == m * m,
    ;
    let a = v.x * v.x;
    let b = v.y * v.y;
    let c = v.z * v.z;
    assert(mm * a + mm * b + mm * c == mm * (a + b + c)) by (nonlinear_arith);
}

/// A direction turned round is a direction.
pub proof fn lemma_neg_is_unit(v: V3)
    requires
        v.is_unit(),
    ensures
        v.neg().is_unit(),
{
    assert(v.neg().norm_sq() == v.norm_sq()) by (nonlinear_arith)
        requires
            v.neg().norm_sq() == (-v.x) * (-v.x) + (-v.y) * (-v.y) + (-v.z) * (-v.z),
            v.norm_sq() == v.x * v.x + v.y * v.y + v.z * v.z,
    ;
}

/// A vector that points upward keeps doing so when it is normalized: with
/// coordinates of at most `b` and a height of at least `m`, the unit vector
/// has a height of at least `q`, where `q * 2 * b <= m * UNIT`.
pub proof fn lemma_unit_height(v: V3, b: int, m: int, q: int)
    requires
        v.within(b),
        v.y >= m,
        m >= 1,
        q >= 0,
        q * (2 * b) <= m * UNIT,
    ensures
        !v.is_zero(),
        v.unit().y >= q,
{
    lemma_unit_length(v);
    let n = v.norm_sq();
    lemma_product_bound(v.x, v.x, b, b);
    lemma_product_bound(v.y, v.y, b, b);
    lemma_product_bound(v.z, v.z, b, b);
    let d = v.fine_length();
    if d > 2 * b * UNIT {
        assert(d * d > 3 * (b * b) * UNIT_SQ) by (nonlinear_arith)
            requires
                d > 2 * b * UNIT,
                b >= 1,
                UNIT == 1000,
                UNIT_SQ == 1_000_000,
        ;
    }
    let a = v.y * UNIT_SQ;
    assert(a >= q * d && a >= 0) by (nonlinear_arith)
        requires
            a == v.y * UNIT_SQ,
            v.y >= m,
            m >= 1,
            q * (2 * b) <= m * UNIT,
            1 <= d <= 2 * b * UNIT,
            q >= 0,
            UNIT == 1000,
            UNIT_SQ == 1_000_000,
    ;
    assert(a / d >= q) by (nonlinear_arith)
        requires
            a >= q * d,
            d >= 1,
    ;
    assert(v.unit().y == trunc_div(a, d));
}

/// A square is never negative.
pub proof fn lemma_square_nonnegative(a: int)
    ensures
        a * a >= 0,
{
    assert(a * a >= 0) by (nonlinear_arith);
}

/// Every non-negative number has an integer square root.
pub proof fn lemma_isqrt_exists(n: int)
    requires
        n >= 0,
    ensures
        is_isqrt(n, isqrt(n)),
    decreases n,
{
    if n == 0 {
        assert(is_isqrt(0, 0));
    } else {
        lemma_isqrt_exists(n - 1);
        let r = isqrt(n - 1);
        if (r + 1) * (r + 1) <= n {
            assert((r + 2) * (r + 2) > n) by (nonlinear_arith)
                requires
                    0 <= r,
                    n - 1 < (r + 1) * (r + 1),
            ;
            assert(is_isqrt(n, r + 1));
        } else {
            assert(is_isqrt(n, r));
        }
    }
}

/// No coordinate is longer than the vector: `|c| <= isqrt(n)` whenever
/// `c * c <= n`.
pub proof fn lemma_isqrt_dominates(c: int, n: int)
    requires
        c * c <= n,
    ensures
        -isqrt(n) <= c <= isqrt(n),
{
    lemma_square_nonnegative(c);
    lemma_isqrt_exists(n);
    let r = isqrt(n);
    if c > r {
        assert(c * c >= (r + 1) * (r + 1)) by (nonlinear_arith)
            requires
                0 <= r,
                c >= r + 1,
        ;
    } else if c < -r {
        assert(c * c >= (r + 1) * (r + 1)) by (nonlinear_arith)
            requires
                0 <= r,
                c <= -(r + 1),
        ;
    }
}

/// Dividing toward zero keeps a bound: `|a| <= m * d` gives `|a / d| <= m`.
pub proof fn lemma_trunc_div_bound(a: int, d: int, m: int)
    requires
        d > 0,
        m >= 0,
        -(m * d) <= a <= m * d,
    ensures
        -m <= trunc_div(a, d) <= m,
{
    if a >= 0 {
        assert(0 <= a / d <= m) by (nonlinear_arith)
            requires
                d > 0,
                0 <= a <= m * d,
        ;
    } else {
        assert(0 <= (-a) / d <= m) by (nonlinear_arith)
            requires
                d > 0,
                0 <= -a <= m * d,
        ;
    }
}

/// A vector times a fixed-point number of at most `m` is at most `m` times
/// as long, coordinate by coordinate.
pub proof fn lemma_times_bound(v: V3, k: int, b: int, m: int)
    requires
        v.within(b),
        b >= 0,
        m >= 0,
        -(m * UNIT) <= k <= m * UNIT,
    ensures
        v.times(k).within(b * m),
{
    let u: int = UNIT as int;
    assert forall|c: int| -b <= c <= b implies -(b * m) <= #[trigger] trunc_div(c * k, u) <= b
        * m by {
        lemma_product_bound(c, k, b, m * u);
        assert(b * (m * u) == (b * m) * u) by (nonlinear_arith);
        assert(b * m >= 0) by (nonlinear_arith)
            requires
                b >= 0,
                m >= 0,
        ;
        lemma_trunc_div_bound(c * k, u, b * m);
    }
    assert(v.times(k).x == trunc_div(v.x * k, u));
    assert(v.times(k).y == trunc_div(v.y * k, u));
    assert(v.times(k).z == trunc_div(v.z * k, u));
}

/// A number times a fixed-point fraction lies between zero and the number.
pub proof fn lemma_fraction_between(c: int, k: int)
    requires
        0 <= k <= UNIT,
    ensures
        c >= 0 ==> 0 <= trunc_div(c * k, UNIT as int) <= c,
        c <= 0 ==> c <= trunc_div(c * k, UNIT as int) <= 0,
{
    let u: int = UNIT as int;
    if c >= 0 {
        assert(0 <= c * k <= c * u) by (nonlinear_arith)
            requires
                c >= 0,
                0 <= k <= u,
        ;
        lemma_trunc_div_bound(c * k, u, c);
        assert(0 <= (c * k) / u) by (nonlinear_arith)
            requires
                0 <= c * k,
                u > 0,
        ;
    } else {
        assert(c * u <= c * k <= 0) by (nonlinear_arith)
            requires
                c <= 0,
                0 <= k <= u,
        ;
        assert((-c) * u == -(c * u)) by (nonlinear_arith);
        lemma_trunc_div_bound(c * k, u, -c);
        if c * k < 0 {
            assert(0 <= (-(c * k)) / u) by (nonlinear_arith)
                requires
                    0 <= -(c * k),
                    u > 0,
            ;
        }
    }
}

impl Vec3 {
    pub fn new(x: i64, y: i64, z: i64) -> (v: Vec3)
        ensures
            v.x == x,
            v.y == y,
            v.z == z,
    {
        Vec3 { x, y, z }
    }

    /// Whether this is a place that a body of the world can be at.
    pub open spec fn in_world(self) -> bool {
        self@.within(WORLD_LIMIT as int)
    }

    /// Whether the vector operations accept this vector.
    pub open spec fn in_range(self) -> bool {
        self@.within(WIDE_LIMIT as int)
    }

    pub fn is_in_world(&self) -> (b: bool)
        ensures
            b == self.in_world(),
    {
        -WORLD_LIMIT <= self.x && self.x <= WORLD_LIMIT && -WORLD_LIMIT <= self.y && self.y
            <= WORLD_LIMIT && -WORLD_LIMIT <= self.z && self.z <= WORLD_LIMIT
    }

    pub fn is_in_range(&self) -> (b: bool)
        ensures
            b == self.in_range(),
    {
        -WIDE_LIMIT <= self.x && self.x <= WIDE_LIMIT && -WIDE_LIMIT <= self.y && self.y
            <= WIDE_LIMIT && -WIDE_LIMIT <= self.z && self.z <= WIDE_LIMIT
    }

    pub fn is_zero(&self) -> (b: bool)
        ensures
            b == self@.is_zero(),
    {
        self.x == 0 && self.y == 0 && self.z == 0
    }

    pub fn negated(&self) -> (r: Vec3)
        requires
            self@.neg().fits(),
        ensures
            r@ == self@.neg(),
    {
        Vec3 { x: -self.x, y: -self.y, z: -self.z }
    }

    pub fn plus(&self, o: &Vec3) -> (r: Vec3)
        requires
            self@.plus(o@).fits(),
        ensures
            r@ == self@.plus(o@),
    {
        Vec3 { x: self.x + o.x, y: self.y + o.y, z: self.z + o.z }
    }

    pub fn minus(&self, o: &Vec3) -> (r: Vec3)
        requires
            self@.minus(o@).fits(),
        ensures
            r@ == self@.minus(o@),
    {
        Vec3 { x: self.x - o.x, y: self.y - o.y, z: self.z - o.z }
    }

    pub fn scaled(&self, k: i64) -> (r: Vec3)
        requires
            self@.scaled(k as int).fits(),
        ensures
            r@ == self@.scaled(k as int),
    {
        Vec3 { x: self.x * k, y: self.y * k, z: self.z * k }
    }

    /// The vector times the fixed-point number `k`.
    pub fn times(&self, k: i64) -> (r: Vec3)
        requires
            self.in_range(),
            -WIDE_LIMIT <= k <= WIDE_LIMIT,
        ensures
            r@ == self@.times(k as int),
    {
        proof {
            let w: int = WIDE_LIMIT as int;
            lemma_product_bound(self.x as int, k as int, w, w);
            lemma_product_bound(self.y as int, k as int, w, w);
            lemma_product_bound(self.z as int, k as int, w, w);
        }
        Vec3 { x: self.x * k / UNIT, y: self.y * k / UNIT, z: self.z * k / UNIT }
    }

    pub fn dot(&self, o: &Vec3) -> (r: i64)
        requires
            self.in_range(),
            o.in_range(),
        ensures
            r == self@.dot(o@),
    {
        proof {
            let w: int = WIDE_LIMIT as int;
            lemma_product_bound(self.x as int, o.x as int, w, w);
            lemma_product_bound(self.y as int, o.y as int, w, w);
            lemma_product_bound(self.z as int, o.z as int, w, w);
        }
        self.x * o.x + self.y * o.y + self.z * o.z
    }

    pub fn cross(&self, o: &Vec3) -> (r: Vec3)
        requires
            self.in_range(),
            o.in_range(),
        ensures
            r@ == self@.cross(o@),
    {
        proof {
            let w: int = WIDE_LIMIT as int;
            lemma_product_bound(self.y as int, o.z as int, w, w);
            lemma_product_bound(self.z as int, o.y as int, w, w);
            lemma_product_bound(self.z as int, o.x as int, w, w);
            lemma_product_bound(self.x as int, o.z as int, w, w);
            lemma_product_bound(self.x as int, o.y as int, w, w);
            lemma_product_bound(self.y as int, o.x as int, w, w);
        }
        Vec3 {
            x: self.y * o.z - self.z * o.y,
            y: self.z * o.x - self.x * o.z,
            z: self.x * o.y - self.y * o.x,
        }
    }

    /// The squared length.
    pub fn norm_sq(&self) -> (r: u64)
        requires
            self.in_range(),
        ensures
            r == self@.norm_sq(),
    {
        proof {
            lemma_square_nonnegative(self.x as int);
            lemma_square_nonnegative(self.y as int);
            lemma_square_nonnegative(self.z as int);
        }
        let d: i64 = self.dot(self);
        d as u64
    }

    /// The length, rounded down.
    pub fn length(&self) -> (r: u64)
        requires
            self.in_range(),
        ensures
            r == self@.length(),
            is_isqrt(self@.norm_sq(), r as int),
    {
        integer_sqrt(self.norm_sq())
    }

    /// The length in thousandths of a step, rounded down.
    pub fn fine_length(&self) -> (r: u64)
        requires
            self.in_range(),
        ensures
            r == self@.fine_length(),
            is_isqrt(self@.norm_sq() * UNIT_SQ, r as int),
            r <= 2 * WIDE_LIMIT * UNIT,
    {
        let n: u64 = self.norm_sq();
        let ghost w: int = WIDE_LIMIT as int;
        proof {
            lemma_product_bound(self.x as int, self.x as int, w, w);
            lemma_product_bound(self.y as int, self.y as int, w, w);
            lemma_product_bound(self.z as int, self.z as int, w, w);
            assert(n * UNIT_SQ <= 3 * (w * w) * UNIT_SQ) by (nonlinear_arith)
                requires
                    n <= 3 * (w * w),
                    UNIT_SQ == 1_000_000,
            ;
        }
        let fine: u64 = integer_sqrt_wide((n as u128) * 1_000_000);
        proof {
            if fine > 2 * w * UNIT {
                assert(fine * fine > 3 * (w * w) * UNIT_SQ) by (nonlinear_arith)
                    requires
                        fine > 2 * w * UNIT,
                        w > 0,
                        UNIT == 1000,
                        UNIT_SQ == 1_000_000,
                ;
            }
        }
        fine
    }

    /// The unit vector in this direction, or `None` for the zero vector. A
    /// unit vector is `UNIT` long up to rounding, whatever the length of this
    /// vector.
    pub fn normalized(&self) -> (r: Option<Vec3>)
        requires
            self.in_range(),
        ensures
            view_opt(r) == self@.normalize(),
            r is Some <==> !self@.is_zero(),
            r matches Some(u) ==> u@.is_unit(),
    {
        if self.is_zero() {
            return None;
        }
        let ghost w: int = WIDE_LIMIT as int;
        proof {
            lemma_unit_length(self@);
            lemma_product_bound(self.x as int, UNIT_SQ as int, w, UNIT_SQ as int);
            lemma_product_bound(self.y as int, UNIT_SQ as int, w, UNIT_SQ as int);
            lemma_product_bound(self.z as int, UNIT_SQ as int, w, UNIT_SQ as int);
        }
        let d: i64 = self.fine_length() as i64;
        Some(Vec3 { x: self.x * UNIT_SQ / d, y: self.y * UNIT_SQ / d, z: self.z * UNIT_SQ / d })
    }
}

} // verus!
