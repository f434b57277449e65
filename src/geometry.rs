use vstd::arithmetic::mul::lemma_mul_upper_bound;
use vstd::prelude::*;

verus! {

/// Subpixels in one pixel (2^16): positions, arena sizes and half sizes use
/// subpixels. A subpixel is finer than the spacing of `f32` values at any
/// coordinate of 512 pixels or more.
pub const SUBPIXELS_PER_PIXEL: i64 = 65_536;

/// The length of a unit direction vector (2^30).
pub const DIRECTION_SCALE: i64 = 1_073_741_824;

/// `DIRECTION_SCALE` times `f32::EPSILON` (2^-23): a direction is of unit
/// length when its length is within this of `DIRECTION_SCALE`.
pub const UNIT_TOLERANCE: i64 = 128;

/// The component of a unit diagonal, `DIRECTION_SCALE / sqrt(2)` rounded down,
/// as `normalize(1, 1)` gives it.
pub const DIAGONAL: i64 = 759_250_124;

/// `DIRECTION_SCALE` times microseconds per second, over `SUBPIXELS_PER_PIXEL`:
/// `direction * speed * elapsed_us / MOTION_DIVISOR` is a distance in subpixels.
pub const MOTION_DIVISOR: i128 = 16_384_000_000;

/// A 2D integer vector: a position in subpixels, or a direction scaled so that
/// unit length is `DIRECTION_SCALE`.
#[derive(Clone, Copy, Debug, PartialEq, Eq, Structural)]
pub struct Vector {
    pub x: i64,
    pub y: i64,
}

impl Vector {
    /// The squared length of the vector.
    pub open spec fn norm2(self) -> int {
        self.x * self.x + self.y * self.y
    }
}

/// `r` is the integer square root of `n`.
pub open spec fn is_isqrt(n: int, r: int) -> bool {
    0 <= r && r * r <= n < (r + 1) * (r + 1)
}

/// Integer square root by bisection.
pub fn isqrt(n: u64) -> (r: u64)
    ensures
        is_isqrt(n as int, r as int),
{
    let mut lo: u64 = 0;
    let mut hi: u64 = 4_294_967_296;
    assert(n < hi * hi) by (nonlinear_arith)
        requires
            hi == 4_294_967_296,
            n <= u64::MAX,
    ;
    while hi - lo > 1
        invariant
            lo < hi <= 4_294_967_296,
            lo * lo <= n,
            n < hi * hi,
        decreases hi - lo,
    {
        let mid: u64 = lo + (hi - lo) / 2;
        proof {
            lemma_mul_upper_bound(mid as int, 4_294_967_296, mid as int, 4_294_967_296);
        }
        if (mid as u128) * (mid as u128) <= n as u128 {
            lo = mid;
        } else {
            hi = mid;
        }
    }
    lo
}

/// The unit-length form of a vector with non-negative components:
/// each component is the square root of `c^2 * DIRECTION_SCALE^2 / |v|^2`,
/// rounded down; the zero vector stays zero.
pub open spec fn normalized_component(c: int, other: int, r: int) -> bool {
    let n = c * c + other * other;
    if n == 0 {
        r == 0
    } else {
        is_isqrt(c * c * DIRECTION_SCALE * DIRECTION_SCALE / n, r)
    }
}

/// Scales `(x, y)` to unit length; the zero vector stays zero.
pub fn normalize(x: u32, y: u32) -> (r: Vector)
    ensures
        normalized_component(x as int, y as int, r.x as int),
        normalized_component(y as int, x as int, r.y as int),
        near_unit(r),
        r.x >= 0 && r.y >= 0,
        (x != 0 || y != 0) ==> min_unit_norm2() <= r.norm2(),
{
    proof {
        lemma_mul_upper_bound(x as int, u32::MAX as int, x as int, u32::MAX as int);
        lemma_mul_upper_bound(y as int, u32::MAX as int, y as int, u32::MAX as int);
    }
    let xx: u128 = (x as u128) * (x as u128);
    let yy: u128 = (y as u128) * (y as u128);
    let n: u128 = xx + yy;
    if n == 0 {
        assert(x == 0 && y == 0) by (nonlinear_arith)
            requires xx == x * x, yy == y * y, xx + yy == 0;
        return Vector { x: 0, y: 0 };
    }
    assert(DIRECTION_SCALE * DIRECTION_SCALE == 1_152_921_504_606_846_976int);
    let s2: u128 = (DIRECTION_SCALE as u128) * (DIRECTION_SCALE as u128);
    assert(xx * s2 <= n * s2) by (nonlinear_arith)
        requires xx <= n, s2 >= 0;
    assert(yy * s2 <= n * s2) by (nonlinear_arith)
        requires yy <= n, s2 >= 0;
    assert(n * s2 <= 36_893_488_147_419_103_232u128 * 1_152_921_504_606_846_976u128) by (nonlinear_arith)
        requires n <= 36_893_488_147_419_103_232u128, s2 == 1_152_921_504_606_846_976u128;
    let qx: u128 = xx * s2 / n;
    let qy: u128 = yy * s2 / n;
    assert(qx <= s2 && qy <= s2) by {
        lemma_quotient_at_most(xx as int, n as int, s2 as int);
        lemma_quotient_at_most(yy as int, n as int, s2 as int);
    }
    assert(s2 < u64::MAX);
    let rx: u64 = isqrt(qx as u64);
    let ry: u64 = isqrt(qy as u64);
    assert(rx <= DIRECTION_SCALE && ry <= DIRECTION_SCALE) by (nonlinear_arith)
        requires rx * rx <= s2, ry * ry <= s2, s2 == 1_152_921_504_606_846_976u128;
    proof {
        lemma_normalized_near_unit(x as int, y as int, rx as int, ry as int);
    }
    Vector { x: rx as i64, y: ry as i64 }
}

/// The squared length of a vector `UNIT_TOLERANCE` shorter than unit length.
pub open spec fn min_unit_norm2() -> int {
    (DIRECTION_SCALE - UNIT_TOLERANCE) * (DIRECTION_SCALE - UNIT_TOLERANCE)
}

/// `v` is zero, or of unit length within `f32::EPSILON` and never longer: its
/// squared length lies in `[min_unit_norm2(), DIRECTION_SCALE^2]`.
pub open spec fn near_unit(v: Vector) -> bool {
    v.norm2() == 0 || min_unit_norm2() <= v.norm2() <= DIRECTION_SCALE * DIRECTION_SCALE
}

/// Rounding the components of a normalized vector down loses less than
/// `4 * DIRECTION_SCALE + 3` of its squared length, which keeps it near unit
/// length.
proof fn lemma_normalized_near_unit(x: int, y: int, rx: int, ry: int)
    requires
        0 <= x,
        0 <= y,
        normalized_component(x, y, rx),
        normalized_component(y, x, ry),
    ensures
        near_unit(Vector { x: rx as i64, y: ry as i64 }),
        (x != 0 || y != 0) ==> min_unit_norm2() <= rx * rx + ry * ry,
{
    let n = x * x + y * y;
    let s = DIRECTION_SCALE * DIRECTION_SCALE;
    if x == 0 && y == 0 {
        assert(rx == 0 && ry == 0);
    } else {
        assert(n > 0) by (nonlinear_arith) requires n == x * x + y * y, x != 0 || y != 0, x >= 0, y >= 0;
        let a = x * x * DIRECTION_SCALE * DIRECTION_SCALE;
        let b = y * y * DIRECTION_SCALE * DIRECTION_SCALE;
        let qa = a / n;
        let qb = b / n;
        vstd::arithmetic::div_mod::lemma_fundamental_div_mod(a, n);
        vstd::arithmetic::div_mod::lemma_fundamental_div_mod(b, n);
        vstd::arithmetic::div_mod::lemma_mod_bound(a, n);
        vstd::arithmetic::div_mod::lemma_mod_bound(b, n);
        assert(a + b == s * n) by (nonlinear_arith)
            requires a == x * x * DIRECTION_SCALE * DIRECTION_SCALE,
                b == y * y * DIRECTION_SCALE * DIRECTION_SCALE,
                n == x * x + y * y, s == DIRECTION_SCALE * DIRECTION_SCALE;
        assert(qa + qb <= s) by (nonlinear_arith)
            requires a == n * qa + a % n, b == n * qb + b % n, a % n >= 0, b % n >= 0,
                a + b == s * n, n > 0;
        assert(s < qa + qb + 2) by (nonlinear_arith)
            requires a == n * qa + a % n, b == n * qb + b % n, a % n < n, b % n < n,
                a + b == s * n, n > 0;
        assert(rx <= DIRECTION_SCALE) by (nonlinear_arith)
            requires rx * rx <= qa, qa <= s, s == DIRECTION_SCALE * DIRECTION_SCALE,
                0 <= rx, qb >= 0;
        assert(ry <= DIRECTION_SCALE) by (nonlinear_arith)
            requires ry * ry <= qb, qb <= s, s == DIRECTION_SCALE * DIRECTION_SCALE,
                0 <= ry, qa >= 0;
        assert(rx * rx + ry * ry >= qa + qb - 2 * rx - 2 * ry - 1) by (nonlinear_arith)
            requires qa < (rx + 1) * (rx + 1), qb < (ry + 1) * (ry + 1);
        assert(min_unit_norm2() == 1_152_921_229_728_956_416int) by (nonlinear_arith);
        assert(s == 1_152_921_504_606_846_976int) by (nonlinear_arith)
            requires s == DIRECTION_SCALE * DIRECTION_SCALE;
    }
}

/// `a * s / n <= s` when `a <= n`.
proof fn lemma_quotient_at_most(a: int, n: int, s: int)
    requires
        0 <= a <= n,
        0 < n,
        0 <= s,
    ensures
        a * s / n <= s,
{
    assert(a * s <= n * s) by (nonlinear_arith)
        requires
            0 <= a <= n,
            0 <= s,
    ;
    vstd::arithmetic::div_mod::lemma_div_is_ordered(a * s, n * s, n);
    vstd::arithmetic::div_mod::lemma_div_by_multiple(s, n);
    assert(n * s == s * n) by (nonlinear_arith);
}

} // verus!
