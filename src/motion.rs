use vstd::arithmetic::mul::lemma_mul_upper_bound;
use vstd::prelude::*;

use crate::geometry::{Vector, MOTION_DIVISOR};
use crate::world::Enemy;

verus! {

/// The rectangle `[0, width] x [0, height]`, in subpixels.
#[derive(Clone, Copy, Debug, PartialEq, Eq, Structural)]
pub struct Arena {
    pub width: u32,
    pub height: u32,
}

/// The arena's bounds are not available (no viewport exists yet).
#[derive(Clone, Copy, Debug, PartialEq, Eq, Structural)]
pub enum NoArenaError {
    NoArena,
}

/// The four directional controls held during a tick.
#[derive(Clone, Copy, Debug, PartialEq, Eq, Structural)]
pub struct Controls {
    pub up: bool,
    pub down: bool,
    pub left: bool,
    pub right: bool,
}

/// Truncating division by `MOTION_DIVISOR`, as integer division does.
pub open spec fn div_toward_zero(p: int) -> int {
    if p >= 0 {
        p / (MOTION_DIVISOR as int)
    } else {
        -((-p) / (MOTION_DIVISOR as int))
    }
}

/// Distance covered along one axis, in subpixels, by a direction component
/// at `speed` pixels per second during `elapsed_us` microseconds.
pub open spec fn displacement(d: int, speed: int, elapsed_us: int) -> int {
    div_toward_zero(d * speed * elapsed_us)
}

/// `r` subpixels is the distance `p / MOTION_DIVISOR` rounded toward zero: it
/// has the sign of `p` and falls short of it by less than one subpixel.
pub open spec fn exact_within_subpixel(r: int, p: int) -> bool {
    &&& p >= 0 ==> 0 <= r * MOTION_DIVISOR <= p < (r + 1) * MOTION_DIVISOR
    &&& p < 0 ==> (r - 1) * MOTION_DIVISOR < p <= r * MOTION_DIVISOR <= 0
}

pub open spec fn fits_i64(v: int) -> bool {
    i64::MIN <= v <= i64::MAX
}

/// The position reached from `pos` along `dir`.
pub open spec fn moved(pos: Vector, dir: Vector, speed: int, elapsed_us: int) -> (int, int) {
    (pos.x + displacement(dir.x as int, speed, elapsed_us), pos.y + displacement(
        dir.y as int,
        speed,
        elapsed_us,
    ))
}

/// The move from `pos` along `dir` stays within the coordinate range.
pub open spec fn move_fits(pos: Vector, dir: Vector, speed: int, elapsed_us: int) -> bool {
    fits_i64(moved(pos, dir, speed, elapsed_us).0) && fits_i64(moved(pos, dir, speed, elapsed_us).1)
}

/// Distance covered along one axis; see `displacement`. It is the exact
/// distance rounded toward zero, off by less than one subpixel.
pub fn axis_displacement(d: i64, speed: u32, elapsed_us: u32) -> (r: i128)
    ensures
        r == displacement(d as int, speed as int, elapsed_us as int),
        exact_within_subpixel(r as int, d * speed * elapsed_us),
{
    proof {
        lemma_mul_upper_bound(speed as int, u32::MAX as int, elapsed_us as int, u32::MAX as int);
    }
    let su: i128 = (speed as i128) * (elapsed_us as i128);
    assert(i128::MIN < d * su < i128::MAX) by (nonlinear_arith)
        requires
            i64::MIN <= d <= i64::MAX,
            0 <= su <= 18_446_744_065_119_617_025int,
    ;
    let p: i128 = (d as i128) * su;
    assert(p == d * speed * elapsed_us) by (nonlinear_arith)
        requires
            p == d * su,
            su == speed * elapsed_us,
    ;
    let q: i128 = if p >= 0 {
        ((p as u128) / (MOTION_DIVISOR as u128)) as i128
    } else {
        -((((-p) as u128) / (MOTION_DIVISOR as u128)) as i128)
    };
    proof {
        let m = MOTION_DIVISOR as int;
        let a = if p >= 0 { p as int } else { -p };
        vstd::arithmetic::div_mod::lemma_fundamental_div_mod(a, m);
        vstd::arithmetic::div_mod::lemma_mod_bound(a, m);
        vstd::arithmetic::div_mod::lemma_div_pos_is_pos(a, m);
        assert(0 <= (a / m) * m <= a < (a / m + 1) * m) by (nonlinear_arith)
            requires
                a == m * (a / m) + a % m,
                0 <= a % m < m,
                a / m >= 0,
                m > 0,
        ;
        if p < 0 {
            assert((q - 1) * m == -((a / m + 1) * m)) by (nonlinear_arith)
                requires
                    q == -(a / m),
            ;
            assert(q * m == -((a / m) * m)) by (nonlinear_arith)
                requires
                    q == -(a / m),
            ;
        }
    }
    q
}

/// Advances `pos` along `dir` at `speed` for `elapsed_us`.
pub fn integrate(pos: Vector, dir: Vector, speed: u32, elapsed_us: u32) -> (r: Vector)
    requires
        move_fits(pos, dir, speed as int, elapsed_us as int),
    ensures
        (r.x as int, r.y as int) == moved(pos, dir, speed as int, elapsed_us as int),
{
    let dx: i128 = axis_displacement(dir.x, speed, elapsed_us);
    let dy: i128 = axis_displacement(dir.y, speed, elapsed_us);
    Vector { x: (pos.x as i128 + dx) as i64, y: (pos.y as i128 + dy) as i64 }
}

/// One axis of the player's confinement to `[lo, hi]`.
pub open spec fn clamp_axis(p: int, lo: int, hi: int) -> int {
    if p < lo {
        lo
    } else if p > hi {
        hi
    } else {
        p
    }
}

/// `pos` clamped into the arena shrunk by `half_size` on every side.
pub open spec fn confined(pos: Vector, half_size: int, arena: Arena) -> Vector {
    Vector {
        x: clamp_axis(pos.x as int, half_size, arena.width - half_size) as i64,
        y: clamp_axis(pos.y as int, half_size, arena.height - half_size) as i64,
    }
}

/// Clamps each axis of `pos` into `[half_size, dimension - half_size]`.
pub fn confine(pos: Vector, half_size: u32, arena: Arena) -> (r: Vector)
    ensures
        r == confined(pos, half_size as int, arena),
{
    let lo: i64 = half_size as i64;
    let x_max: i64 = arena.width as i64 - lo;
    let y_max: i64 = arena.height as i64 - lo;
    let mut r: Vector = pos;
    if r.x < lo {
        r.x = lo;
    } else if r.x > x_max {
        r.x = x_max;
    }
    if r.y < lo {
        r.y = lo;
    } else if r.y > y_max {
        r.y = y_max;
    }
    r
}

/// `p` is strictly outside `[half_size, dimension - half_size]`.
pub open spec fn outside(p: int, half_size: int, dimension: int) -> bool {
    p < half_size || p > dimension - half_size
}

/// The component `d` after the test of position `p` against one axis.
pub open spec fn reflect_axis(d: int, p: int, half_size: int, dimension: int) -> int {
    if outside(p, half_size, dimension) {
        -d
    } else {
        d
    }
}

/// Either axis of `pos` lies outside the arena shrunk by `half_size`.
pub open spec fn hits_wall(pos: Vector, half_size: int, arena: Arena) -> bool {
    outside(pos.x as int, half_size, arena.width as int) || outside(
        pos.y as int,
        half_size,
        arena.height as int,
    )
}

/// `dir` with the component of every axis on which `pos` is out of bounds negated.
pub open spec fn reflected(dir: Vector, pos: Vector, half_size: int, arena: Arena) -> (int, int) {
    (
        reflect_axis(dir.x as int, pos.x as int, half_size, arena.width as int),
        reflect_axis(dir.y as int, pos.y as int, half_size, arena.height as int),
    )
}

/// A direction may be reflected without leaving the range of `i64`.
pub open spec fn negatable(dir: Vector) -> bool {
    dir.x > i64::MIN && dir.y > i64::MIN
}

/// Negates each component of `dir` whose axis of `pos` is out of bounds;
/// `r.1` tells whether any was.
pub fn reflect(dir: Vector, pos: Vector, half_size: u32, arena: Arena) -> (r: (Vector, bool))
    requires
        negatable(dir),
    ensures
        (r.0.x as int, r.0.y as int) == reflected(dir, pos, half_size as int, arena),
        r.1 == hits_wall(pos, half_size as int, arena),
        r.0.norm2() == dir.norm2(),
{
    let lo: i64 = half_size as i64;
    let x_max: i64 = arena.width as i64 - lo;
    let y_max: i64 = arena.height as i64 - lo;
    let mut d: Vector = dir;
    let mut changed: bool = false;
    if pos.x < lo || pos.x > x_max {
        d.x = -d.x;
        changed = true;
    }
    if pos.y < lo || pos.y > y_max {
        d.y = -d.y;
        changed = true;
    }
    assert(d.x * d.x == dir.x * dir.x) by (nonlinear_arith)
        requires
            d.x == dir.x || d.x == -dir.x,
    ;
    assert(d.y * d.y == dir.y * dir.y) by (nonlinear_arith)
        requires
            d.y == dir.y || d.y == -dir.y,
    ;
    (d, changed)
}

/// The enemies of `after` have directions of the squared lengths of those of
/// `before`, one for one.
pub open spec fn lengths_kept(before: Seq<Enemy>, after: Seq<Enemy>) -> bool {
    &&& after.len() == before.len()
    &&& forall|i: int|
        0 <= i < before.len() ==> #[trigger] after[i].direction.norm2()
            == before[i].direction.norm2()
}

} // verus!
