use vstd::arithmetic::mul::lemma_mul_upper_bound;
use vstd::prelude::*;

use crate::geometry::{Vector, DIRECTION_SCALE, min_unit_norm2, normalize, normalized_component};
use crate::motion::{Arena, NoArenaError};
use crate::world::{Enemy, Player};

verus! {

/// The number of values of a `u32`: a draw `r` stands for the fraction
/// `r / DRAW_RANGE` of `[0, 1)`.
pub const DRAW_RANGE: u64 = 4_294_967_296;

/// The draw `r` mapped onto `[0, bound)`: `bound * r / DRAW_RANGE`, rounded down.
pub open spec fn scaled(r: int, bound: int) -> int {
    r * bound / (DRAW_RANGE as int)
}

/// The centre of the arena, rounded down.
pub open spec fn arena_center(arena: Arena) -> Vector {
    Vector { x: (arena.width / 2) as i64, y: (arena.height / 2) as i64 }
}

/// `pos` lies in `[0, width) x [0, height)`, or on 0 along an empty dimension.
pub open spec fn in_spawn_area(pos: Vector, arena: Arena) -> bool {
    &&& 0 <= pos.x && (pos.x < arena.width || pos.x == 0)
    &&& 0 <= pos.y && (pos.y < arena.height || pos.y == 0)
}

/// Relies on `rand::random::<u32>`: a value of the thread-local generator, of
/// which nothing is known.
#[verifier::external_body]
fn random_u32() -> (r: u32) {
    rand::random::<u32>()
}

/// Maps the draw `r` onto `[0, bound)`.
pub fn scale_draw(r: u32, bound: u32) -> (s: u32)
    ensures
        s == scaled(r as int, bound as int),
        s < bound || (bound == 0 && s == 0),
{
    proof {
        lemma_mul_upper_bound(r as int, u32::MAX as int, bound as int, u32::MAX as int);
        vstd::arithmetic::div_mod::lemma_div_pos_is_pos(r * bound, DRAW_RANGE as int);
        if bound > 0 {
            assert(r * bound < DRAW_RANGE * bound) by (nonlinear_arith)
                requires
                    r < DRAW_RANGE,
                    bound > 0,
            ;
            vstd::arithmetic::div_mod::lemma_div_is_ordered(r * bound, DRAW_RANGE * bound - 1, DRAW_RANGE as int);
            vstd::arithmetic::div_mod::lemma_fundamental_div_mod(DRAW_RANGE * bound - 1, DRAW_RANGE as int);
            vstd::arithmetic::div_mod::lemma_mod_bound(DRAW_RANGE * bound - 1, DRAW_RANGE as int);
            assert((DRAW_RANGE * bound - 1) / (DRAW_RANGE as int) < bound) by (nonlinear_arith)
                requires
                    DRAW_RANGE * bound - 1 == DRAW_RANGE * ((DRAW_RANGE * bound - 1) / (DRAW_RANGE as int)) + (DRAW_RANGE * bound - 1) % (DRAW_RANGE as int),
                    (DRAW_RANGE * bound - 1) % (DRAW_RANGE as int) >= 0,
                    DRAW_RANGE > 0,
            ;
        } else {
            assert(r * bound == 0) by (nonlinear_arith)
                requires
                    bound == 0,
            ;
        }
    }
    ((r as u64) * (bound as u64) / DRAW_RANGE) as u32
}

fn center(arena: Arena) -> (c: Vector)
    ensures
        c == arena_center(arena),
{
    Vector { x: (arena.width / 2) as i64, y: (arena.height / 2) as i64 }
}

/// Places the player at the centre of the arena; fails when its bounds are
/// unavailable.
pub fn spawn_player(bounds: Result<Arena, NoArenaError>) -> (r: Result<Player, NoArenaError>)
    ensures
        r is Err <==> bounds is Err,
        bounds matches Ok(arena) ==> r == Ok::<Player, NoArenaError>(
            Player { position: arena_center(arena) },
        ),
{
    match bounds {
        Ok(arena) => Ok(Player { position: center(arena) }),
        Err(e) => Err(e),
    }
}

/// The camera's position: the centre of the arena; fails when its bounds are
/// unavailable.
pub fn spawn_camera(bounds: Result<Arena, NoArenaError>) -> (r: Result<Vector, NoArenaError>)
    ensures
        r is Err <==> bounds is Err,
        bounds matches Ok(arena) ==> r == Ok::<Vector, NoArenaError>(arena_center(arena)),
{
    match bounds {
        Ok(arena) => Ok(center(arena)),
        Err(e) => Err(e),
    }
}

/// `e` is the enemy made from four draws: its position is `(rx, ry)` mapped
/// onto the arena; its direction is `(rdx, rdy)` normalized, or the unit
/// vector along `x` when both are zero.
pub open spec fn drawn_enemy(e: Enemy, arena: Arena, rx: int, ry: int, rdx: int, rdy: int) -> bool {
    &&& e.position.x == scaled(rx, arena.width as int)
    &&& e.position.y == scaled(ry, arena.height as int)
    &&& if rdx == 0 && rdy == 0 {
        e.direction == Vector { x: DIRECTION_SCALE, y: 0 }
    } else {
        normalized_component(rdx, rdy, e.direction.x as int) && normalized_component(
            rdy,
            rdx,
            e.direction.y as int,
        )
    }
}

/// The enemy made from four draws; see `drawn_enemy`.
pub fn enemy_from_draws(arena: Arena, rx: u32, ry: u32, rdx: u32, rdy: u32) -> (e: Enemy)
    ensures
        drawn_enemy(e, arena, rx as int, ry as int, rdx as int, rdy as int),
        in_spawn_area(e.position, arena),
        spawned_direction(e.direction),
{
    let x: u32 = scale_draw(rx, arena.width);
    let y: u32 = scale_draw(ry, arena.height);
    let direction: Vector = if rdx == 0 && rdy == 0 {
        let d = Vector { x: DIRECTION_SCALE, y: 0 };
        assert(d.norm2() == 1_152_921_504_606_846_976int) by (nonlinear_arith)
            requires
                d.x == 1_073_741_824,
                d.y == 0,
        ;
        d
    } else {
        normalize(rdx, rdy)
    };
    Enemy { position: Vector { x: x as i64, y: y as i64 }, direction }
}

/// A direction as spawned: non-negative components, and unit length within
/// `f32::EPSILON`, never longer.
pub open spec fn spawned_direction(d: Vector) -> bool {
    &&& d.x >= 0 && d.y >= 0
    &&& min_unit_norm2() <= d.norm2() <= DIRECTION_SCALE * DIRECTION_SCALE
}

/// Scatters `count` enemies over the arena with random positions and
/// directions (see `enemy_from_draws`); fails when its bounds are unavailable.
pub fn spawn_enemies(bounds: Result<Arena, NoArenaError>, count: usize) -> (r: Result<
    Vec<Enemy>,
    NoArenaError,
>)
    ensures
        r is Err <==> bounds is Err,
        r matches Ok(enemies) ==> bounds matches Ok(arena) && enemies@.len() == count && forall|
            i: int,
        |
            0 <= i < count ==> in_spawn_area(#[trigger] enemies@[i].position, arena)
                && spawned_direction(enemies@[i].direction) && exists|
                rx: u32,
                ry: u32,
                rdx: u32,
                rdy: u32,
            | drawn_enemy(enemies@[i], arena, rx as int, ry as int, rdx as int, rdy as int),
{
    let arena: Arena = match bounds {
        Ok(a) => a,
        Err(e) => {
            return Err(e);
        },
    };
    let mut enemies: Vec<Enemy> = Vec::new();
    let mut i: usize = 0;
    while i < count
        invariant
            0 <= i <= count,
            enemies@.len() == i,
            forall|j: int|
                0 <= j < i ==> in_spawn_area(#[trigger] enemies@[j].position, arena)
                    && spawned_direction(enemies@[j].direction) && exists|
                    rx: u32,
                    ry: u32,
                    rdx: u32,
                    rdy: u32,
                | drawn_enemy(enemies@[j], arena, rx as int, ry as int, rdx as int, rdy as int),
        decreases count - i,
    {
        let rx: u32 = random_u32();
        let ry: u32 = random_u32();
        let rdx: u32 = random_u32();
        let rdy: u32 = random_u32();
        let e: Enemy = enemy_from_draws(arena, rx, ry, rdx, rdy);
        enemies.push(e);
        assert(drawn_enemy(enemies@[i as int], arena, rx as int, ry as int, rdx as int, rdy as int));
        i = i + 1;
    }
    Ok(enemies)
}

} // verus!
