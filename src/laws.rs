use vstd::prelude::*;

use crate::geometry::{Vector, DIAGONAL, DIRECTION_SCALE, min_unit_norm2, near_unit};
use crate::motion::{Arena, Controls, lengths_kept, confined, hits_wall, outside, reflect_axis, reflected};
use crate::spawn::spawned_direction;
use crate::world::{Enemy, input_direction, lemma_input_direction_near_unit, wall_hits_listed};

verus! {

/// The squared length of a pair of components.
pub open spec fn norm2_of(d: (int, int)) -> int {
    d.0 * d.0 + d.1 * d.1
}

/// One reflection test against the arena, the position tested and the half size.
pub struct WallTest {
    pub position: Vector,
    pub half_size: u32,
    pub arena: Arena,
}

/// The direction `d` after each test of `tests` in turn.
pub open spec fn reflected_through(d: (int, int), tests: Seq<WallTest>) -> (int, int)
    decreases tests.len(),
{
    if tests.len() == 0 {
        d
    } else {
        let t = tests[0];
        reflected_through(
            (
                reflect_axis(d.0, t.position.x as int, t.half_size as int, t.arena.width as int),
                reflect_axis(d.1, t.position.y as int, t.half_size as int, t.arena.height as int),
            ),
            tests.subrange(1, tests.len() as int),
        )
    }
}

/// A reflection keeps the length of a direction exactly: it only negates
/// components.
pub proof fn lemma_reflection_keeps_length(dir: Vector, pos: Vector, half_size: u32, arena: Arena)
    ensures
        norm2_of(reflected(dir, pos, half_size as int, arena)) == dir.norm2(),
{
    let r = reflected(dir, pos, half_size as int, arena);
    assert(r.0 * r.0 == dir.x * dir.x) by (nonlinear_arith)
        requires
            r.0 == dir.x || r.0 == -dir.x,
    ;
    assert(r.1 * r.1 == dir.y * dir.y) by (nonlinear_arith)
        requires
            r.1 == dir.y || r.1 == -dir.y,
    ;
}

/// Any number of reflections keeps the length of a direction exactly, so a
/// direction spawned near unit length stays near unit length.
pub proof fn lemma_reflections_keep_length(dir: Vector, tests: Seq<WallTest>)
    ensures
        norm2_of(reflected_through((dir.x as int, dir.y as int), tests)) == dir.norm2(),
        near_unit(dir) ==> {
            let r = reflected_through((dir.x as int, dir.y as int), tests);
            near_unit(Vector { x: r.0 as i64, y: r.1 as i64 })
        },
    decreases tests.len(),
{
    lemma_pairs_keep_length((dir.x as int, dir.y as int), tests);
    let r = reflected_through((dir.x as int, dir.y as int), tests);
    if near_unit(dir) {
        assert(-DIRECTION_SCALE <= r.0 <= DIRECTION_SCALE && -DIRECTION_SCALE <= r.1 <= DIRECTION_SCALE) by (nonlinear_arith)
            requires
                r.0 * r.0 + r.1 * r.1 <= DIRECTION_SCALE * DIRECTION_SCALE,
                DIRECTION_SCALE > 0,
        ;
    }
}

proof fn lemma_pairs_keep_length(d: (int, int), tests: Seq<WallTest>)
    ensures
        norm2_of(reflected_through(d, tests)) == norm2_of(d),
    decreases tests.len(),
{
    if tests.len() > 0 {
        let t = tests[0];
        let e = (
            reflect_axis(d.0, t.position.x as int, t.half_size as int, t.arena.width as int),
            reflect_axis(d.1, t.position.y as int, t.half_size as int, t.arena.height as int),
        );
        assert(e.0 * e.0 == d.0 * d.0) by (nonlinear_arith)
            requires
                e.0 == d.0 || e.0 == -d.0,
        ;
        assert(e.1 * e.1 == d.1 * d.1) by (nonlinear_arith)
            requires
                e.1 == d.1 || e.1 == -d.1,
        ;
        lemma_pairs_keep_length(e, tests.subrange(1, tests.len() as int));
    }
}

/// Over any run of ticks, each made of `enemy_movement` and
/// `update_enemy_direction` (whose ensures give `lengths_kept` for every call),
/// each enemy's direction keeps the squared length it had at the start, however
/// many reflections occurred; so enemies spawned with unit-length directions
/// keep unit length within `f32::EPSILON`.
pub proof fn lemma_lengths_kept_over_ticks(states: Seq<Seq<Enemy>>)
    requires
        states.len() > 0,
        forall|k: int|
            0 <= k < states.len() - 1 ==> lengths_kept(#[trigger] states[k], states[k + 1]),
    ensures
        lengths_kept(states[0], states.last()),
        (forall|i: int| 0 <= i < states[0].len() ==> spawned_direction(#[trigger] states[0][i].direction))
            ==> forall|i: int|
            0 <= i < states.last().len() ==> min_unit_norm2()
                <= #[trigger] states.last()[i].direction.norm2() <= DIRECTION_SCALE
                * DIRECTION_SCALE,
    decreases states.len(),
{
    let n = states.len();
    if n == 1 {
        assert(lengths_kept(states[0], states[0]));
    } else {
        let prefix = states.subrange(0, n - 1);
        assert forall|k: int| 0 <= k < prefix.len() - 1 implies lengths_kept(
            #[trigger] prefix[k],
            prefix[k + 1],
        ) by {
            assert(lengths_kept(states[k], states[k + 1]));
        }
        lemma_lengths_kept_over_ticks(prefix);
        assert(lengths_kept(states[n - 2], states[n - 1]));
        assert(prefix.last() == states[n - 2]);
        let first = states[0];
        let last = states.last();
        assert forall|i: int| 0 <= i < first.len() implies #[trigger] last[i].direction.norm2()
            == first[i].direction.norm2() by {
            assert(prefix.last()[i].direction.norm2() == first[i].direction.norm2());
            assert(last[i].direction.norm2() == states[n - 2][i].direction.norm2());
        }
    }
    if forall|i: int| 0 <= i < states[0].len() ==> spawned_direction(#[trigger] states[0][i].direction) {
        assert forall|i: int| 0 <= i < states.last().len() implies min_unit_norm2()
            <= #[trigger] states.last()[i].direction.norm2() <= DIRECTION_SCALE * DIRECTION_SCALE by {
            assert(spawned_direction(states[0][i].direction));
        }
    }
}

/// Holding Up and Right alone gives a direction with equal, positive
/// components and unit length within `f32::EPSILON`, never longer: its
/// squared length lies in `[min_unit_norm2(), DIRECTION_SCALE^2]`.
pub proof fn lemma_diagonal_input(controls: Controls)
    requires
        controls.up && controls.right && !controls.down && !controls.left,
    ensures
        input_direction(controls).x == input_direction(controls).y,
        input_direction(controls).x > 0,
        min_unit_norm2() <= input_direction(controls).norm2() <= DIRECTION_SCALE
            * DIRECTION_SCALE,
{
    lemma_input_direction_near_unit(controls);
    let d = input_direction(controls);
    assert(d.x == DIAGONAL && d.y == DIAGONAL);
}

/// After confinement the player lies in `[half_size, width - half_size] x
/// [half_size, height - half_size]`, whatever its position before, provided
/// the arena is at least twice the half size along each axis.
pub proof fn lemma_confinement_in_bounds(pos: Vector, half_size: u32, arena: Arena)
    requires
        arena.width >= 2 * half_size,
        arena.height >= 2 * half_size,
    ensures
        half_size <= confined(pos, half_size as int, arena).x <= arena.width - half_size,
        half_size <= confined(pos, half_size as int, arena).y <= arena.height - half_size,
{
}

/// An enemy left of the arena's inner bound has its horizontal direction
/// negated, and its vertical one kept when its height is in bounds.
pub proof fn lemma_left_wall_flips_x(dir: Vector, pos: Vector, half_size: u32, arena: Arena)
    requires
        pos.x < half_size,
    ensures
        reflected(dir, pos, half_size as int, arena).0 == -dir.x,
        !outside(pos.y as int, half_size as int, arena.height as int) ==> reflected(
            dir,
            pos,
            half_size as int,
            arena,
        ).1 == dir.y,
{
}

/// A list of wall hits names each enemy that went out of bounds on either axis
/// exactly once, corners included, and no other enemy.
pub proof fn lemma_one_event_per_enemy(
    hits: Seq<usize>,
    enemies: Seq<Enemy>,
    half_size: u32,
    arena: Arena,
    i: usize,
)
    requires
        wall_hits_listed(hits, enemies, half_size as int, arena),
        0 <= i < enemies.len(),
    ensures
        hits_wall(enemies[i as int].position, half_size as int, arena) ==> exists|k: int|
            0 <= k < hits.len() && hits[k] == i,
        forall|k: int, l: int|
            0 <= k < hits.len() && 0 <= l < hits.len() && hits[k] == i && hits[l] == i ==> k == l,
        !hits_wall(enemies[i as int].position, half_size as int, arena) ==> forall|k: int|
            0 <= k < hits.len() ==> hits[k] != i,
{
    assert forall|k: int, l: int|
        0 <= k < hits.len() && 0 <= l < hits.len() && hits[k] == i && hits[l] == i implies k == l by {
        if k < l {
            assert(hits[k] < hits[l]);
        } else if l < k {
            assert(hits[l] < hits[k]);
        }
    }
    if hits_wall(enemies[i as int].position, half_size as int, arena) {
        assert(hits.contains(i));
        let k = choose|k: int| 0 <= k < hits.len() && hits[k] == i;
        assert(hits[k] == i);
    }
    assert forall|k: int| 0 <= k < hits.len() && hits[k] == i implies hits_wall(
        enemies[i as int].position,
        half_size as int,
        arena,
    ) by {
        assert(hits_wall(enemies[hits[k] as int].position, half_size as int, arena));
    }
}

} // verus!
