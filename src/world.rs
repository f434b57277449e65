use vstd::prelude::*;

use crate::geometry::{Vector, DIAGONAL, DIRECTION_SCALE, min_unit_norm2, near_unit};
use crate::motion::{
    Arena, Controls, NoArenaError, lengths_kept, confine, confined, hits_wall, integrate, move_fits, moved,
    negatable, reflect, reflected,
};

verus! {

/// The player's speed, in pixels per second.
pub const PLAYER_SPEED: u32 = 300;

/// The player's side, in subpixels (16 pixels).
pub const PLAYER_SIZE: u32 = 1_048_576;

/// How many enemies are spawned.
pub const ENEMY_COUNT: usize = 3;

/// An enemy's speed, in pixels per second.
pub const ENEMY_SPEED: u32 = 300;

/// An enemy's side, in subpixels (16 pixels).
pub const ENEMY_SIZE: u32 = 1_048_576;

/// The player-controlled entity.
#[derive(Clone, Copy, Debug, PartialEq, Eq, Structural)]
pub struct Player {
    pub position: Vector,
}

/// An autonomous entity moving along `direction` and bouncing off the walls.
#[derive(Clone, Copy, Debug, PartialEq, Eq, Structural)]
pub struct Enemy {
    pub position: Vector,
    pub direction: Vector,
}

/// Every entity of the simulation: at most one player, and the enemies.
pub struct World {
    pub player: Option<Player>,
    pub enemies: Vec<Enemy>,
}

/// The net input on one axis: `+1`, `-1` or `0`.
pub open spec fn axis_input(positive: bool, negative: bool) -> int {
    (if positive { 1int } else { 0int }) - (if negative { 1int } else { 0int })
}

/// The sum of the held controls' unit vectors, scaled to unit length when it is
/// not zero: axis-aligned sums have length `DIRECTION_SCALE`, diagonal ones have
/// components of `DIAGONAL`.
pub open spec fn input_direction(c: Controls) -> Vector {
    let sx = axis_input(c.right, c.left);
    let sy = axis_input(c.up, c.down);
    if sx != 0 && sy != 0 {
        Vector { x: (sx * DIAGONAL) as i64, y: (sy * DIAGONAL) as i64 }
    } else {
        Vector { x: (sx * DIRECTION_SCALE) as i64, y: (sy * DIRECTION_SCALE) as i64 }
    }
}

fn axis_value(positive: bool, negative: bool) -> (r: i64)
    ensures
        r == axis_input(positive, negative),
{
    let mut v: i64 = 0;
    if positive {
        v = v + 1;
    }
    if negative {
        v = v - 1;
    }
    v
}

/// The direction of held controls is zero or of unit length within
/// `f32::EPSILON`, and zero only when the controls cancel out.
pub proof fn lemma_input_direction_near_unit(c: Controls)
    ensures
        near_unit(input_direction(c)),
        (axis_input(c.right, c.left) != 0 || axis_input(c.up, c.down) != 0) ==> min_unit_norm2()
            <= input_direction(c).norm2(),
{
    let d = input_direction(c);
    let sx = axis_input(c.right, c.left);
    let sy = axis_input(c.up, c.down);
    if sx != 0 && sy != 0 {
        assert(d.norm2() == 1_152_921_501_588_030_752int) by (nonlinear_arith)
            requires
                d.x == 759_250_124 || d.x == -759_250_124,
                d.y == 759_250_124 || d.y == -759_250_124,
        ;
    } else {
        assert(d.norm2() == 0 || d.norm2() == 1_152_921_504_606_846_976int) by (nonlinear_arith)
            requires
                (d.x == 0 && (d.y == 0 || d.y == 1_073_741_824 || d.y == -1_073_741_824)) || (d.y == 0 && (
                d.x == 1_073_741_824 || d.x == -1_073_741_824)),
                sx != 0 || sy != 0 ==> (d.x != 0 || d.y != 0),
        ;
        if sx != 0 || sy != 0 {
            assert(d.x != 0 || d.y != 0);
            assert(d.norm2() == 1_152_921_504_606_846_976int) by (nonlinear_arith)
                requires
                    (d.x == 0 && (d.y == 1_073_741_824 || d.y == -1_073_741_824)) || (d.y == 0 && (d.x
                        == 1_073_741_824 || d.x == -1_073_741_824)),
            ;
        }
    }
}

/// The player's direction for the held controls; see `input_direction`.
pub fn player_direction(controls: Controls) -> (r: Vector)
    ensures
        r == input_direction(controls),
        near_unit(r),
{
    proof {
        lemma_input_direction_near_unit(controls);
    }
    let sx: i64 = axis_value(controls.right, controls.left);
    let sy: i64 = axis_value(controls.up, controls.down);
    if sx != 0 && sy != 0 {
        Vector { x: sx * DIAGONAL, y: sy * DIAGONAL }
    } else {
        Vector { x: sx * DIRECTION_SCALE, y: sy * DIRECTION_SCALE }
    }
}

/// Moves the player, if there is one, along the held controls at `speed`
/// pixels per second for `elapsed_us` microseconds.
pub fn player_movement(world: &mut World, controls: Controls, speed: u32, elapsed_us: u32)
    requires
        old(world).player matches Some(p) ==> move_fits(
            p.position,
            input_direction(controls),
            speed as int,
            elapsed_us as int,
        ),
    ensures
        final(world).enemies@ == old(world).enemies@,
        old(world).player is None ==> final(world).player is None,
        old(world).player matches Some(p) ==> final(world).player matches Some(q) && (
        q.position.x as int,
        q.position.y as int,
        ) == moved(p.position, input_direction(controls), speed as int, elapsed_us as int),
{
    match world.player {
        Some(p) => {
            let dir: Vector = player_direction(controls);
            world.player = Some(Player { position: integrate(p.position, dir, speed, elapsed_us) });
        },
        None => {},
    }
}

/// Clamps the player into the arena shrunk by `half_size`. Without a player
/// there is nothing to do and the bounds are not read; with one, fails,
/// changing nothing, when the arena's bounds are unavailable.
pub fn confine_player_movement(
    world: &mut World,
    bounds: Result<Arena, NoArenaError>,
    half_size: u32,
) -> (r: Result<(), NoArenaError>)
    ensures
        final(world).enemies@ == old(world).enemies@,
        old(world).player is None ==> r is Ok && final(world).player is None,
        old(world).player is Some ==> (r is Err <==> bounds is Err),
        r is Err ==> final(world).player == old(world).player,
        old(world).player matches Some(p) ==> bounds matches Ok(arena) ==> final(world).player
            == Some(Player { position: confined(p.position, half_size as int, arena) }),
{
    match world.player {
        Some(p) => {
            let arena: Arena = match bounds {
                Ok(a) => a,
                Err(e) => {
                    return Err(e);
                },
            };
            world.player = Some(Player { position: confine(p.position, half_size, arena) });
            Ok(())
        },
        None => Ok(()),
    }
}

/// Moves every enemy along its direction at `speed` for `elapsed_us`.
pub fn enemy_movement(world: &mut World, speed: u32, elapsed_us: u32)
    requires
        forall|i: int|
            0 <= i < old(world).enemies@.len() ==> move_fits(
                #[trigger] old(world).enemies@[i].position,
                old(world).enemies@[i].direction,
                speed as int,
                elapsed_us as int,
            ),
    ensures
        final(world).player == old(world).player,
        final(world).enemies@.len() == old(world).enemies@.len(),
        lengths_kept(old(world).enemies@, final(world).enemies@),
        forall|i: int|
            0 <= i < old(world).enemies@.len() ==> {
                let e = #[trigger] old(world).enemies@[i];
                let f = final(world).enemies@[i];
                &&& f.direction == e.direction
                &&& (f.position.x as int, f.position.y as int) == moved(
                    e.position,
                    e.direction,
                    speed as int,
                    elapsed_us as int,
                )
            },
{
    let n: usize = world.enemies.len();
    let mut i: usize = 0;
    while i < n
        invariant
            0 <= i <= n,
            n == old(world).enemies@.len(),
            world.player == old(world).player,
            world.enemies@.len() == n,
            forall|j: int|
                0 <= j < n ==> move_fits(
                    #[trigger] old(world).enemies@[j].position,
                    old(world).enemies@[j].direction,
                    speed as int,
                    elapsed_us as int,
                ),
            forall|j: int| i <= j < n ==> #[trigger] world.enemies@[j] == old(world).enemies@[j],
            forall|j: int|
                0 <= j < i ==> {
                    let e = #[trigger] old(world).enemies@[j];
                    let f = world.enemies@[j];
                    &&& f.direction == e.direction
                    &&& (f.position.x as int, f.position.y as int) == moved(
                        e.position,
                        e.direction,
                        speed as int,
                        elapsed_us as int,
                    )
                },
        decreases n - i,
    {
        let e: Enemy = world.enemies[i];
        let position: Vector = integrate(e.position, e.direction, speed, elapsed_us);
        world.enemies.set(i, Enemy { position, direction: e.direction });
        i = i + 1;
    }
    assert(lengths_kept(old(world).enemies@, world.enemies@)) by {
        assert forall|i: int| 0 <= i < n implies #[trigger] world.enemies@[i].direction.norm2()
            == old(world).enemies@[i].direction.norm2() by {}
    }
}

/// The enemies that hit a wall: the indices in `hits`, in increasing order,
/// are exactly those of the enemies of `enemies` for which `hits_wall` holds.
pub open spec fn wall_hits_listed(
    hits: Seq<usize>,
    enemies: Seq<Enemy>,
    half_size: int,
    arena: Arena,
) -> bool {
    &&& forall|k: int, l: int| 0 <= k < l < hits.len() ==> hits[k] < hits[l]
    &&& forall|k: int|
        0 <= k < hits.len() ==> hits[k] < enemies.len() && hits_wall(
            #[trigger] enemies[hits[k] as int].position,
            half_size,
            arena,
        )
    &&& forall|i: int|
        0 <= i < enemies.len() && hits_wall(#[trigger] enemies[i].position, half_size, arena)
            ==> hits.contains(i as usize)
}

/// Reflects every enemy whose position lies outside the arena shrunk by
/// `half_size` on some axis, negating the direction component of each such
/// axis, and returns one wall-hit event per such enemy: its index. Fails,
/// changing nothing, when the arena's bounds are unavailable.
pub fn update_enemy_direction(
    world: &mut World,
    bounds: Result<Arena, NoArenaError>,
    half_size: u32,
) -> (r: Result<Vec<usize>, NoArenaError>)
    requires
        forall|i: int|
            0 <= i < old(world).enemies@.len() ==> negatable(
                #[trigger] old(world).enemies@[i].direction,
            ),
    ensures
        r is Err <==> bounds is Err,
        final(world).player == old(world).player,
        bounds is Err ==> final(world).enemies@ == old(world).enemies@,
        final(world).enemies@.len() == old(world).enemies@.len(),
        lengths_kept(old(world).enemies@, final(world).enemies@),
        bounds matches Ok(arena) ==> forall|i: int|
            0 <= i < old(world).enemies@.len() ==> {
                let e = #[trigger] old(world).enemies@[i];
                let f = final(world).enemies@[i];
                &&& f.position == e.position
                &&& (f.direction.x as int, f.direction.y as int) == reflected(
                    e.direction,
                    e.position,
                    half_size as int,
                    arena,
                )
            },
        r matches Ok(hits) ==> bounds matches Ok(arena) && wall_hits_listed(
            hits@,
            old(world).enemies@,
            half_size as int,
            arena,
        ),
{
    let arena: Arena = match bounds {
        Ok(a) => a,
        Err(e) => {
            assert(lengths_kept(old(world).enemies@, world.enemies@));
            return Err(e);
        },
    };
    let n: usize = world.enemies.len();
    let mut hits: Vec<usize> = Vec::new();
    let mut i: usize = 0;
    while i < n
        invariant
            0 <= i <= n,
            n == old(world).enemies@.len(),
            world.player == old(world).player,
            world.enemies@.len() == n,
            forall|j: int|
                0 <= j < n ==> negatable(#[trigger] old(world).enemies@[j].direction),
            forall|j: int| i <= j < n ==> #[trigger] world.enemies@[j] == old(world).enemies@[j],
            forall|j: int|
                0 <= j < i ==> {
                    let e = #[trigger] old(world).enemies@[j];
                    let f = world.enemies@[j];
                    &&& f.position == e.position
                    &&& f.direction.norm2() == e.direction.norm2()
                    &&& (f.direction.x as int, f.direction.y as int) == reflected(
                        e.direction,
                        e.position,
                        half_size as int,
                        arena,
                    )
                },
            forall|k: int| 0 <= k < hits@.len() ==> hits@[k] < i,
            wall_hits_listed(hits@, old(world).enemies@.subrange(0, i as int), half_size as int, arena),
        decreases n - i,
    {
        let e: Enemy = world.enemies[i];
        let (direction, hit) = reflect(e.direction, e.position, half_size, arena);
        world.enemies.set(i, Enemy { position: e.position, direction });
        let ghost before = hits@;
        if hit {
            hits.push(i);
        }
        proof {
            let old_e = old(world).enemies@;
            let prefix = old_e.subrange(0, i as int + 1);
            assert forall|k: int| 0 <= k < hits@.len() implies hits@[k] < prefix.len()
                && hits_wall(#[trigger] prefix[hits@[k] as int].position, half_size as int, arena) by {
                if k < before.len() {
                    assert(old_e.subrange(0, i as int)[hits@[k] as int] == prefix[hits@[k] as int]);
                }
            }
            assert forall|j: int| 0 <= j < prefix.len() && hits_wall(
                #[trigger] prefix[j].position, half_size as int, arena)
                implies hits@.contains(j as usize) by {
                if j < i {
                    assert(old_e.subrange(0, i as int)[j] == prefix[j]);
                    let k = choose|k: int| 0 <= k < before.len() && before[k] == j as usize;
                    assert(hits@[k] == j as usize);
                } else {
                    assert(hits@[hits@.len() - 1] == i);
                }
            }
        }
        i = i + 1;
    }
    assert(old(world).enemies@.subrange(0, n as int) == old(world).enemies@);
    assert(lengths_kept(old(world).enemies@, world.enemies@)) by {
        assert forall|i: int| 0 <= i < n implies #[trigger] world.enemies@[i].direction.norm2()
            == old(world).enemies@[i].direction.norm2() by {}
    }
    Ok(hits)
}

} // verus!
