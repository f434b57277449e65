use arena_sim::geometry::{
    isqrt, normalize, Vector, DIAGONAL, DIRECTION_SCALE, SUBPIXELS_PER_PIXEL, UNIT_TOLERANCE,
};
use arena_sim::monsters::{spawn_monsters, MonsterLibrary};
use arena_sim::motion::{
    axis_displacement, confine, integrate, reflect, Arena, Controls, NoArenaError,
};
use arena_sim::spawn::{enemy_from_draws, scale_draw, spawn_camera, spawn_enemies, spawn_player};
use arena_sim::world::{
    confine_player_movement, enemy_movement, player_direction, player_movement,
    update_enemy_direction, Enemy, Player, World, ENEMY_COUNT,
};

const PX: i64 = 65_536;
const ARENA: Arena = Arena { width: 800 * 65_536, height: 600 * 65_536 };
const HALF: u32 = 8 * 65_536;
const UNIT: i64 = 1_073_741_824;

fn controls(up: bool, down: bool, left: bool, right: bool) -> Controls {
    Controls { up, down, left, right }
}

fn v(x: i64, y: i64) -> Vector {
    Vector { x, y }
}

fn norm2(v: Vector) -> i128 {
    (v.x as i128) * (v.x as i128) + (v.y as i128) * (v.y as i128)
}

/// Unit length within `f32::EPSILON`, never longer.
fn is_unit(d: Vector) -> bool {
    let s = DIRECTION_SCALE as i128;
    let t = UNIT_TOLERANCE as i128;
    norm2(d) <= s * s && norm2(d) >= (s - t) * (s - t)
}

#[test]
fn player_moves_right_and_stays_unconfined() {
    assert_eq!(SUBPIXELS_PER_PIXEL, PX);
    let mut world = World { player: Some(Player { position: v(400 * PX, 300 * PX) }), enemies: vec![] };
    player_movement(&mut world, controls(false, false, false, true), 500, 100_000);
    assert_eq!(world.player, Some(Player { position: v(450 * PX, 300 * PX) }));
    assert_eq!(confine_player_movement(&mut world, Ok(ARENA), HALF), Ok(()));
    assert_eq!(world.player, Some(Player { position: v(450 * PX, 300 * PX) }));
}

#[test]
fn enemy_reflects_off_left_wall_once() {
    let d = normalize(3, 4);
    assert_eq!(d, v(644_245_094, 858_993_459));
    let mut world = World {
        player: None,
        enemies: vec![Enemy { position: v(2 * PX, 300 * PX), direction: v(-d.x, d.y) }],
    };
    let hits = update_enemy_direction(&mut world, Ok(ARENA), HALF).unwrap();
    assert_eq!(hits, vec![0]);
    assert_eq!(world.enemies[0].direction, d);
    assert_eq!(world.enemies[0].position, v(2 * PX, 300 * PX));
}

#[test]
fn diagonal_input_is_normalized() {
    let d = player_direction(controls(true, false, false, true));
    assert_eq!(d.x, d.y);
    assert!(d.x > 0);
    assert_eq!(d.x, DIAGONAL);
    assert!(is_unit(d));
    assert_eq!(d, normalize(1, 1));
}

#[test]
fn diagonal_movement_covers_speed_times_time() {
    let mut world = World { player: Some(Player { position: v(0, 0) }), enemies: vec![] };
    player_movement(&mut world, controls(true, false, false, true), 1000, 1_000_000);
    let p = world.player.unwrap().position;
    assert_eq!(p, v(46_340_949, 46_340_949));
    let travelled = (norm2(p) as f64).sqrt() / PX as f64;
    assert!(travelled <= 1000.0 && travelled > 1000.0 * (1.0 - f32::EPSILON as f64));
}

#[test]
fn axis_inputs_and_opposites() {
    assert_eq!(player_direction(controls(false, false, false, false)), v(0, 0));
    assert_eq!(player_direction(controls(true, true, true, true)), v(0, 0));
    assert_eq!(player_direction(controls(true, false, false, false)), v(0, UNIT));
    assert_eq!(player_direction(controls(false, true, true, true)), v(0, -UNIT));
    assert_eq!(player_direction(controls(false, true, true, false)), v(-759_250_124, -759_250_124));
}

#[test]
fn reflections_keep_direction_length() {
    let start = normalize(123_456, 654_321);
    assert!(is_unit(start));
    let mut world = World {
        player: None,
        enemies: vec![Enemy { position: v(400 * PX, 300 * PX), direction: start }],
    };
    let mut events = 0;
    for _ in 0..2_000 {
        enemy_movement(&mut world, 3_000, 16_667);
        events += update_enemy_direction(&mut world, Ok(ARENA), HALF).unwrap().len();
        assert_eq!(norm2(world.enemies[0].direction), norm2(start));
    }
    assert!(events > 0);
}

#[test]
fn confinement_clamps_into_bounds() {
    let cases = [
        (v(-5, -5), v(8 * PX, 8 * PX)),
        (v(900 * PX, 700 * PX), v(792 * PX, 592 * PX)),
        (v(8 * PX, 592 * PX), v(8 * PX, 592 * PX)),
        (v(8 * PX - 1, 592 * PX + 1), v(8 * PX, 592 * PX)),
        (v(i64::MIN, i64::MAX), v(8 * PX, 592 * PX)),
    ];
    for (before, after) in cases {
        assert_eq!(confine(before, HALF, ARENA), after);
    }
}

#[test]
fn confinement_without_arena_fails_and_keeps_player() {
    let p = Player { position: v(-1, -1) };
    let mut world = World { player: Some(p), enemies: vec![] };
    assert_eq!(confine_player_movement(&mut world, Err(NoArenaError::NoArena), HALF), Err(NoArenaError::NoArena));
    assert_eq!(world.player, Some(p));
    let mut empty = World { player: None, enemies: vec![] };
    assert_eq!(confine_player_movement(&mut empty, Ok(ARENA), HALF), Ok(()));
    assert_eq!(empty.player, None);
    assert_eq!(confine_player_movement(&mut empty, Err(NoArenaError::NoArena), HALF), Ok(()));
    assert_eq!(empty.player, None);
}

#[test]
fn left_wall_flips_only_x() {
    let (d, hit) = reflect(v(-300, -400), v(8 * PX - 1, 300 * PX), HALF, ARENA);
    assert_eq!(d, v(300, -400));
    assert!(hit);
    let (d, hit) = reflect(v(-300, -400), v(8 * PX, 592 * PX), HALF, ARENA);
    assert_eq!(d, v(-300, -400));
    assert!(!hit);
}

#[test]
fn corner_hit_emits_one_event() {
    let mut world = World {
        player: None,
        enemies: vec![
            Enemy { position: v(400 * PX, 300 * PX), direction: v(1, 1) },
            Enemy { position: v(799 * PX, 599 * PX), direction: v(600, 800) },
            Enemy { position: v(400 * PX, 599 * PX), direction: v(600, 800) },
        ],
    };
    let hits = update_enemy_direction(&mut world, Ok(ARENA), HALF).unwrap();
    assert_eq!(hits, vec![1, 2]);
    assert_eq!(world.enemies[0].direction, v(1, 1));
    assert_eq!(world.enemies[1].direction, v(-600, -800));
    assert_eq!(world.enemies[2].direction, v(600, -800));
}

#[test]
fn reflection_without_arena_fails_and_keeps_enemies() {
    let e = Enemy { position: v(-1, -1), direction: v(-5, 7) };
    let mut world = World { player: None, enemies: vec![e] };
    assert_eq!(update_enemy_direction(&mut world, Err(NoArenaError::NoArena), HALF), Err(NoArenaError::NoArena));
    assert_eq!(world.enemies, vec![e]);
}

#[test]
fn enemies_move_along_their_directions() {
    let mut world = World {
        player: None,
        enemies: vec![
            Enemy { position: v(10 * PX, 10 * PX), direction: v(-644_245_094, 858_993_459) },
            Enemy { position: v(0, 0), direction: v(0, -UNIT) },
        ],
    };
    enemy_movement(&mut world, 300, 1_000_000);
    assert_eq!(world.enemies[0].position, v(10 * PX - 11_796_479, 10 * PX + 15_728_639));
    assert_eq!(world.enemies[1].position, v(0, -300 * PX));
    assert_eq!(world.enemies[0].direction, v(-644_245_094, 858_993_459));
    enemy_movement(&mut world, 300, 1);
    assert_eq!(world.enemies[1].position, v(0, -300 * PX - 19));
}

#[test]
fn player_movement_without_player_is_noop() {
    let mut world = World { player: None, enemies: vec![] };
    player_movement(&mut world, controls(true, false, false, true), 300, 16_000);
    assert_eq!(world.player, None);
}

#[test]
fn displacement_truncates_toward_zero() {
    assert_eq!(axis_displacement(UNIT, 500, 100_000), 50 * PX as i128);
    assert_eq!(axis_displacement(-UNIT, 500, 100_000), -50 * PX as i128);
    assert_eq!(axis_displacement(-1, 1, 1), 0);
    assert_eq!(axis_displacement(-759_250_124, 300, 16_667), -231_709);
    assert_eq!(
        axis_displacement(i64::MIN, u32::MAX, u32::MAX),
        (i64::MIN as i128) * (u32::MAX as i128) * (u32::MAX as i128) / 16_384_000_000
    );
    assert_eq!(integrate(v(1, 2), v(759_250_124, -759_250_124), 300, 16_667), v(231_710, -231_707));
}

#[test]
fn square_roots_and_normalization() {
    assert_eq!(isqrt(0), 0);
    assert_eq!(isqrt(15), 3);
    assert_eq!(isqrt(16), 4);
    assert_eq!(isqrt(u64::MAX), 4_294_967_295);
    assert_eq!(normalize(3, 4), v(644_245_094, 858_993_459));
    assert_eq!(normalize(3, 0), v(UNIT, 0));
    assert_eq!(normalize(0, 0), v(0, 0));
    assert_eq!(normalize(1, 1), v(759_250_124, 759_250_124));
    assert_eq!(normalize(1, 1).x, DIAGONAL);
    assert_eq!(normalize(u32::MAX, u32::MAX), v(759_250_124, 759_250_124));
    assert_eq!(normalize(u32::MAX, 0), v(UNIT, 0));
    assert_eq!(normalize(123_456, 654_321), v(199_078_938, 1_055_125_149));
    assert!(is_unit(normalize(1, u32::MAX)));
}

#[test]
fn spawn_places_player_and_camera_at_centre() {
    assert_eq!(spawn_player(Ok(ARENA)), Ok(Player { position: v(400 * PX, 300 * PX) }));
    assert_eq!(spawn_player(Err(NoArenaError::NoArena)), Err(NoArenaError::NoArena));
    assert_eq!(spawn_camera(Ok(Arena { width: 5, height: 3 })), Ok(v(2, 1)));
    assert_eq!(spawn_camera(Err(NoArenaError::NoArena)), Err(NoArenaError::NoArena));
}

#[test]
fn spawned_enemies_are_inside_with_unit_directions() {
    let enemies = spawn_enemies(Ok(ARENA), ENEMY_COUNT).unwrap();
    assert_eq!(enemies.len(), ENEMY_COUNT);
    for e in &enemies {
        assert!(e.position.x >= 0 && e.position.x < 800 * PX);
        assert!(e.position.y >= 0 && e.position.y < 600 * PX);
        assert!(e.direction.x >= 0 && e.direction.y >= 0);
        assert!(is_unit(e.direction));
    }
    assert_eq!(spawn_enemies(Ok(ARENA), 0).unwrap().len(), 0);
    assert_eq!(spawn_enemies(Err(NoArenaError::NoArena), 3), Err(NoArenaError::NoArena));
}

#[test]
fn enemy_from_draws_maps_fractions() {
    let e = enemy_from_draws(ARENA, 1 << 31, 1 << 30, 1 << 31, 0);
    assert_eq!(e.position, v(400 * PX, 150 * PX));
    assert_eq!(e.direction, v(UNIT, 0));
    let tiny = enemy_from_draws(ARENA, 0, 0, 1, 1);
    assert_eq!(tiny.direction, v(759_250_124, 759_250_124));
    let zero = enemy_from_draws(ARENA, 0, 0, 0, 0);
    assert_eq!(zero.direction, v(UNIT, 0));
    let steep = enemy_from_draws(ARENA, u32::MAX, u32::MAX, 3, 4);
    assert_eq!(steep.direction, v(644_245_094, 858_993_459));
    assert_eq!(steep.position, v(800 * PX - 1, 600 * PX - 1));
    assert_eq!(scale_draw(u32::MAX, 800 * 65_536), 800 * 65_536 - 1);
    assert_eq!(scale_draw(0, 800_000), 0);
    assert_eq!(scale_draw(u32::MAX, 0), 0);
}

#[test]
fn monsters_roster() {
    let roster = spawn_monsters();
    assert_eq!(roster.len(), 3);
    assert_eq!(roster[0].0.name, "Xyor'dox");
    assert_eq!(roster[0].0.health, 10_000);
    assert_eq!(roster[0].1.monster_type, MonsterLibrary::VoidCreature);
    assert_eq!(roster[1].0.name, "Ghlorm");
    assert_eq!(roster[1].1.monster_type, MonsterLibrary::GiantBug);
    assert_eq!(roster[2].0.name, "Destroth");
    assert_eq!(roster[2].0.health, 4_444);
    assert_eq!(roster[2].1.monster_type, MonsterLibrary::Abomination);
}
