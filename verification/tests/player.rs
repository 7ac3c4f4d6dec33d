use endless_runner::geometry::Point;
use endless_runner::ground::GROUND_SCALE;
use endless_runner::model::{Ground, Player, Position, Scroller, World};
use endless_runner::player::{gravity_system, jump_system};
use endless_runner::stopwatch::Stopwatch;
use endless_runner::units::{GROUND_LENGTH, GROUND_Y, UNIT};
use endless_runner::world::setup;

fn ground_at(x: i64) -> Ground {
    Scroller {
        handle: 0,
        position: Position { translation: Point { x, y: GROUND_Y }, scale: GROUND_SCALE },
        movement_speed: 300,
        length: GROUND_LENGTH,
    }
}

fn standing() -> World {
    let mut world: World = setup();
    world.player.position.translation = Point { x: 0, y: GROUND_Y + 60 * UNIT };
    world.player.on_ground = true;
    world
}

fn jump_height(dt: u64, frames: usize) -> (i64, bool) {
    let mut world: World = standing();
    let start: i64 = world.player.position.translation.y;
    let mut n: usize = 0;
    while n < frames {
        gravity_system(&mut world, dt);
        jump_system(&mut world, dt, n == 0);
        n += 1;
    }
    (world.player.position.translation.y - start, world.player.is_jumping)
}

#[test]
fn a_player_over_the_ground_is_on_the_ground_and_does_not_fall() {
    let mut world: World = setup();
    world.player.position.translation = Point { x: 0, y: 0 };
    world.grounds = vec![ground_at(0)];
    world.grounds[0].position.translation.y = 0;
    gravity_system(&mut world, 16_667);
    assert!(world.player.on_ground);
    assert_eq!(world.player.position.translation, Point { x: 0, y: 0 });
}

#[test]
fn a_player_off_the_ground_falls_with_the_time() {
    let mut world: World = setup();
    world.player.on_ground = true;
    gravity_system(&mut world, 16_667);
    assert!(!world.player.on_ground);
    assert_eq!(world.player.position.translation, Point { x: -500 * UNIT, y: -5_000 * 16_667 });
    gravity_system(&mut world, 1_000_000);
    assert_eq!(world.player.position.translation.y, -5_000 * 16_667 - 500 * UNIT);
    assert!(!world.player.is_jumping);
    assert_eq!(world.player.jump_duration, Stopwatch { elapsed: 0 });
}

#[test]
fn the_player_comes_to_rest_where_its_box_meets_that_of_the_ground() {
    let mut world: World = setup();
    let mut frames: usize = 0;
    while !world.player.on_ground {
        gravity_system(&mut world, 10_000);
        frames += 1;
        assert!(frames < 1_000);
    }
    assert_eq!(frames, 53);
    assert_eq!(world.player.position.translation.y, -260 * UNIT);
    gravity_system(&mut world, 10_000);
    assert_eq!(world.player.position.translation.y, -260 * UNIT);
}

#[test]
fn any_segment_under_the_player_holds_it() {
    let mut world: World = standing();
    world.grounds = vec![ground_at(5_000 * UNIT), ground_at(0)];
    gravity_system(&mut world, 16_667);
    assert!(world.player.on_ground);
    world.grounds = vec![ground_at(5_000 * UNIT), ground_at(-5_000 * UNIT)];
    gravity_system(&mut world, 16_667);
    assert!(!world.player.on_ground);
    world.grounds = Vec::new();
    world.player.on_ground = true;
    gravity_system(&mut world, 16_667);
    assert!(!world.player.on_ground);
}

#[test]
fn a_jumping_player_does_not_fall() {
    let mut world: World = setup();
    world.player.is_jumping = true;
    gravity_system(&mut world, 16_667);
    assert!(world.player.on_ground);
    assert_eq!(world.player.position.translation.y, 0);
}

#[test]
fn a_jump_starts_on_the_key_going_down_on_the_ground() {
    let mut world: World = standing();
    world.player.jump_duration.elapsed = 77_000_000;
    let start: i64 = world.player.position.translation.y;
    let sound: bool = jump_system(&mut world, 16_667, true);
    assert!(sound);
    assert!(world.player.is_jumping);
    assert!(!world.player.on_ground);
    assert_eq!(world.player.jump_duration.elapsed, 0);
    assert_eq!(world.player.position.translation.y, start + 9_000 * 16_667);
    assert_eq!(world.player.position.translation.x, 0);
}

#[test]
fn no_jump_starts_in_the_air_or_without_the_key() {
    let mut airborne: World = setup();
    assert!(!jump_system(&mut airborne, 16_667, true));
    assert!(!airborne.player.is_jumping);
    assert_eq!(airborne.player.position.translation.y, 0);
    assert_eq!(airborne.player.jump_duration.elapsed, 16_667);
    let mut idle: World = standing();
    assert!(!jump_system(&mut idle, 16_667, false));
    assert!(!idle.player.is_jumping);
    assert!(idle.player.on_ground);
    assert_eq!(idle.player.position.translation.y, GROUND_Y + 60 * UNIT);
    assert_eq!(idle.player.jump_duration.elapsed, 16_667);
}

#[test]
fn a_jump_is_not_started_again_while_it_lasts() {
    let mut world: World = standing();
    jump_system(&mut world, 10_000, true);
    gravity_system(&mut world, 10_000);
    assert!(world.player.on_ground);
    let again: bool = jump_system(&mut world, 10_000, true);
    assert!(!again);
    assert_eq!(world.player.jump_duration.elapsed, 10_000);
}

#[test]
fn the_rise_ends_at_three_tenths_and_the_jump_at_four_tenths_of_a_second() {
    let mut world: World = standing();
    world.player.is_jumping = true;
    world.player.position.translation.y = 0;
    world.player.jump_duration.elapsed = 299_998;
    jump_system(&mut world, 1, false);
    assert_eq!(world.player.position.translation.y, 9_000);
    jump_system(&mut world, 1, false);
    assert_eq!(world.player.position.translation.y, 10_000);
    assert!(world.player.is_jumping);
    world.player.jump_duration.elapsed = 399_998;
    jump_system(&mut world, 1, false);
    assert_eq!(world.player.position.translation.y, 11_000);
    assert!(world.player.is_jumping);
    jump_system(&mut world, 1, false);
    assert_eq!(world.player.position.translation.y, 11_000);
    assert!(!world.player.is_jumping);
    assert_eq!(world.player.jump_duration.elapsed, 400_000);
}

#[test]
fn a_player_that_is_not_jumping_gains_no_height() {
    let mut world: World = setup();
    let mut n: usize = 0;
    while n < 30 {
        jump_system(&mut world, 16_667, false);
        n += 1;
    }
    assert_eq!(world.player.position.translation.y, 0);
    assert_eq!(world.player.jump_duration.elapsed, 30 * 16_667);
}

#[test]
fn a_jump_lifts_the_player_by_280_units() {
    assert_eq!(jump_height(10_000, 41), (280 * UNIT, false));
    assert_eq!(jump_height(100_000, 5), (280 * UNIT, false));
    assert_eq!(jump_height(1, 400_001), (280 * UNIT, false));
    assert_eq!(jump_height(20_000, 21), (280 * UNIT, false));
    assert_eq!(jump_height(10_000, 40), (280 * UNIT, true));
    assert_eq!(jump_height(10_000, 30), (270 * UNIT, true));
    assert_eq!(jump_height(10_000, 1), (9 * UNIT, true));
}

#[test]
fn frames_that_do_not_divide_a_tenth_of_a_second_lift_a_little_more() {
    assert_eq!(jump_height(16_667, 25), (2_800_056_000, false));
    assert_eq!(jump_height(16_667, 24), (2_800_056_000, true));
}

#[test]
fn the_player_falls_again_once_the_jump_is_over() {
    let mut world: World = standing();
    world.grounds = Vec::new();
    let start: i64 = world.player.position.translation.y;
    world.grounds = vec![ground_at(0)];
    gravity_system(&mut world, 100_000);
    world.grounds = Vec::new();
    jump_system(&mut world, 100_000, true);
    let mut n: usize = 0;
    while n < 4 {
        gravity_system(&mut world, 100_000);
        jump_system(&mut world, 100_000, false);
        n += 1;
    }
    assert!(!world.player.is_jumping);
    assert_eq!(world.player.position.translation.y, start + 280 * UNIT);
    gravity_system(&mut world, 100_000);
    jump_system(&mut world, 100_000, false);
    assert_eq!(world.player.position.translation.y, start + 280 * UNIT - 50 * UNIT);
    assert!(!world.player.on_ground);
}

#[test]
fn the_player_type_holds_what_a_player_is() {
    let player: Player = setup().player;
    assert_eq!(
        player,
        Player {
            position: Position { translation: Point { x: -500 * UNIT, y: 0 }, scale: 20 },
            is_jumping: false,
            on_ground: false,
            jump_duration: Stopwatch { elapsed: 0 },
        }
    );
}

#[test]
fn uneven_frames_lift_by_280_units_give_or_take_a_frame() {
    let lengths: [u64; 9] = [16_667, 3_000, 41_000, 8_333, 25_000, 100, 33_333, 12_345, 50_000];
    let longest: i64 = 50_000;
    let mut first: usize = 0;
    while first < 9 {
        let mut world: World = standing();
        let start: i64 = world.player.position.translation.y;
        let mut n: usize = 0;
        let mut running: bool = true;
        while running {
            let dt: u64 = lengths[(first + n) % 9];
            gravity_system(&mut world, dt);
            jump_system(&mut world, dt, n == 0);
            running = world.player.is_jumping;
            n += 1;
            assert!(n < 10_000);
        }
        let gained: i64 = world.player.position.translation.y - start;
        assert!(280 * UNIT - 10_000 * longest <= gained);
        assert!(gained <= 280 * UNIT + 10_000 * longest);
        assert!(world.player.jump_duration.elapsed >= 400_000);
        first += 1;
    }
}
