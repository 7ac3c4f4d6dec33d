use endless_runner::geometry::Point;
use endless_runner::ground::{move_ground_system, GROUND_SCALE};
use endless_runner::model::{Ground, Position, Scroller, World};
use endless_runner::queue::SpawnQueue;
use endless_runner::units::{GROUND_LENGTH, GROUND_SPAWN_X, GROUND_Y, SCREEN_WIDTH, UNIT};
use endless_runner::world::setup;

fn segment(handle: u64, x: i64) -> Ground {
    Scroller {
        handle,
        position: Position { translation: Point { x, y: GROUND_Y }, scale: GROUND_SCALE },
        movement_speed: 300,
        length: GROUND_LENGTH,
    }
}

fn queue_of(handles: &[u64]) -> SpawnQueue {
    let mut queue: SpawnQueue = SpawnQueue::new();
    for handle in handles.iter().rev() {
        queue.push_front(*handle);
    }
    queue
}

fn handles(queue: &SpawnQueue) -> Vec<u64> {
    let mut all: Vec<u64> = Vec::new();
    let mut i: usize = 0;
    while let Some(handle) = queue.get(i) {
        all.push(handle);
        i += 1;
    }
    all
}

fn covered(world: &World, p: i64) -> bool {
    world.grounds.iter().any(|g| {
        (g.position.translation.x as i128) <= p as i128
            && p as i128 <= g.position.translation.x as i128 + g.length as i128
    })
}

#[test]
fn a_segment_scrolls_by_speed_times_multiplier_times_time() {
    let mut world: World = setup();
    move_ground_system(&mut world, 1_000_000);
    assert_eq!(world.grounds, vec![segment(0, -300 * UNIT)]);
    world.game_state.difficulty_multiplier = 25;
    move_ground_system(&mut world, 16_667);
    assert_eq!(world.grounds[0].position.translation.x, -300 * UNIT - 300 * 25 * 16_667);
    move_ground_system(&mut world, 0);
    assert_eq!(world.grounds[0].position.translation.x, -300 * UNIT - 300 * 25 * 16_667);
}

#[test]
fn no_segment_follows_while_the_trailing_edge_is_at_the_mark() {
    let mut world: World = setup();
    move_ground_system(&mut world, 1_000_000);
    assert_eq!(world.grounds[0].position.translation.x + GROUND_LENGTH as i64, GROUND_SPAWN_X);
    assert_eq!(world.grounds.len(), 1);
    assert_eq!(handles(&world.game_state.ground_list), vec![0]);
    assert_eq!(world.next_handle, 1);
}

#[test]
fn a_segment_follows_once_the_trailing_edge_is_past_the_mark() {
    let mut world: World = setup();
    move_ground_system(&mut world, 1_000_001);
    assert_eq!(
        world.grounds,
        vec![segment(0, -300 * UNIT - 3000), segment(1, GROUND_SPAWN_X)]
    );
    assert_eq!(handles(&world.game_state.ground_list), vec![1, 0]);
    assert_eq!(world.next_handle, 2);
    assert_eq!(world.grounds[1].position.translation.y, -320 * UNIT);
    assert_eq!(world.grounds[1].position.scale, 30);
}

#[test]
fn a_fresh_segment_takes_speed_and_length_from_the_one_it_follows() {
    let mut world: World = setup();
    world.grounds[0].movement_speed = 450;
    world.grounds[0].length = 2_000 * UNIT as u64;
    move_ground_system(&mut world, 1);
    assert_eq!(world.grounds.len(), 2);
    assert_eq!(world.grounds[1].movement_speed, 450);
    assert_eq!(world.grounds[1].length, 2_000 * UNIT as u64);
    assert_eq!(world.grounds[1].position.translation.x, GROUND_SPAWN_X);
}

#[test]
fn no_third_segment_is_made() {
    let mut world: World = setup();
    move_ground_system(&mut world, 1_000_001);
    move_ground_system(&mut world, 1_000_000);
    assert_eq!(world.grounds.len(), 2);
    assert_eq!(handles(&world.game_state.ground_list), vec![1, 0]);
    assert_eq!(world.grounds[1].position.translation.x, GROUND_SPAWN_X - 300 * UNIT);
}

#[test]
fn a_fresh_segment_does_not_move_in_the_frame_that_makes_it() {
    let mut world: World = setup();
    world.grounds[0].position.translation.x = -1_000 * UNIT;
    move_ground_system(&mut world, 2_000_000);
    assert_eq!(world.grounds[1].position.translation.x, GROUND_SPAWN_X);
}

#[test]
fn a_segment_behind_the_origin_leaves_and_is_followed_in_the_same_frame() {
    let mut world: World = setup();
    world.grounds = vec![segment(7, -2_700 * UNIT), segment(8, -300 * UNIT)];
    world.game_state.ground_list = queue_of(&[8, 7]);
    world.next_handle = 9;
    move_ground_system(&mut world, 1_000);
    assert_eq!(
        world.grounds,
        vec![segment(8, -300 * UNIT - 3_000_000), segment(9, GROUND_SPAWN_X)]
    );
    assert_eq!(handles(&world.game_state.ground_list), vec![9, 7]);
    assert_eq!(world.next_handle, 10);
}

#[test]
fn a_segment_whose_trailing_edge_is_at_the_origin_stays() {
    let mut world: World = setup();
    world.grounds = vec![segment(7, -2_700 * UNIT), segment(8, -300 * UNIT)];
    world.game_state.ground_list = queue_of(&[8, 7]);
    move_ground_system(&mut world, 0);
    assert_eq!(world.grounds.len(), 2);
    assert_eq!(handles(&world.game_state.ground_list), vec![8, 7]);
}

#[test]
fn the_only_segment_leaving_is_followed_at_once() {
    let mut world: World = setup();
    world.grounds = vec![segment(0, -2_700 * UNIT)];
    move_ground_system(&mut world, 1);
    assert_eq!(world.grounds, vec![segment(1, GROUND_SPAWN_X)]);
    assert_eq!(handles(&world.game_state.ground_list), vec![1]);
}

#[test]
fn popping_an_empty_ground_queue_does_nothing() {
    let mut world: World = setup();
    world.grounds = vec![segment(3, -2_700 * UNIT), segment(4, -2_800 * UNIT)];
    world.game_state.ground_list = SpawnQueue::new();
    world.next_handle = 5;
    move_ground_system(&mut world, 1);
    assert_eq!(world.grounds, vec![segment(5, GROUND_SPAWN_X), segment(6, GROUND_SPAWN_X)]);
    assert_eq!(handles(&world.game_state.ground_list), vec![6]);
    assert_eq!(world.next_handle, 7);
}

#[test]
fn scrolling_the_ground_touches_nothing_else() {
    let mut world: World = setup();
    world.game_state.score = 17;
    world.game_state.difficulty_timer.elapsed = 5;
    world.game_state.power_up_timer.elapsed = 6;
    world.enemies = vec![segment(40, 1)];
    world.power_ups = vec![segment(41, 2)];
    let player = world.player;
    move_ground_system(&mut world, 1_000_001);
    assert_eq!(world.game_state.score, 17);
    assert_eq!(world.game_state.difficulty_timer.elapsed, 5);
    assert_eq!(world.game_state.power_up_timer.elapsed, 6);
    assert_eq!(world.game_state.difficulty_multiplier, 10);
    assert_eq!(world.enemies, vec![segment(40, 1)]);
    assert_eq!(world.power_ups, vec![segment(41, 2)]);
    assert_eq!(world.player, player);
    assert_eq!(world.game_state.enemy_list.len(), 0);
}

#[test]
fn one_or_two_segments_are_queued_in_every_frame() {
    let mut world: World = setup();
    let frames: [u64; 7] = [16_667, 33_333, 1_000, 250_000, 16_667, 999_999, 8_000];
    let mut n: usize = 0;
    while n < 4_000 {
        move_ground_system(&mut world, frames[n % 7]);
        let queued: usize = world.game_state.ground_list.len();
        assert!(1 <= queued && queued <= 2);
        assert_eq!(world.grounds.len(), queued);
        n += 1;
    }
    assert!(world.next_handle > 10);
}

#[test]
fn the_screen_is_covered_after_a_frame_when_the_stretch_scrolled_onto_it_was() {
    let mut world: World = setup();
    let dt: u64 = 100_000;
    let d: i64 = 300 * 10 * 100_000;
    let mut n: usize = 0;
    while n < 200 {
        let mut before: Vec<bool> = Vec::new();
        let mut p: i64 = 0;
        while p <= SCREEN_WIDTH {
            before.push(covered(&world, p + d));
            p += 25 * UNIT;
        }
        move_ground_system(&mut world, dt);
        let mut after: Vec<bool> = Vec::new();
        p = 0;
        while p <= SCREEN_WIDTH {
            after.push(covered(&world, p));
            p += 25 * UNIT;
        }
        assert_eq!(before, after);
        n += 1;
    }
}

#[test]
fn the_first_segment_covers_the_screen_until_its_trailing_edge_enters_it() {
    let mut world: World = setup();
    let mut n: usize = 0;
    while n < 50 {
        assert!(covered(&world, 0) && covered(&world, SCREEN_WIDTH / 2) && covered(&world, SCREEN_WIDTH));
        move_ground_system(&mut world, 100_000);
        n += 1;
    }
    assert_eq!(world.grounds[0].position.translation.x, -1_500 * UNIT);
}

#[test]
fn an_overshoot_of_the_mark_opens_a_gap_between_two_segments() {
    let mut world: World = setup();
    move_ground_system(&mut world, 1_010_000);
    assert_eq!(world.grounds[0].position.translation.x, -303 * UNIT);
    assert_eq!(world.grounds[1].position.translation.x, GROUND_SPAWN_X);
    move_ground_system(&mut world, 5_000_000);
    assert_eq!(world.grounds[0].position.translation.x + GROUND_LENGTH as i64, 897 * UNIT);
    assert_eq!(world.grounds[1].position.translation.x, 900 * UNIT);
    assert!(covered(&world, 897 * UNIT));
    assert!(!covered(&world, 898 * UNIT));
    assert!(covered(&world, 900 * UNIT));
}
