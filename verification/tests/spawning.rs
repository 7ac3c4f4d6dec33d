use endless_runner::enemies::{move_enemies_system, spawn_enemy, spawn_enemy_system, ENEMY_SCALE};
use endless_runner::geometry::Point;
use endless_runner::model::{Enemy, Position, PowerUp, Scroller, World};
use endless_runner::power_ups::{
    move_powerup_system, spawn_power_up, spawn_power_up_system, POWER_UP_SCALE,
};
use endless_runner::queue::SpawnQueue;
use endless_runner::units::{ENEMY_LENGTH, POWER_UP_LENGTH, UNIT};
use endless_runner::world::setup;

fn enemy(handle: u64, x: i64) -> Enemy {
    Scroller {
        handle,
        position: Position { translation: Point { x, y: -275 * UNIT }, scale: ENEMY_SCALE },
        movement_speed: 300,
        length: ENEMY_LENGTH,
    }
}

fn power_up(handle: u64, x: i64) -> PowerUp {
    Scroller {
        handle,
        position: Position { translation: Point { x, y: 0 }, scale: POWER_UP_SCALE },
        movement_speed: 300,
        length: POWER_UP_LENGTH,
    }
}

fn listed(queue: &SpawnQueue) -> Vec<u64> {
    let mut all: Vec<u64> = Vec::new();
    let mut i: usize = 0;
    while let Some(handle) = queue.get(i) {
        all.push(handle);
        i += 1;
    }
    all
}

fn with_enemies(enemies: Vec<Enemy>) -> World {
    let mut world: World = setup();
    for e in enemies.iter().rev() {
        world.game_state.enemy_list.push_front(e.handle);
    }
    world.enemies = enemies;
    world.next_handle = 100;
    world
}

#[test]
fn an_enemy_appears_in_the_slot_drawn_for_it() {
    let mut world: World = setup();
    spawn_enemy(&mut world, 3);
    assert_eq!(world.enemies, vec![enemy(1, 2_100 * UNIT)]);
    assert_eq!(world.enemies[0].position.translation.y, -275 * UNIT);
    assert_eq!(world.enemies[0].position.scale, 15);
    assert_eq!(world.enemies[0].length, 105 * UNIT as u64);
    assert_eq!(listed(&world.game_state.enemy_list), vec![1]);
    assert_eq!(world.next_handle, 2);
    spawn_enemy(&mut world, 1);
    spawn_enemy(&mut world, 6);
    assert_eq!(
        world.enemies,
        vec![enemy(1, 2_100 * UNIT), enemy(2, 1_100 * UNIT), enemy(3, 3_600 * UNIT)]
    );
    assert_eq!(listed(&world.game_state.enemy_list), vec![3, 2, 1]);
    assert_eq!(world.next_handle, 4);
}

#[test]
fn no_enemy_is_made_while_three_are_queued() {
    let mut world: World = with_enemies(vec![enemy(1, 5), enemy(2, 6), enemy(3, 7)]);
    spawn_enemy(&mut world, 4);
    assert_eq!(world.enemies, vec![enemy(1, 5), enemy(2, 6), enemy(3, 7)]);
    assert_eq!(listed(&world.game_state.enemy_list), vec![1, 2, 3]);
    assert_eq!(world.next_handle, 100);
    spawn_enemy_system(&mut world);
    assert_eq!(world.enemies.len(), 3);
    assert_eq!(world.game_state.enemy_list.len(), 3);
    assert_eq!(world.next_handle, 100);
}

#[test]
fn the_enemy_gate_goes_by_the_queue_and_one_enemy_is_made_per_call() {
    let mut world: World = with_enemies(vec![enemy(1, 5), enemy(2, 6)]);
    spawn_enemy(&mut world, 2);
    assert_eq!(world.enemies.len(), 3);
    spawn_enemy(&mut world, 2);
    assert_eq!(world.enemies.len(), 3);
    let mut stale: World = setup();
    stale.game_state.enemy_list.push_front(9);
    stale.game_state.enemy_list.push_front(9);
    stale.game_state.enemy_list.push_front(9);
    spawn_enemy(&mut stale, 2);
    assert_eq!(stale.enemies.len(), 0);
}

#[test]
fn a_drawn_enemy_lies_in_one_of_the_six_slots() {
    let mut seen: Vec<i64> = Vec::new();
    let mut n: usize = 0;
    while n < 300 {
        let mut world: World = setup();
        spawn_enemy_system(&mut world);
        assert_eq!(world.enemies.len(), 1);
        let x: i64 = world.enemies[0].position.translation.x;
        let ahead: i64 = x - 600 * UNIT;
        assert_eq!(ahead % (500 * UNIT), 0);
        let slot: i64 = ahead / (500 * UNIT);
        assert!(1 <= slot && slot <= 6);
        assert_eq!(world.enemies[0], enemy(1, x));
        if !seen.contains(&slot) {
            seen.push(slot);
        }
        n += 1;
    }
    assert!(seen.len() >= 2);
}

#[test]
fn the_difficulty_rises_by_a_tenth_when_the_timer_shows_four_seconds() {
    let mut world: World = setup();
    move_enemies_system(&mut world, 3_999_999);
    assert_eq!(world.game_state.difficulty_multiplier, 10);
    assert_eq!(world.game_state.difficulty_timer.elapsed, 3_999_999);
    move_enemies_system(&mut world, 1);
    assert_eq!(world.game_state.difficulty_multiplier, 11);
    assert_eq!(world.game_state.difficulty_timer.elapsed, 0);
    move_enemies_system(&mut world, 9_000_000);
    assert_eq!(world.game_state.difficulty_multiplier, 12);
    assert_eq!(world.game_state.difficulty_timer.elapsed, 0);
}

#[test]
fn enemies_move_under_the_multiplier_the_ramp_has_left() {
    let mut world: World = with_enemies(vec![enemy(1, 1_000 * UNIT)]);
    world.game_state.difficulty_timer.elapsed = 3_000_000;
    move_enemies_system(&mut world, 1_000_000);
    assert_eq!(world.game_state.difficulty_multiplier, 11);
    assert_eq!(world.enemies, vec![enemy(1, 1_000 * UNIT - 330 * UNIT)]);
    move_enemies_system(&mut world, 500_000);
    assert_eq!(world.enemies, vec![enemy(1, 670 * UNIT - 165 * UNIT)]);
}

#[test]
fn an_enemy_past_the_left_screen_edge_is_retired_and_the_queue_popped() {
    let gone: i64 = -705 * UNIT - 1;
    let mut world: World = with_enemies(vec![enemy(1, gone), enemy(2, -705 * UNIT), enemy(3, 0)]);
    move_enemies_system(&mut world, 1_000);
    assert_eq!(
        world.enemies,
        vec![enemy(2, -705 * UNIT - 3_000_000), enemy(3, -3_000_000)]
    );
    assert_eq!(listed(&world.game_state.enemy_list), vec![2, 3]);
    move_enemies_system(&mut world, 1_000);
    assert_eq!(world.enemies, vec![enemy(3, -6_000_000)]);
    assert_eq!(listed(&world.game_state.enemy_list), vec![3]);
}

#[test]
fn popping_an_empty_enemy_queue_does_nothing() {
    let mut world: World = setup();
    world.enemies = vec![enemy(1, -800 * UNIT), enemy(2, -900 * UNIT)];
    world.game_state.enemy_list.push_front(1);
    move_enemies_system(&mut world, 10);
    assert_eq!(world.enemies.len(), 0);
    assert_eq!(world.game_state.enemy_list.len(), 0);
}

#[test]
fn at_most_three_enemies_are_queued_in_every_frame() {
    let mut world: World = setup();
    let mut n: u64 = 0;
    while n < 3_000 {
        move_enemies_system(&mut world, 16_667);
        spawn_enemy(&mut world, 1 + n % 6);
        assert!(world.game_state.enemy_list.len() <= 3);
        assert_eq!(world.enemies.len(), world.game_state.enemy_list.len());
        n += 1;
    }
    assert!(world.next_handle > 5);
}

#[test]
fn power_ups_move_at_their_own_speed_whatever_the_difficulty() {
    let mut world: World = setup();
    world.game_state.difficulty_multiplier = 40;
    world.power_ups = vec![power_up(5, 1_000 * UNIT)];
    move_powerup_system(&mut world, 1_000_000);
    assert_eq!(world.power_ups, vec![power_up(5, 700 * UNIT)]);
    assert_eq!(world.game_state.difficulty_multiplier, 40);
}

#[test]
fn a_power_up_past_the_left_screen_edge_is_retired() {
    let mut world: World = setup();
    world.power_ups = vec![power_up(5, -670 * UNIT - 1), power_up(6, -670 * UNIT)];
    move_powerup_system(&mut world, 1_000);
    assert_eq!(world.power_ups, vec![power_up(6, -670 * UNIT - 3_000_000)]);
    assert_eq!(world.game_state.ground_list.len(), 1);
    assert_eq!(world.game_state.enemy_list.len(), 0);
}

#[test]
fn a_power_up_appears_once_the_timer_is_past_its_delay() {
    let mut world: World = setup();
    world.game_state.power_up_timer.elapsed = 7_000_000;
    spawn_power_up(&mut world, 1_000_000, 8_000_000);
    assert_eq!(world.power_ups.len(), 0);
    assert_eq!(world.game_state.power_up_timer.elapsed, 8_000_000);
    spawn_power_up(&mut world, 1, 8_000_000);
    assert_eq!(world.power_ups, vec![power_up(1, 4_600 * UNIT)]);
    assert_eq!(world.game_state.power_up_timer.elapsed, 0);
    assert_eq!(world.next_handle, 2);
    spawn_power_up(&mut world, 16_667, 8_000_000);
    assert_eq!(world.power_ups.len(), 1);
    assert_eq!(world.game_state.power_up_timer.elapsed, 16_667);
}

#[test]
fn a_power_up_lies_further_ahead_the_longer_its_delay() {
    let mut world: World = setup();
    world.game_state.power_up_timer.elapsed = 20_000_000;
    spawn_power_up(&mut world, 0, 13_999_999);
    assert_eq!(world.power_ups, vec![power_up(1, 600 * UNIT + 5_000 * 13_999_999)]);
    assert_eq!(world.power_ups[0].position.translation.y, 0);
    assert_eq!(world.power_ups[0].position.scale, 10);
    assert_eq!(world.power_ups[0].length, 70 * UNIT as u64);
}

#[test]
fn the_delay_is_drawn_anew_in_every_frame() {
    let mut world: World = setup();
    world.game_state.power_up_timer.elapsed = 7_999_999;
    spawn_power_up(&mut world, 1, 13_000_000);
    assert_eq!(world.power_ups.len(), 0);
    spawn_power_up(&mut world, 1, 8_000_000);
    assert_eq!(world.power_ups.len(), 1);
    assert_eq!(world.power_ups[0].position.translation.x, 4_600 * UNIT);
}

#[test]
fn a_drawn_delay_lies_between_eight_and_fourteen_seconds() {
    let mut seen: Vec<i64> = Vec::new();
    let mut n: usize = 0;
    while n < 300 {
        let mut world: World = setup();
        world.game_state.power_up_timer.elapsed = 14_000_000;
        spawn_power_up_system(&mut world, 0);
        assert_eq!(world.power_ups.len(), 1);
        assert_eq!(world.game_state.power_up_timer.elapsed, 0);
        let x: i64 = world.power_ups[0].position.translation.x;
        assert!(4_600 * UNIT <= x && x < 7_600 * UNIT);
        assert_eq!((x - 600 * UNIT) % 5_000, 0);
        if !seen.contains(&x) {
            seen.push(x);
        }
        let mut early: World = setup();
        early.game_state.power_up_timer.elapsed = 7_999_999;
        spawn_power_up_system(&mut early, 1);
        assert_eq!(early.power_ups.len(), 0);
        assert_eq!(early.game_state.power_up_timer.elapsed, 8_000_000);
        n += 1;
    }
    assert!(seen.len() >= 2);
}
