//! Enemies: the difficulty ramp that speeds them up, their scrolling, and
//! their spawning ahead of the right screen edge.

use crate::geometry::Point;
use crate::model::{Enemy, GameStateView, Position, Scroller, World, WorldView};
use crate::queue::{popped_times, pushed};
use crate::random::uniform_draw;
use crate::scroller::{can_scroll_row, departures, lemma_survivors_len, scroll_row, survivors};
use crate::stopwatch::Stopwatch;
use crate::units::{
    DIFFICULTY_PERIOD, ENEMY_LENGTH, ENEMY_RISE, ENEMY_SLOTS, GROUND_Y, MAX_ENEMIES,
    SCREEN_HALF_WIDTH, SCROLL_SPEED, SPAWN_STEP,
};
use vstd::prelude::*;

verus! {

/// Scale at which enemies are drawn: one and a half.
pub const ENEMY_SCALE: u32 = 15;

/// The game state after the difficulty timer has run `dt` microseconds more:
/// once it shows four seconds or more, the multiplier rises by a tenth and
/// the timer starts over.
pub open spec fn ramped(g: GameStateView, dt: u64) -> GameStateView {
    if g.difficulty_timer.elapsed + dt >= DIFFICULTY_PERIOD {
        GameStateView {
            difficulty_timer: Stopwatch { elapsed: 0 },
            difficulty_multiplier: (g.difficulty_multiplier + 1) as u32,
            ..g
        }
    } else {
        GameStateView { difficulty_timer: g.difficulty_timer.ticked(dt), ..g }
    }
}

/// Whether the difficulty ramp can run within the range of the machine's
/// numbers.
pub open spec fn can_ramp(g: GameStateView, dt: u64) -> bool {
    &&& g.difficulty_timer.can_tick(dt)
    &&& g.difficulty_timer.elapsed + dt >= DIFFICULTY_PERIOD ==> g.difficulty_multiplier < u32::MAX
}

/// The world after the enemies have scrolled for `dt` microseconds. The
/// difficulty ramp runs first. Enemies that have left the screen are retired
/// and the enemy queue is popped once for each; the others move under the
/// multiplier that the ramp has left.
pub open spec fn enemies_moved(w: WorldView, dt: u64) -> WorldView {
    let game_state = ramped(w.game_state, dt);
    WorldView {
        game_state: GameStateView {
            enemy_list: popped_times(w.game_state.enemy_list, departures(w.enemies)),
            ..game_state
        },
        enemies: survivors(w.enemies, game_state.difficulty_multiplier, dt),
        ..w
    }
}

/// Whether the enemies can scroll for `dt` microseconds within the range of
/// the machine's numbers.
pub open spec fn can_move_enemies(w: WorldView, dt: u64) -> bool {
    &&& can_ramp(w.game_state, dt)
    &&& can_scroll_row(w.enemies, ramped(w.game_state, dt).difficulty_multiplier, dt)
}

/// Runs the difficulty ramp, retires the enemies that have left the screen
/// and moves the others.
pub fn move_enemies_system(world: &mut World, dt: u64)
    requires
        can_move_enemies(old(world)@, dt),
    ensures
        final(world)@ == enemies_moved(old(world)@, dt),
        old(world)@.wf() ==> final(world)@.wf(),
        old(world)@.settled() ==> final(world)@.settled(),
{
    world.game_state.difficulty_timer.tick(dt);
    if world.game_state.difficulty_timer.elapsed() >= DIFFICULTY_PERIOD {
        world.game_state.difficulty_multiplier = world.game_state.difficulty_multiplier + 1;
        world.game_state.difficulty_timer.reset();
    }
    let multiplier: u32 = world.game_state.difficulty_multiplier;
    let left: usize = scroll_row(&mut world.enemies, multiplier, dt);
    world.game_state.enemy_list.pop_front_times(left);
    proof {
        lemma_survivors_len(old(world).enemies@, multiplier, dt);
    }
}

/// The enemy spawned into slot `slot`: ahead of the right screen edge by
/// `slot` steps, a little above the ground line.
pub open spec fn fresh_enemy(handle: u64, slot: u64) -> Enemy {
    Scroller {
        handle,
        position: Position {
            translation: Point {
                x: (SCREEN_HALF_WIDTH + SPAWN_STEP * slot) as i64,
                y: (GROUND_Y + ENEMY_RISE) as i64,
            },
            scale: ENEMY_SCALE,
        },
        movement_speed: SCROLL_SPEED,
        length: ENEMY_LENGTH,
    }
}

/// The world after the enemy spawner has run with the drawn slot `slot`:
/// while fewer than three enemies are queued, one enemy is made and its
/// handle pushed; otherwise nothing happens.
pub open spec fn enemy_spawned(w: WorldView, slot: u64) -> WorldView {
    if w.game_state.enemy_list.len() < MAX_ENEMIES {
        WorldView {
            game_state: GameStateView {
                enemy_list: pushed(w.game_state.enemy_list, w.next_handle),
                ..w.game_state
            },
            enemies: w.enemies.push(fresh_enemy(w.next_handle, slot)),
            next_handle: (w.next_handle + 1) as u64,
            ..w
        }
    } else {
        w
    }
}

/// Whether the enemy spawner can run with `slot` within the range of the
/// machine's numbers.
pub open spec fn can_spawn_enemy(w: WorldView, slot: u64) -> bool {
    w.game_state.enemy_list.len() < MAX_ENEMIES ==> {
        &&& w.next_handle < u64::MAX
        &&& SCREEN_HALF_WIDTH + SPAWN_STEP * slot <= i64::MAX
    }
}

/// Runs the enemy spawner with a slot that has been drawn already.
pub fn spawn_enemy(world: &mut World, slot: u64)
    requires
        can_spawn_enemy(old(world)@, slot),
    ensures
        final(world)@ == enemy_spawned(old(world)@, slot),
        old(world)@.wf() ==> final(world)@.wf(),
        old(world)@.settled() ==> final(world)@.settled(),
{
    if world.game_state.enemy_list.len() < MAX_ENEMIES {
        let handle: u64 = world.next_handle;
        let x: i128 = SCREEN_HALF_WIDTH as i128 + SPAWN_STEP as i128 * slot as i128;
        world.enemies.push(
            Scroller {
                handle,
                position: Position {
                    translation: Point { x: x as i64, y: GROUND_Y + ENEMY_RISE },
                    scale: ENEMY_SCALE,
                },
                movement_speed: SCROLL_SPEED,
                length: ENEMY_LENGTH,
            },
        );
        world.game_state.enemy_list.push_front(handle);
        world.next_handle = handle + 1;
    }
}

/// Whether the enemy spawner can run, whatever slot is drawn.
pub open spec fn can_draw_enemy(w: WorldView) -> bool {
    w.game_state.enemy_list.len() < MAX_ENEMIES ==> w.next_handle < u64::MAX
}

/// Draws one of the six slots and runs the enemy spawner with it.
pub fn spawn_enemy_system(world: &mut World)
    requires
        can_draw_enemy(old(world)@),
    ensures
        exists|slot: u64|
            1 <= slot <= ENEMY_SLOTS && final(world)@ == #[trigger] enemy_spawned(old(world)@, slot),
        old(world)@.wf() ==> final(world)@.wf(),
        old(world)@.settled() ==> final(world)@.settled(),
{
    let slot: u64 = uniform_draw(1, ENEMY_SLOTS + 1);
    spawn_enemy(world, slot);
}

} // verus!
