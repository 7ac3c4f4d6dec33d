//! Power-ups: their scrolling and their timed spawning.

use crate::geometry::Point;
use crate::model::{GameStateView, Position, PowerUp, Scroller, World, WorldView};
use crate::random::uniform_draw;
use crate::scroller::{can_scroll_row, scroll_row, survivors};
use crate::stopwatch::Stopwatch;
use crate::units::{
    ONE, POWER_UP_ADVANCE, POWER_UP_DELAY_END, POWER_UP_DELAY_MIN, POWER_UP_LENGTH,
    SCREEN_HALF_WIDTH, SCROLL_SPEED,
};
use vstd::prelude::*;

verus! {

/// Scale at which power-ups are drawn: one.
pub const POWER_UP_SCALE: u32 = 10;

/// The world after the power-ups have scrolled for `dt` microseconds: those
/// that have left the screen are retired, the others move at their own
/// speed, which the difficulty multiplier does not touch.
pub open spec fn power_ups_moved(w: WorldView, dt: u64) -> WorldView {
    WorldView { power_ups: survivors(w.power_ups, ONE, dt), ..w }
}

/// Whether the power-ups can scroll for `dt` microseconds within the range
/// of the machine's numbers.
pub open spec fn can_move_power_ups(w: WorldView, dt: u64) -> bool {
    can_scroll_row(w.power_ups, ONE, dt)
}

/// Retires the power-ups that have left the screen and moves the others.
pub fn move_powerup_system(world: &mut World, dt: u64)
    requires
        can_move_power_ups(old(world)@, dt),
    ensures
        final(world)@ == power_ups_moved(old(world)@, dt),
        old(world)@.wf() ==> final(world)@.wf(),
        old(world)@.settled() ==> final(world)@.settled(),
{
    scroll_row(&mut world.power_ups, ONE, dt);
}

/// The power-up spawned after the delay `threshold`: ahead of the right
/// screen edge by a distance that grows with the delay, at height zero.
pub open spec fn fresh_power_up(handle: u64, threshold: u64) -> PowerUp {
    Scroller {
        handle,
        position: Position {
            translation: Point {
                x: (SCREEN_HALF_WIDTH + POWER_UP_ADVANCE * threshold) as i64,
                y: 0,
            },
            scale: POWER_UP_SCALE,
        },
        movement_speed: SCROLL_SPEED,
        length: POWER_UP_LENGTH,
    }
}

/// Whether the power-up timer, after `dt` microseconds more, shows more than
/// `threshold`.
pub open spec fn power_up_due(w: WorldView, dt: u64, threshold: u64) -> bool {
    w.game_state.power_up_timer.elapsed + dt > threshold
}

/// The world after the power-up spawner has run for a frame of `dt`
/// microseconds with the drawn delay `threshold`. The timer runs on; once it
/// shows more than the delay it starts over and one power-up is made.
pub open spec fn power_up_spawned(w: WorldView, dt: u64, threshold: u64) -> WorldView {
    if power_up_due(w, dt, threshold) {
        WorldView {
            game_state: GameStateView { power_up_timer: Stopwatch { elapsed: 0 }, ..w.game_state },
            power_ups: w.power_ups.push(fresh_power_up(w.next_handle, threshold)),
            next_handle: (w.next_handle + 1) as u64,
            ..w
        }
    } else {
        WorldView {
            game_state: GameStateView {
                power_up_timer: w.game_state.power_up_timer.ticked(dt),
                ..w.game_state
            },
            ..w
        }
    }
}

/// Whether the power-up spawner can run within the range of the machine's
/// numbers.
pub open spec fn can_spawn_power_up(w: WorldView, dt: u64, threshold: u64) -> bool {
    &&& w.game_state.power_up_timer.can_tick(dt)
    &&& power_up_due(w, dt, threshold) ==> {
        &&& w.next_handle < u64::MAX
        &&& SCREEN_HALF_WIDTH + POWER_UP_ADVANCE * threshold <= i64::MAX
    }
}

/// Runs the power-up spawner with a delay that has been drawn already.
pub fn spawn_power_up(world: &mut World, dt: u64, threshold: u64)
    requires
        can_spawn_power_up(old(world)@, dt, threshold),
    ensures
        final(world)@ == power_up_spawned(old(world)@, dt, threshold),
        old(world)@.wf() ==> final(world)@.wf(),
        old(world)@.settled() ==> final(world)@.settled(),
{
    world.game_state.power_up_timer.tick(dt);
    if world.game_state.power_up_timer.elapsed() > threshold {
        world.game_state.power_up_timer.reset();
        let handle: u64 = world.next_handle;
        let x: i128 = SCREEN_HALF_WIDTH as i128 + POWER_UP_ADVANCE as i128 * threshold as i128;
        world.power_ups.push(
            Scroller {
                handle,
                position: Position {
                    translation: Point { x: x as i64, y: 0 },
                    scale: POWER_UP_SCALE,
                },
                movement_speed: SCROLL_SPEED,
                length: POWER_UP_LENGTH,
            },
        );
        world.next_handle = handle + 1;
    }
}

/// Whether the power-up spawner can run, whatever delay is drawn.
pub open spec fn can_draw_power_up(w: WorldView, dt: u64) -> bool {
    &&& w.game_state.power_up_timer.can_tick(dt)
    &&& w.game_state.power_up_timer.elapsed + dt > POWER_UP_DELAY_MIN ==> w.next_handle < u64::MAX
}

/// Draws a delay of eight seconds or more and less than fourteen, anew in
/// every frame, and runs the power-up spawner with it.
pub fn spawn_power_up_system(world: &mut World, dt: u64)
    requires
        can_draw_power_up(old(world)@, dt),
    ensures
        exists|threshold: u64|
            POWER_UP_DELAY_MIN <= threshold < POWER_UP_DELAY_END && final(world)@
                == #[trigger] power_up_spawned(old(world)@, dt, threshold),
        old(world)@.wf() ==> final(world)@.wf(),
        old(world)@.settled() ==> final(world)@.settled(),
{
    let threshold: u64 = uniform_draw(POWER_UP_DELAY_MIN, POWER_UP_DELAY_END);
    spawn_power_up(world, dt, threshold);
}

} // verus!
