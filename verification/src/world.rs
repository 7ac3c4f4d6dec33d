//! The world at its start, and one frame of the game after another.

use crate::enemies::{
    can_move_enemies, can_spawn_enemy, enemies_moved, enemy_spawned, move_enemies_system, ramped,
    spawn_enemy,
};
use crate::geometry::Point;
use crate::ground::{
    can_move_ground, covers, ground_moved, lemma_cover_by_one, lemma_ground_moved_wf,
    lemma_strip_handles, move_ground_system, strip_of, GROUND_SCALE,
};
use crate::interact::{
    can_meet_enemies, can_meet_power_ups, enemies_met, enemy_interact_system, hits,
    lemma_collected_len, lemma_judged_over, power_up_interact_system, power_ups_met,
};
use crate::model::{
    AppState, GameState, GameStateView, Player, Position, Scroller, World, WorldView,
};
use crate::player::{
    can_apply_gravity, can_jump, gravity_applied, gravity_system, jump_applied, jump_starts,
    jump_system, player_moved, touches_ground, Cue,
};
use crate::power_ups::{
    can_move_power_ups, can_spawn_power_up, move_powerup_system, power_up_spawned,
    power_ups_moved, spawn_power_up,
};
use crate::random::uniform_draw;
use crate::scroller::{
    lemma_survivors_len, lemma_travel_grows, row_fits, row_has_room, travel, REACH,
};
use crate::stopwatch::Stopwatch;
use crate::units::{
    enemy_size, ENEMY_SLOTS, GROUND_LENGTH, GROUND_Y, JUMP_RISE, ONE, PLAYER_SPAWN_X,
    POWER_UP_DELAY_END, POWER_UP_DELAY_MIN, POWER_UP_SCORE, SCREEN_WIDTH, SCROLL_SPEED,
};
use vstd::prelude::*;

verus! {

/// Scale at which the player is drawn: two.
pub const PLAYER_SCALE: u32 = 20;

/// The world in which every session starts: the game is running, nothing is
/// scored, the player hangs at height zero, neither jumping nor on the
/// ground, and one ground segment, whose handle is queued, lies at the
/// origin.
pub open spec fn initial_world() -> WorldView {
    WorldView {
        app_state: AppState::InGame,
        game_state: GameStateView {
            ground_list: seq![0u64],
            enemy_list: Seq::empty(),
            score: 0,
            difficulty_timer: Stopwatch { elapsed: 0 },
            power_up_timer: Stopwatch { elapsed: 0 },
            difficulty_multiplier: ONE,
        },
        player: Player {
            position: Position {
                translation: Point { x: PLAYER_SPAWN_X, y: 0 },
                scale: PLAYER_SCALE,
            },
            is_jumping: false,
            on_ground: false,
            jump_duration: Stopwatch { elapsed: 0 },
        },
        grounds: seq![
            Scroller {
                handle: 0,
                position: Position {
                    translation: Point { x: 0, y: GROUND_Y },
                    scale: GROUND_SCALE,
                },
                movement_speed: SCROLL_SPEED,
                length: GROUND_LENGTH,
            },
        ],
        enemies: Seq::empty(),
        power_ups: Seq::empty(),
        next_handle: 1,
    }
}

/// At the start of a session the ground covers the screen.
pub proof fn lemma_initial_cover()
    ensures
        covers(initial_world().grounds, 0, SCREEN_WIDTH as int),
{
    lemma_cover_by_one(initial_world().grounds, 0, 0, SCREEN_WIDTH as int);
}

/// Makes the world in which a session starts.
pub fn setup() -> (world: World)
    ensures
        world@ == initial_world(),
        world@.settled(),
{
    let mut game_state: GameState = GameState::new();
    game_state.ground_list.push_front(0);
    let mut grounds: Vec<Scroller> = Vec::new();
    grounds.push(
        Scroller {
            handle: 0,
            position: Position { translation: Point { x: 0, y: GROUND_Y }, scale: GROUND_SCALE },
            movement_speed: SCROLL_SPEED,
            length: GROUND_LENGTH,
        },
    );
    let world = World {
        app_state: AppState::InGame,
        game_state,
        player: Player {
            position: Position {
                translation: Point { x: PLAYER_SPAWN_X, y: 0 },
                scale: PLAYER_SCALE,
            },
            is_jumping: false,
            on_ground: false,
            jump_duration: Stopwatch::new(),
        },
        grounds,
        enemies: Vec::new(),
        power_ups: Vec::new(),
        next_handle: 1,
    };
    proof {
        assert(world@.game_state.ground_list =~= seq![0u64]);
        assert(world@.grounds =~= initial_world().grounds);
    }
    world
}

/// What a frame brings: its length in microseconds, whether the jump key
/// has just gone down, and the two numbers drawn for it, the slot of an
/// enemy and the delay of a power-up.
#[derive(Clone, Copy, Debug, PartialEq, Eq, Structural)]
pub struct FrameInput {
    pub dt: u64,
    pub jump_pressed: bool,
    pub enemy_slot: u64,
    pub power_up_threshold: u64,
}

/// The world after ground, enemies and power-ups have scrolled, in this
/// order.
pub open spec fn after_scroll(w: WorldView, input: FrameInput) -> WorldView {
    power_ups_moved(enemies_moved(ground_moved(w, input.dt), input.dt), input.dt)
}

/// The world after the scrolling and the two spawners, the power-up spawner
/// first.
pub open spec fn after_spawn(w: WorldView, input: FrameInput) -> WorldView {
    enemy_spawned(
        power_up_spawned(after_scroll(w, input), input.dt, input.power_up_threshold),
        input.enemy_slot,
    )
}

/// The world after scrolling, spawning and gravity.
pub open spec fn after_gravity(w: WorldView, input: FrameInput) -> WorldView {
    gravity_applied(after_spawn(w, input), input.dt)
}

/// The world after scrolling, spawning and the player's motion: gravity,
/// then the jump rules.
pub open spec fn after_motion(w: WorldView, input: FrameInput) -> WorldView {
    jump_applied(after_gravity(w, input), input.dt, input.jump_pressed)
}

/// The world one frame later. A game that is over stays as it is. In a
/// running game the objects scroll and spawn, then the player moves, then
/// the player meets the enemies and, unless that ends the game, the
/// power-ups.
pub open spec fn stepped(w: WorldView, input: FrameInput) -> WorldView {
    if w.app_state == AppState::GameOver {
        w
    } else {
        power_ups_met(enemies_met(after_motion(w, input)))
    }
}

/// Whether a jump starts in the frame, which is when the jump sound is due.
pub open spec fn jump_sounds(w: WorldView, input: FrameInput) -> bool {
    w.app_state == AppState::InGame && jump_starts(
        after_gravity(w, input).player,
        input.jump_pressed,
    )
}

/// Whether the frame can be run within the range of the machine's numbers:
/// each of its parts can, in the world that the parts before it leave.
pub open spec fn can_step(w: WorldView, input: FrameInput) -> bool {
    w.app_state == AppState::InGame ==> {
        let grounded = ground_moved(w, input.dt);
        let cleared = enemies_moved(grounded, input.dt);
        let scrolled = after_scroll(w, input);
        let powered = power_up_spawned(scrolled, input.dt, input.power_up_threshold);
        let moved = after_motion(w, input);
        &&& can_move_ground(w, input.dt)
        &&& can_move_enemies(grounded, input.dt)
        &&& can_move_power_ups(cleared, input.dt)
        &&& can_spawn_power_up(scrolled, input.dt, input.power_up_threshold)
        &&& can_spawn_enemy(powered, input.enemy_slot)
        &&& can_apply_gravity(after_spawn(w, input), input.dt)
        &&& can_jump(after_gravity(w, input).player, input.dt, input.jump_pressed)
        &&& can_meet_enemies(moved)
        &&& can_meet_power_ups(enemies_met(moved))
    }
}

/// Runs one frame of the game with the numbers already drawn for it.
/// Returns whether the jump sound is due.
pub fn step(world: &mut World, input: FrameInput) -> (sound: bool)
    requires
        can_step(old(world)@, input),
    ensures
        final(world)@ == stepped(old(world)@, input),
        sound == jump_sounds(old(world)@, input),
        old(world).app_state == AppState::GameOver ==> final(world).app_state
            == AppState::GameOver,
        final(world).game_state.score >= old(world).game_state.score,
        old(world)@.wf() ==> final(world)@.wf(),
        old(world)@.settled() ==> final(world)@.settled(),
{
    if world.app_state == AppState::GameOver {
        return false;
    }
    move_ground_system(world, input.dt);
    move_enemies_system(world, input.dt);
    move_powerup_system(world, input.dt);
    spawn_power_up(world, input.dt, input.power_up_threshold);
    spawn_enemy(world, input.enemy_slot);
    gravity_system(world, input.dt);
    let sound: bool = jump_system(world, input.dt, input.jump_pressed);
    enemy_interact_system(world);
    power_up_interact_system(world);
    sound
}

/// The input of a frame of `dt` microseconds for which `enemy_slot` and
/// `power_up_threshold` have been drawn.
pub open spec fn drawn(
    dt: u64,
    jump_pressed: bool,
    enemy_slot: u64,
    power_up_threshold: u64,
) -> FrameInput {
    FrameInput { dt, jump_pressed, enemy_slot, power_up_threshold }
}

/// Whether a frame of `dt` microseconds can be run, whatever is drawn for
/// it.
pub open spec fn can_run_frame(w: WorldView, dt: u64, jump_pressed: bool) -> bool {
    forall|enemy_slot: u64, power_up_threshold: u64|
        1 <= enemy_slot <= ENEMY_SLOTS && POWER_UP_DELAY_MIN <= power_up_threshold
            < POWER_UP_DELAY_END ==> can_step(
            w,
            #[trigger] drawn(dt, jump_pressed, enemy_slot, power_up_threshold),
        )
}

/// Draws a slot and a delay and runs one frame of the game with them.
/// Returns whether the jump sound is due.
pub fn run_frame(world: &mut World, dt: u64, jump_pressed: bool) -> (sound: bool)
    requires
        can_run_frame(old(world)@, dt, jump_pressed),
    ensures
        exists|enemy_slot: u64, power_up_threshold: u64|
            {
                let input = #[trigger] drawn(dt, jump_pressed, enemy_slot, power_up_threshold);
                &&& 1 <= enemy_slot <= ENEMY_SLOTS
                &&& POWER_UP_DELAY_MIN <= power_up_threshold < POWER_UP_DELAY_END
                &&& final(world)@ == stepped(old(world)@, input)
                &&& sound == jump_sounds(old(world)@, input)
            },
        old(world).app_state == AppState::GameOver ==> final(world)@ == old(world)@,
        final(world).game_state.score >= old(world).game_state.score,
        old(world)@.wf() ==> final(world)@.wf(),
        old(world)@.settled() ==> final(world)@.settled(),
{
    let power_up_threshold: u64 = uniform_draw(POWER_UP_DELAY_MIN, POWER_UP_DELAY_END);
    let enemy_slot: u64 = uniform_draw(1, ENEMY_SLOTS + 1);
    let input = FrameInput { dt, jump_pressed, enemy_slot, power_up_threshold };
    assert(input == drawn(dt, jump_pressed, enemy_slot, power_up_threshold));
    step(world, input)
}

/// The world after one frame for each input of `inputs`.
pub open spec fn run(w: WorldView, inputs: Seq<FrameInput>) -> WorldView
    decreases inputs.len(),
{
    if inputs.len() == 0 {
        w
    } else {
        stepped(run(w, inputs.drop_last()), inputs.last())
    }
}

/// Whether all the frames of `inputs` can be run, one after the other.
pub open spec fn can_run(w: WorldView, inputs: Seq<FrameInput>) -> bool
    decreases inputs.len(),
{
    inputs.len() == 0 || (can_run(w, inputs.drop_last()) && can_step(
        run(w, inputs.drop_last()),
        inputs.last(),
    ))
}

/// What a frame brings to the player: its length, whether the player touches
/// the ground as the frame has scrolled it, and whether the jump key has just
/// gone down.
pub open spec fn cue_of(w: WorldView, input: FrameInput) -> Cue {
    Cue {
        dt: input.dt,
        touching: touches_ground(w.player, ground_moved(w, input.dt).grounds),
        pressed: input.jump_pressed,
    }
}

/// In a frame of a running game the player does what gravity and the jump
/// rules make it do, and nothing else.
pub proof fn lemma_step_moves_player(w: WorldView, input: FrameInput)
    requires
        w.app_state == AppState::InGame,
    ensures
        stepped(w, input).player == player_moved(w.player, cue_of(w, input)),
{
}

/// A frame ends a running game exactly when, once everything has moved, the
/// player overlaps an enemy.
pub proof fn lemma_hit_ends_game(w: WorldView, input: FrameInput)
    requires
        w.app_state == AppState::InGame,
    ensures
        stepped(w, input).app_state == AppState::GameOver <==> exists|i: int|
            0 <= i < after_motion(w, input).enemies.len() && hits(
                after_motion(w, input).player,
                #[trigger] after_motion(w, input).enemies[i],
                enemy_size(),
            ),
{
    let moved = after_motion(w, input);
    lemma_judged_over(moved.player, moved.enemies);
}

/// A game that is over is not changed by any number of frames.
pub proof fn lemma_game_over_is_terminal(w: WorldView, inputs: Seq<FrameInput>)
    requires
        w.app_state == AppState::GameOver,
    ensures
        run(w, inputs) == w,
    decreases inputs.len(),
{
    if inputs.len() > 0 {
        lemma_game_over_is_terminal(w, inputs.drop_last());
    }
}

/// Once a game is over after some of its frames, it is over after every
/// later one, and nothing in the world changes any more.
pub proof fn lemma_game_over_lasts(w: WorldView, inputs: Seq<FrameInput>, k: int)
    requires
        0 <= k <= inputs.len(),
        run(w, inputs.take(k)).app_state == AppState::GameOver,
    ensures
        run(w, inputs) == run(w, inputs.take(k)),
        run(w, inputs).app_state == AppState::GameOver,
    decreases inputs.len(),
{
    if k < inputs.len() {
        assert(inputs.drop_last().take(k) =~= inputs.take(k));
        lemma_game_over_lasts(w, inputs.drop_last(), k);
    } else {
        assert(inputs.take(k) =~= inputs);
    }
}

/// The score after a frame is no less than before it.
pub proof fn lemma_step_keeps_score(w: WorldView, input: FrameInput)
    requires
        can_step(w, input),
    ensures
        stepped(w, input).game_state.score >= w.game_state.score,
{
}

/// The score never drops: after any number of frames it is no less than
/// after the first `k` of them.
pub proof fn lemma_score_never_drops(w: WorldView, inputs: Seq<FrameInput>, k: int)
    requires
        can_run(w, inputs),
        0 <= k <= inputs.len(),
    ensures
        run(w, inputs.take(k)).game_state.score <= run(w, inputs).game_state.score,
    decreases inputs.len(),
{
    if k < inputs.len() {
        assert(inputs.drop_last().take(k) =~= inputs.take(k));
        lemma_score_never_drops(w, inputs.drop_last(), k);
        lemma_step_keeps_score(run(w, inputs.drop_last()), inputs.last());
    } else {
        assert(inputs.take(k) =~= inputs);
    }
}

/// A frame keeps the spawn queues in their steady state.
pub proof fn lemma_step_keeps_wf(w: WorldView, input: FrameInput)
    requires
        w.wf(),
    ensures
        stepped(w, input).wf(),
        w.settled() ==> stepped(w, input).settled(),
{
    if w.app_state == AppState::InGame {
        let grounded = ground_moved(w, input.dt);
        lemma_ground_moved_wf(w, input.dt);
        lemma_survivors_len(
            grounded.enemies,
            ramped(grounded.game_state, input.dt).difficulty_multiplier,
            input.dt,
        );
    }
}

/// The steady state of the spawn queues holds after every frame of a
/// session, as it does at its start: one or two ground segments are queued
/// and at most three enemies, one handle for each that is alive.
pub proof fn lemma_run_keeps_wf(w: WorldView, inputs: Seq<FrameInput>)
    requires
        w.wf(),
    ensures
        initial_world().settled(),
        run(w, inputs).wf(),
        w.settled() ==> run(w, inputs).settled(),
    decreases inputs.len(),
{
    if inputs.len() > 0 {
        lemma_run_keeps_wf(w, inputs.drop_last());
        lemma_step_keeps_wf(run(w, inputs.drop_last()), inputs.last());
    }
}

/// Whether the world has room for a frame of `dt` microseconds, whatever
/// is drawn for it. A game that is over always has. A running game has
/// where every object has room to scroll, the enemies even under the next
/// multiplier; the player lies within the reach and climbs no further than
/// the reach; the three stopwatches can run on; and handles, score and
/// multiplier leave room for what the frame may spawn or collect.
pub open spec fn has_room(w: WorldView, dt: u64) -> bool {
    w.app_state == AppState::InGame ==> {
        &&& w.game_state.difficulty_multiplier + 1 + ONE * (w.power_ups.len() + 1) <= u32::MAX
        &&& row_has_room(w.grounds, w.game_state.difficulty_multiplier, dt)
        &&& row_has_room(w.enemies, (w.game_state.difficulty_multiplier + 1) as u32, dt)
        &&& row_has_room(w.power_ups, ONE, dt)
        &&& -REACH <= w.player.position.translation.y <= REACH
        &&& JUMP_RISE * dt <= REACH
        &&& w.game_state.difficulty_timer.can_tick(dt)
        &&& w.game_state.power_up_timer.can_tick(dt)
        &&& w.player.jump_duration.can_tick(dt)
        &&& w.next_handle + w.grounds.len() + 2 <= u64::MAX
        &&& w.game_state.score + w.enemies.len() + 1 + POWER_UP_SCORE * (w.power_ups.len() + 1)
            <= u64::MAX
    }
}

/// Tests whether the world has room for a frame of `dt` microseconds.
pub fn frame_fits(world: &World, dt: u64) -> (room: bool)
    ensures
        room == has_room(world@, dt),
{
    if world.app_state == AppState::GameOver {
        return true;
    }
    let multiplier: u32 = world.game_state.difficulty_multiplier;
    let picked: u128 = world.power_ups.len() as u128 + 1;
    assert(ONE * picked == 10 * picked && POWER_UP_SCORE * picked == 150 * picked
        && JUMP_RISE * dt == 9_000 * dt);
    if multiplier as u128 + 1 + ONE as u128 * picked > u32::MAX as u128 {
        return false;
    }
    let y: i64 = world.player.position.translation.y;
    if y < -REACH || y > REACH || JUMP_RISE as u128 * dt as u128 > REACH as u128 {
        return false;
    }
    if dt > u64::MAX - world.game_state.difficulty_timer.elapsed() || dt > u64::MAX
        - world.game_state.power_up_timer.elapsed() || dt > u64::MAX
        - world.player.jump_duration.elapsed() {
        return false;
    }
    if world.next_handle as u128 + world.grounds.len() as u128 + 2 > u64::MAX as u128 {
        return false;
    }
    if world.game_state.score as u128 + world.enemies.len() as u128 + 1 + POWER_UP_SCORE as u128
        * picked > u64::MAX as u128 {
        return false;
    }
    row_fits(&world.grounds, multiplier, dt) && row_fits(&world.enemies, multiplier + 1, dt)
        && row_fits(&world.power_ups, ONE, dt)
}

/// A world that has room for a frame can run it, whatever is drawn for it.
pub proof fn lemma_room_suffices(w: WorldView, dt: u64, jump_pressed: bool)
    requires
        has_room(w, dt),
    ensures
        can_run_frame(w, dt, jump_pressed),
{
    assert forall|enemy_slot: u64, power_up_threshold: u64|
        1 <= enemy_slot <= ENEMY_SLOTS && POWER_UP_DELAY_MIN <= power_up_threshold
            < POWER_UP_DELAY_END implies can_step(
        w,
        #[trigger] drawn(dt, jump_pressed, enemy_slot, power_up_threshold),
    ) by {
        if w.app_state == AppState::InGame {
            lemma_room_for(w, drawn(dt, jump_pressed, enemy_slot, power_up_threshold));
        }
    }
}

/// The same for one frame whose drawn numbers lie in their ranges.
proof fn lemma_room_for(w: WorldView, input: FrameInput)
    requires
        w.app_state == AppState::InGame,
        has_room(w, input.dt),
        1 <= input.enemy_slot <= ENEMY_SLOTS,
        POWER_UP_DELAY_MIN <= input.power_up_threshold < POWER_UP_DELAY_END,
    ensures
        can_step(w, input),
{
    let dt = input.dt;
    let multiplier = w.game_state.difficulty_multiplier;
    let next = (multiplier + 1) as u32;
    let grounded = ground_moved(w, dt);
    let cleared = enemies_moved(grounded, dt);
    let scrolled = after_scroll(w, input);
    let powered = power_up_spawned(scrolled, dt, input.power_up_threshold);
    let spawned = after_spawn(w, input);
    let fallen = after_gravity(w, input);
    let moved = after_motion(w, input);
    let met = enemies_met(moved);

    lemma_strip_handles(strip_of(w), w.grounds, multiplier, dt);
    assert(can_move_ground(w, dt));
    assert(grounded.next_handle <= w.next_handle + w.grounds.len());
    assert(grounded.game_state.difficulty_multiplier == multiplier);

    let ramp = ramped(grounded.game_state, dt).difficulty_multiplier;
    assert(ramp == multiplier || ramp == next);
    assert forall|i: int| 0 <= i < w.enemies.len() implies (#[trigger] w.enemies[i]).can_scroll(
        travel(w.enemies[i].movement_speed, ramp, dt),
    ) by {
        lemma_travel_grows(w.enemies[i].movement_speed, ramp, next, dt);
    }
    assert(can_move_enemies(grounded, dt));
    lemma_survivors_len(w.enemies, ramp, dt);
    assert(cleared.enemies.len() <= w.enemies.len());

    assert(can_move_power_ups(cleared, dt));
    lemma_survivors_len(w.power_ups, ONE, dt);
    assert(scrolled.power_ups.len() <= w.power_ups.len());
    assert(scrolled.next_handle == grounded.next_handle);

    assert(can_spawn_power_up(scrolled, dt, input.power_up_threshold));
    assert(powered.power_ups.len() <= w.power_ups.len() + 1);
    assert(powered.next_handle <= w.next_handle + w.grounds.len() + 1);

    assert(can_spawn_enemy(powered, input.enemy_slot));
    assert(spawned.enemies.len() <= w.enemies.len() + 1);
    assert(spawned.player == w.player);

    assert(can_apply_gravity(spawned, dt));
    assert(fallen.player.jump_duration == w.player.jump_duration);
    assert(fallen.player.position.translation.y <= w.player.position.translation.y);

    assert(can_jump(fallen.player, dt, input.jump_pressed));
    assert(moved.enemies == spawned.enemies);
    assert(moved.game_state.score == w.game_state.score);

    lemma_judged_over(moved.player, moved.enemies);
    assert(can_meet_enemies(moved));
    assert(met.game_state.score <= w.game_state.score + w.enemies.len() + 1);
    assert(met.power_ups == powered.power_ups);
    assert(met.game_state.difficulty_multiplier <= multiplier + 1);

    lemma_collected_len(met.player, met.power_ups);
    assert(can_meet_power_ups(met));
}

/// Runs one frame of the game where the world has room for it, and leaves
/// the world as it is where it has not. Returns whether the jump sound is
/// due, or nothing where the frame has not been run.
pub fn try_run_frame(world: &mut World, dt: u64, jump_pressed: bool) -> (sound: Option<bool>)
    ensures
        sound is Some <==> has_room(old(world)@, dt),
        sound is None ==> final(world)@ == old(world)@,
        sound is Some ==> exists|enemy_slot: u64, power_up_threshold: u64|
            {
                let input = #[trigger] drawn(dt, jump_pressed, enemy_slot, power_up_threshold);
                &&& 1 <= enemy_slot <= ENEMY_SLOTS
                &&& POWER_UP_DELAY_MIN <= power_up_threshold < POWER_UP_DELAY_END
                &&& final(world)@ == stepped(old(world)@, input)
                &&& sound == Some(jump_sounds(old(world)@, input))
            },
        old(world).app_state == AppState::GameOver ==> final(world)@ == old(world)@,
        final(world).game_state.score >= old(world).game_state.score,
        old(world)@.wf() ==> final(world)@.wf(),
        old(world)@.settled() ==> final(world)@.settled(),
{
    if frame_fits(world, dt) {
        proof {
            lemma_room_suffices(world@, dt, jump_pressed);
        }
        Some(run_frame(world, dt, jump_pressed))
    } else {
        None
    }
}

} // verus!
