//! What comes of the player meeting enemies and power-ups: the score, the
//! difficulty, and the end of the game.

use crate::geometry::{boxes_overlap, overlaps, Size};
use crate::model::{AppState, Enemy, GameStateView, Player, PowerUp, Scroller, World, WorldView};
use crate::units::{enemy_size, player_size, power_up_size, ONE, POWER_UP_SCORE};
use vstd::prelude::*;

verus! {

/// Whether the box of the player overlaps the box of size `size` around
/// `object`.
pub open spec fn hits(player: Player, object: Scroller, size: Size) -> bool {
    boxes_overlap(player.position.translation, player_size(), object.position.translation, size)
}

/// Whether the player has left `enemy` behind: the enemy lies further left.
pub open spec fn has_passed(player: Player, enemy: Enemy) -> bool {
    enemy.position.translation.x < player.position.translation.x
}

/// What the enemies have come to: how many of them score, and whether the
/// game is over.
pub struct Tally {
    pub passed: nat,
    pub over: bool,
}

/// Goes through the enemies in their order until the player hits one. Every
/// enemy reached that the player has left behind scores, the one hit too;
/// those after the one hit no longer count.
pub open spec fn enemies_judged(player: Player, enemies: Seq<Enemy>) -> Tally
    decreases enemies.len(),
{
    if enemies.len() == 0 {
        Tally { passed: 0, over: false }
    } else {
        let before = enemies_judged(player, enemies.drop_last());
        if before.over {
            before
        } else {
            Tally {
                passed: before.passed + if has_passed(player, enemies.last()) {
                    1nat
                } else {
                    0nat
                },
                over: hits(player, enemies.last(), enemy_size()),
            }
        }
    }
}

/// The world after the player has met the enemies. A game that is over
/// stays as it is. Otherwise each enemy that counts and lies behind the
/// player adds one to the score, and a hit ends the game.
pub open spec fn enemies_met(w: WorldView) -> WorldView {
    if w.app_state == AppState::GameOver {
        w
    } else {
        let tally = enemies_judged(w.player, w.enemies);
        WorldView {
            app_state: if tally.over {
                AppState::GameOver
            } else {
                AppState::InGame
            },
            game_state: GameStateView {
                score: (w.game_state.score + tally.passed) as u64,
                ..w.game_state
            },
            ..w
        }
    }
}

/// Whether the enemies can be met within the range of the machine's
/// numbers.
pub open spec fn can_meet_enemies(w: WorldView) -> bool {
    w.app_state == AppState::InGame ==> w.game_state.score + enemies_judged(
        w.player,
        w.enemies,
    ).passed <= u64::MAX
}

/// Once the player has hit an enemy, the enemies after it change nothing.
proof fn lemma_judged_stops(player: Player, enemies: Seq<Enemy>, k: int)
    requires
        0 <= k <= enemies.len(),
        enemies_judged(player, enemies.take(k)).over,
    ensures
        enemies_judged(player, enemies) == enemies_judged(player, enemies.take(k)),
    decreases enemies.len(),
{
    if k < enemies.len() {
        assert(enemies.drop_last().take(k) =~= enemies.take(k));
        lemma_judged_stops(player, enemies.drop_last(), k);
    } else {
        assert(enemies.take(k) =~= enemies);
    }
}

/// The game is over exactly when the player hits one of the enemies, and no
/// more enemies score than there are.
pub proof fn lemma_judged_over(player: Player, enemies: Seq<Enemy>)
    ensures
        enemies_judged(player, enemies).over <==> exists|i: int|
            0 <= i < enemies.len() && hits(player, #[trigger] enemies[i], enemy_size()),
        enemies_judged(player, enemies).passed <= enemies.len(),
    decreases enemies.len(),
{
    if enemies.len() > 0 {
        let shorter = enemies.drop_last();
        lemma_judged_over(player, shorter);
        if enemies_judged(player, shorter).over {
            let i = choose|i: int|
                0 <= i < shorter.len() && hits(player, #[trigger] shorter[i], enemy_size());
            assert(hits(player, enemies[i], enemy_size()));
        } else if hits(player, enemies.last(), enemy_size()) {
            assert(hits(player, enemies[enemies.len() - 1], enemy_size()));
        } else if exists|i: int|
            0 <= i < enemies.len() && hits(player, #[trigger] enemies[i], enemy_size()) {
            let i = choose|i: int|
                0 <= i < enemies.len() && hits(player, #[trigger] enemies[i], enemy_size());
            assert(hits(player, shorter[i], enemy_size()));
        }
    }
}

/// Scores the enemies that the player has left behind and ends the game
/// when the player hits one. An enemy scores anew in every frame in which it
/// lies behind the player. An enemy that is hit stays where it is.
pub fn enemy_interact_system(world: &mut World)
    requires
        can_meet_enemies(old(world)@),
    ensures
        final(world)@ == enemies_met(old(world)@),
        final(world).app_state == AppState::GameOver <==> old(world).app_state
            == AppState::GameOver || exists|i: int|
            0 <= i < old(world).enemies.len() && hits(
                old(world).player,
                #[trigger] old(world).enemies@[i],
                enemy_size(),
            ),
        final(world).game_state.score >= old(world).game_state.score,
        old(world)@.wf() ==> final(world)@.wf(),
        old(world)@.settled() ==> final(world)@.settled(),
{
    proof {
        lemma_judged_over(world.player, world.enemies@);
    }
    if world.app_state == AppState::GameOver {
        return ;
    }
    let count: usize = world.enemies.len();
    let mut i: usize = 0;
    let mut over: bool = false;
    let mut passed: u64 = 0;
    while i < count && !over
        invariant
            i <= count,
            count == world.enemies.len(),
            *world == *old(world),
            can_meet_enemies(world@),
            world.app_state == AppState::InGame,
            enemies_judged(world.player, world.enemies@.take(i as int)) == (Tally {
                passed: passed as nat,
                over,
            }),
            passed <= i,
        decreases count - i,
    {
        proof {
            assert(world.enemies@.take(i + 1).drop_last() =~= world.enemies@.take(i as int));
            assert(world.enemies@.take(i + 1).last() == world.enemies@[i as int]);
        }
        let enemy: Enemy = world.enemies[i];
        if enemy.position.translation.x < world.player.position.translation.x {
            passed = passed + 1;
        }
        if overlaps(
            world.player.position.translation,
            player_size(),
            enemy.position.translation,
            enemy_size(),
        ) {
            over = true;
        }
        i += 1;
    }
    proof {
        if over {
            lemma_judged_stops(world.player, world.enemies@, i as int);
        } else {
            assert(world.enemies@.take(count as int) =~= world.enemies@);
        }
    }
    world.game_state.score = world.game_state.score + passed;
    if over {
        world.app_state = AppState::GameOver;
    }
}

/// The power-ups of `power_ups` that the player does not hit, in their
/// order.
pub open spec fn uncollected(player: Player, power_ups: Seq<PowerUp>) -> Seq<PowerUp>
    decreases power_ups.len(),
{
    if power_ups.len() == 0 {
        Seq::empty()
    } else if hits(player, power_ups.last(), power_up_size()) {
        uncollected(player, power_ups.drop_last())
    } else {
        uncollected(player, power_ups.drop_last()).push(power_ups.last())
    }
}

/// The number of power-ups of `power_ups` that the player hits.
pub open spec fn collected(player: Player, power_ups: Seq<PowerUp>) -> nat
    decreases power_ups.len(),
{
    if power_ups.len() == 0 {
        0
    } else if hits(player, power_ups.last(), power_up_size()) {
        collected(player, power_ups.drop_last()) + 1
    } else {
        collected(player, power_ups.drop_last())
    }
}

/// The world after the player has met the power-ups. A game that is over
/// stays as it is. Otherwise every power-up hit is taken away, adds its
/// points to the score and raises the difficulty multiplier by one.
pub open spec fn power_ups_met(w: WorldView) -> WorldView {
    if w.app_state == AppState::GameOver {
        w
    } else {
        let hit = collected(w.player, w.power_ups);
        WorldView {
            game_state: GameStateView {
                score: (w.game_state.score + POWER_UP_SCORE * hit) as u64,
                difficulty_multiplier: (w.game_state.difficulty_multiplier + ONE * hit) as u32,
                ..w.game_state
            },
            power_ups: uncollected(w.player, w.power_ups),
            ..w
        }
    }
}

/// Whether the power-ups can be met within the range of the machine's
/// numbers.
pub open spec fn can_meet_power_ups(w: WorldView) -> bool {
    w.app_state == AppState::InGame ==> {
        &&& w.game_state.score + POWER_UP_SCORE * collected(w.player, w.power_ups) <= u64::MAX
        &&& w.game_state.difficulty_multiplier + ONE * collected(w.player, w.power_ups)
            <= u32::MAX
    }
}

/// Every power-up is either hit or left.
pub proof fn lemma_collected_len(player: Player, power_ups: Seq<PowerUp>)
    ensures
        collected(player, power_ups) + uncollected(player, power_ups).len() == power_ups.len(),
    decreases power_ups.len(),
{
    if power_ups.len() > 0 {
        lemma_collected_len(player, power_ups.drop_last());
    }
}

/// No more power-ups are hit among the first few than among all.
proof fn lemma_collected_grows(player: Player, power_ups: Seq<PowerUp>, k: int)
    requires
        0 <= k <= power_ups.len(),
    ensures
        collected(player, power_ups.take(k)) <= collected(player, power_ups),
    decreases power_ups.len(),
{
    if k < power_ups.len() {
        assert(power_ups.drop_last().take(k) =~= power_ups.take(k));
        lemma_collected_grows(player, power_ups.drop_last(), k);
    } else {
        assert(power_ups.take(k) =~= power_ups);
    }
}

/// Takes away the power-ups that the player hits; each raises the score and
/// the difficulty.
pub fn power_up_interact_system(world: &mut World)
    requires
        can_meet_power_ups(old(world)@),
    ensures
        final(world)@ == power_ups_met(old(world)@),
        final(world).game_state.score >= old(world).game_state.score,
        final(world).app_state == old(world).app_state,
        old(world)@.wf() ==> final(world)@.wf(),
        old(world)@.settled() ==> final(world)@.settled(),
{
    if world.app_state == AppState::GameOver {
        return ;
    }
    let count: usize = world.power_ups.len();
    let mut kept: Vec<PowerUp> = Vec::new();
    let mut i: usize = 0;
    while i < count
        invariant
            i <= count,
            count == old(world).power_ups.len(),
            world.app_state == old(world).app_state,
            world.app_state == AppState::InGame,
            world.player == old(world).player,
            world.grounds@ == old(world).grounds@,
            world.enemies@ == old(world).enemies@,
            world.power_ups@ == old(world).power_ups@,
            world.next_handle == old(world).next_handle,
            can_meet_power_ups(old(world)@),
            kept@ == uncollected(world.player, world.power_ups@.take(i as int)),
            world.game_state@ == (GameStateView {
                score: (old(world).game_state.score + POWER_UP_SCORE * collected(
                    world.player,
                    world.power_ups@.take(i as int),
                )) as u64,
                difficulty_multiplier: (old(world).game_state.difficulty_multiplier + ONE
                    * collected(world.player, world.power_ups@.take(i as int))) as u32,
                ..old(world).game_state@
            }),
        decreases count - i,
    {
        proof {
            assert(world.power_ups@.take(i + 1).drop_last() =~= world.power_ups@.take(i as int));
            assert(world.power_ups@.take(i + 1).last() == world.power_ups@[i as int]);
            lemma_collected_grows(world.player, world.power_ups@, i as int);
            lemma_collected_grows(world.player, world.power_ups@, i + 1);
        }
        let power_up: PowerUp = world.power_ups[i];
        if overlaps(
            world.player.position.translation,
            player_size(),
            power_up.position.translation,
            power_up_size(),
        ) {
            world.game_state.score = world.game_state.score + POWER_UP_SCORE;
            world.game_state.difficulty_multiplier = world.game_state.difficulty_multiplier
                + ONE;
        } else {
            kept.push(power_up);
        }
        i += 1;
    }
    proof {
        assert(world.power_ups@.take(count as int) =~= world.power_ups@);
    }
    world.power_ups = kept;
}

} // verus!
