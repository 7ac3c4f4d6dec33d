//! The player's motion: the fall under gravity, the contact with the ground,
//! and the two phases of a jump.

use crate::geometry::{boxes_overlap, overlaps, Point};
use crate::model::{Ground, Player, Position, World, WorldView};
use crate::stopwatch::Stopwatch;
use crate::units::{
    ground_size, player_size, GRAVITY, JUMP_END, JUMP_HEIGHT, JUMP_RISE, JUMP_RISE_END,
    JUMP_SETTLE,
};
use vstd::arithmetic::div_mod::{lemma_div_multiples_vanish, lemma_fundamental_div_mod};
use vstd::prelude::*;

verus! {

/// The position `by` ticks higher.
pub open spec fn raised(position: Position, by: int) -> Position {
    Position {
        translation: Point {
            x: position.translation.x,
            y: (position.translation.y + by) as i64,
        },
        scale: position.scale,
    }
}

/// Whether the box of the player overlaps the box of the segment `ground`.
pub open spec fn stands_on(player: Player, ground: Ground) -> bool {
    boxes_overlap(
        player.position.translation,
        player_size(),
        ground.position.translation,
        ground_size(),
    )
}

/// Whether the box of the player overlaps that of some ground segment.
pub open spec fn touches_ground(player: Player, grounds: Seq<Ground>) -> bool {
    exists|i: int| 0 <= i < grounds.len() && stands_on(player, #[trigger] grounds[i])
}

/// The player after gravity has acted for `dt` microseconds, `touching`
/// telling whether the player touches the ground. A player that touches the
/// ground or is jumping is on the ground and keeps its height; any other
/// falls, by a distance that grows with the time alone.
pub open spec fn fallen(player: Player, touching: bool, dt: u64) -> Player {
    if touching || player.is_jumping {
        Player { on_ground: true, ..player }
    } else {
        Player { position: raised(player.position, -(GRAVITY * dt)), on_ground: false, ..player }
    }
}

/// Whether gravity can act within the range of the machine's numbers.
pub open spec fn can_fall(player: Player, touching: bool, dt: u64) -> bool {
    !touching && !player.is_jumping ==> player.position.translation.y - GRAVITY * dt >= i64::MIN
}

/// The world after gravity has acted on the player.
pub open spec fn gravity_applied(w: WorldView, dt: u64) -> WorldView {
    WorldView { player: fallen(w.player, touches_ground(w.player, w.grounds), dt), ..w }
}

/// Whether gravity can act on the player of `w`.
pub open spec fn can_apply_gravity(w: WorldView, dt: u64) -> bool {
    can_fall(w.player, touches_ground(w.player, w.grounds), dt)
}

/// A row of segments with one more at its end is touched exactly when the
/// row is or the last segment is.
proof fn lemma_touches_push(player: Player, grounds: Seq<Ground>, last: Ground)
    ensures
        touches_ground(player, grounds.push(last)) == (touches_ground(player, grounds) || stands_on(
            player,
            last,
        )),
{
    let longer = grounds.push(last);
    if touches_ground(player, grounds) {
        let i = choose|i: int| 0 <= i < grounds.len() && stands_on(player, #[trigger] grounds[i]);
        assert(stands_on(player, longer[i]));
    }
    if stands_on(player, last) {
        assert(stands_on(player, longer[grounds.len() as int]));
    }
    if touches_ground(player, longer) {
        let i = choose|i: int| 0 <= i < longer.len() && stands_on(player, #[trigger] longer[i]);
        if i < grounds.len() {
            assert(stands_on(player, grounds[i]));
        }
    }
}

/// Tests the player against every ground segment and lets it fall where it
/// neither touches one nor jumps.
pub fn gravity_system(world: &mut World, dt: u64)
    requires
        can_apply_gravity(old(world)@, dt),
    ensures
        final(world)@ == gravity_applied(old(world)@, dt),
        old(world)@.wf() ==> final(world)@.wf(),
        old(world)@.settled() ==> final(world)@.settled(),
{
    let count: usize = world.grounds.len();
    let mut touching: bool = false;
    let mut i: usize = 0;
    while i < count
        invariant
            i <= count,
            count == world.grounds.len(),
            *world == *old(world),
            touching == touches_ground(world.player, world.grounds@.take(i as int)),
        decreases count - i,
    {
        proof {
            assert(world.grounds@.take(i + 1) =~= world.grounds@.take(i as int).push(
                world.grounds@[i as int],
            ));
            lemma_touches_push(world.player, world.grounds@.take(i as int), world.grounds@[i as int]);
        }
        if overlaps(
            world.player.position.translation,
            player_size(),
            world.grounds[i].position.translation,
            ground_size(),
        ) {
            touching = true;
        }
        i += 1;
    }
    proof {
        assert(world.grounds@.take(count as int) =~= world.grounds@);
    }
    if !touching && !world.player.is_jumping {
        let y: i128 = world.player.position.translation.y as i128 - GRAVITY as i128 * dt as i128;
        world.player.position.translation.y = y as i64;
        world.player.on_ground = false;
    } else {
        world.player.on_ground = true;
    }
}

/// Whether a jump starts: the jump key has just gone down while the player
/// is on the ground and not jumping.
pub open spec fn jump_starts(player: Player, pressed: bool) -> bool {
    pressed && player.on_ground && !player.is_jumping
}

/// What the jump stopwatch shows in a frame of `dt` microseconds once it has
/// run on and, where a jump starts, has been set back.
pub open spec fn jump_time(player: Player, dt: u64, pressed: bool) -> Stopwatch {
    if jump_starts(player, pressed) {
        Stopwatch { elapsed: 0 }
    } else {
        player.jump_duration.ticked(dt)
    }
}

/// The height the player gains in a frame of `dt` microseconds: while a jump
/// is less than three tenths of a second old, the fast rise; while it is
/// less than four tenths old, the settling; otherwise nothing.
pub open spec fn climb(player: Player, dt: u64, pressed: bool) -> int {
    let jumping = player.is_jumping || jump_starts(player, pressed);
    let time = jump_time(player, dt, pressed).elapsed;
    if jumping && time < JUMP_RISE_END {
        JUMP_RISE * dt
    } else if jumping && time < JUMP_END {
        JUMP_SETTLE * dt
    } else {
        0
    }
}

/// The player after the jump rules have run for a frame of `dt`
/// microseconds, `pressed` telling whether the jump key has just gone down.
/// The stopwatch runs on in every frame and is set back when a jump starts.
/// A jump lasts until its stopwatch shows four tenths of a second.
pub open spec fn jumped(player: Player, dt: u64, pressed: bool) -> Player {
    let starts = jump_starts(player, pressed);
    let time = jump_time(player, dt, pressed);
    Player {
        position: raised(player.position, climb(player, dt, pressed)),
        is_jumping: (player.is_jumping || starts) && time.elapsed < JUMP_END,
        on_ground: player.on_ground && !starts,
        jump_duration: time,
    }
}

/// Whether the jump rules can run within the range of the machine's numbers.
pub open spec fn can_jump(player: Player, dt: u64, pressed: bool) -> bool {
    &&& player.jump_duration.can_tick(dt)
    &&& player.position.translation.y + climb(player, dt, pressed) <= i64::MAX
}

/// The world after the jump rules have run.
pub open spec fn jump_applied(w: WorldView, dt: u64, pressed: bool) -> WorldView {
    WorldView { player: jumped(w.player, dt, pressed), ..w }
}

/// Runs the jump rules for one frame. Returns whether a jump has started,
/// which is when the jump sound is due.
pub fn jump_system(world: &mut World, dt: u64, pressed: bool) -> (started: bool)
    requires
        can_jump(old(world)@.player, dt, pressed),
    ensures
        final(world)@ == jump_applied(old(world)@, dt, pressed),
        started == jump_starts(old(world)@.player, pressed),
        old(world)@.wf() ==> final(world)@.wf(),
        old(world)@.settled() ==> final(world)@.settled(),
{
    world.player.jump_duration.tick(dt);
    let started: bool = pressed && world.player.on_ground && !world.player.is_jumping;
    if started {
        world.player.is_jumping = true;
        world.player.on_ground = false;
        world.player.jump_duration.reset();
    }
    if world.player.is_jumping {
        let time: u64 = world.player.jump_duration.elapsed();
        if time < JUMP_RISE_END {
            let y: i128 = world.player.position.translation.y as i128 + JUMP_RISE as i128
                * dt as i128;
            world.player.position.translation.y = y as i64;
        } else if time < JUMP_END {
            let y: i128 = world.player.position.translation.y as i128 + JUMP_SETTLE as i128
                * dt as i128;
            world.player.position.translation.y = y as i64;
        } else {
            world.player.is_jumping = false;
        }
    }
    started
}

/// What one frame brings to the player: its length in microseconds, whether
/// the player touches the ground in it, and whether the jump key has just
/// gone down.
pub struct Cue {
    pub dt: u64,
    pub touching: bool,
    pub pressed: bool,
}

/// The player after one frame: gravity acts, then the jump rules run.
pub open spec fn player_moved(player: Player, cue: Cue) -> Player {
    jumped(fallen(player, cue.touching, cue.dt), cue.dt, cue.pressed)
}

/// The player after one frame for each cue of `cues`.
pub open spec fn player_run(player: Player, cues: Seq<Cue>) -> Player
    decreases cues.len(),
{
    if cues.len() == 0 {
        player
    } else {
        player_moved(player_run(player, cues.drop_last()), cues.last())
    }
}

/// The state of a jump after its first `k` frames, where `m` frames make a
/// tenth of a second.
proof fn lemma_jump_prefix(player: Player, dt: u64, m: int, cues: Seq<Cue>, k: int)
    requires
        !player.is_jumping,
        dt * m == JUMP_END - JUMP_RISE_END,
        1 <= k <= 4 * m + 1,
        k <= cues.len(),
        forall|j: int| 0 <= j < cues.len() ==> (#[trigger] cues[j]).dt == dt,
        cues[0].touching,
        cues[0].pressed,
        player.position.translation.y + JUMP_HEIGHT <= i64::MAX,
    ensures
        ({
            let now = player_run(player, cues.take(k));
            &&& now.position.translation.x == player.position.translation.x
            &&& now.position.scale == player.position.scale
            &&& now.jump_duration.elapsed == (k - 1) * dt
            &&& now.is_jumping == (k <= 4 * m)
            &&& k <= 3 * m ==> now.position.translation.y == player.position.translation.y
                + JUMP_RISE * (dt * k)
            &&& 3 * m < k <= 4 * m ==> now.position.translation.y == player.position.translation.y
                + JUMP_RISE * JUMP_RISE_END + JUMP_SETTLE * (dt * (k - 3 * m))
            &&& k == 4 * m + 1 ==> now.position.translation.y == player.position.translation.y
                + JUMP_HEIGHT
        }),
    decreases k,
{
    let d: int = dt as int;
    let y: int = player.position.translation.y as int;
    assert(d > 0 && m > 0) by (nonlinear_arith)
        requires
            d * m == 100_000,
            d >= 0,
    ;
    assert(d <= 100_000) by (nonlinear_arith)
        requires
            d * m == 100_000,
            d > 0,
            m > 0,
    ;
    assert(d * (3 * m) == 300_000 && d * (4 * m) == 400_000) by (nonlinear_arith)
        requires
            d * m == 100_000,
    ;
    assert(cues.take(k).drop_last() =~= cues.take(k - 1));
    assert(cues.take(k).last() == cues[k - 1]);
    let cue = cues[k - 1];
    let now = player_run(player, cues.take(k));
    if k == 1 {
        assert(player_run(player, cues.take(0)) == player);
        let grounded = fallen(player, cue.touching, dt);
        assert(now == jumped(grounded, dt, cue.pressed));
        assert(jump_starts(grounded, cue.pressed));
        assert(jump_time(grounded, dt, cue.pressed).elapsed == 0);
        assert(climb(grounded, dt, cue.pressed) == JUMP_RISE * d);
        assert(d * 1 == d && (1 - 1) * d == 0) by (nonlinear_arith);
    } else {
        lemma_jump_prefix(player, dt, m, cues, k - 1);
        let before = player_run(player, cues.take(k - 1));
        let grounded = fallen(before, cue.touching, dt);
        assert(now == jumped(grounded, dt, cue.pressed));
        assert(before.is_jumping);
        assert(grounded == Player { on_ground: true, ..before });
        assert(!jump_starts(grounded, cue.pressed));
        assert((k - 2) * d + d == (k - 1) * d) by (nonlinear_arith);
        assert((k - 2) * d <= 400_000) by (nonlinear_arith)
            requires
                k - 2 <= 4 * m,
                d > 0,
                d * (4 * m) == 400_000,
        ;
        let time = jump_time(grounded, dt, cue.pressed).elapsed;
        assert(time == (k - 1) * d);
        assert(d * (k - 1) + d == d * k) by (nonlinear_arith);
        assert(d * (k - 1) == (k - 1) * d) by (nonlinear_arith);
        assert(d * (k - 1 - 3 * m) + d == d * (k - 3 * m)) by (nonlinear_arith);
        if k - 1 < 3 * m {
            assert((k - 1) * d < 300_000 && d * k <= 300_000) by (nonlinear_arith)
                requires
                    k - 1 < 3 * m,
                    d > 0,
                    d * (3 * m) == 300_000,
            ;
            assert(climb(grounded, dt, cue.pressed) == JUMP_RISE * d);
            assert(before.position.translation.y == y + JUMP_RISE * (d * (k - 1)));
            assert(now.position.translation.y == y + JUMP_RISE * (d * k));
        } else if k - 1 < 4 * m {
            assert((k - 1) * d >= 300_000) by (nonlinear_arith)
                requires
                    k - 1 >= 3 * m,
                    d > 0,
                    d * (3 * m) == 300_000,
            ;
            assert((k - 1) * d < 400_000 && d * (k - 3 * m) <= 100_000) by (nonlinear_arith)
                requires
                    k - 1 < 4 * m,
                    d > 0,
                    d * (4 * m) == 400_000,
                    d * m == 100_000,
            ;
            assert(climb(grounded, dt, cue.pressed) == JUMP_SETTLE * d);
            if k - 1 == 3 * m {
                assert(d * (k - 1) == 300_000);
                assert(d * (k - 1 - 3 * m) == 0) by (nonlinear_arith)
                    requires
                        k - 1 == 3 * m,
                ;
                assert(before.position.translation.y == y + JUMP_RISE * 300_000);
            } else {
                assert(before.position.translation.y == y + JUMP_RISE * 300_000 + JUMP_SETTLE * (d
                    * (k - 1 - 3 * m)));
            }
            assert(now.position.translation.y == y + JUMP_RISE * 300_000 + JUMP_SETTLE * (d * (k
                - 3 * m)));
        } else {
            assert((k - 1) * d == 400_000 && d * (k - 1 - 3 * m) == 100_000) by (nonlinear_arith)
                requires
                    k - 1 == 4 * m,
                    d * (4 * m) == 400_000,
                    d * m == 100_000,
            ;
            assert(climb(grounded, dt, cue.pressed) == 0);
            assert(before.position.translation.y == y + JUMP_RISE * 300_000 + JUMP_SETTLE
                * 100_000);
            assert(now.position.translation.y == y + JUMP_HEIGHT);
        }
    }
}

/// The jump arc. A player that is not jumping and touches the ground when
/// the jump key goes down is jumping from that frame on. Where all frames
/// are of one length that divides a tenth of a second, the jump is over with the frame in
/// which its stopwatch reaches four tenths of a second, whatever the later
/// frames bring, and has by then lifted the player by the fast rise over
/// three tenths of a second and the settling over one tenth: 280 world
/// units. From then on gravity acts again.
pub proof fn lemma_jump_arc(player: Player, dt: u64, cues: Seq<Cue>)
    requires
        !player.is_jumping,
        dt > 0,
        (JUMP_END - JUMP_RISE_END) % (dt as int) == 0,
        cues.len() == JUMP_END / dt + 1,
        forall|j: int| 0 <= j < cues.len() ==> (#[trigger] cues[j]).dt == dt,
        cues[0].touching,
        cues[0].pressed,
        player.position.translation.y + JUMP_HEIGHT <= i64::MAX,
    ensures
        JUMP_HEIGHT == JUMP_RISE * JUMP_RISE_END + JUMP_SETTLE * (JUMP_END - JUMP_RISE_END),
        forall|k: int|
            1 <= k < cues.len() ==> (#[trigger] player_run(player, cues.take(k))).is_jumping,
        !player_run(player, cues).is_jumping,
        player_run(player, cues).position.translation.y == player.position.translation.y
            + JUMP_HEIGHT,
        player_run(player, cues).position.translation.x == player.position.translation.x,
        player_run(player, cues).jump_duration.elapsed == JUMP_END,
        fallen(player_run(player, cues), false, dt).position == raised(
            player_run(player, cues).position,
            -(GRAVITY * dt),
        ),
{
    let d: int = dt as int;
    let m: int = 100_000int / d;
    lemma_fundamental_div_mod(100_000, d);
    assert(d * m == 100_000);
    assert(d * (4 * m) == 400_000) by (nonlinear_arith)
        requires
            d * m == 100_000,
    ;
    lemma_div_multiples_vanish(4 * m, d);
    assert(cues.len() == 4 * m + 1);
    assert forall|k: int| 1 <= k < cues.len() implies (#[trigger] player_run(
        player,
        cues.take(k),
    )).is_jumping by {
        lemma_jump_prefix(player, dt, m, cues, k);
    }
    lemma_jump_prefix(player, dt, m, cues, 4 * m + 1);
    assert(cues.take(4 * m + 1) =~= cues);
    assert((4 * m + 1 - 1) * d == 400_000) by (nonlinear_arith)
        requires
            d * (4 * m) == 400_000,
    ;
}

/// How far the height gained over a jump can lie from the height of a whole
/// jump when no frame is longer than `longest` microseconds: what the player
/// climbs in one such frame, in the fast rise and in the settling together.
pub open spec fn jump_slack(longest: u64) -> int {
    (JUMP_RISE + JUMP_SETTLE) * longest
}

/// The height gained by a jump after its first `k` frames, whatever their
/// lengths, none of which is more than `longest`.
proof fn lemma_jump_bounds(player: Player, cues: Seq<Cue>, longest: u64, k: int)
    requires
        !player.is_jumping,
        1 <= k <= cues.len(),
        cues[0].touching,
        cues[0].pressed,
        forall|j: int| 0 <= j < cues.len() ==> (#[trigger] cues[j]).dt <= longest,
        forall|j: int| 1 <= j < k ==> (#[trigger] player_run(player, cues.take(j))).is_jumping,
        player.position.translation.y + JUMP_HEIGHT + jump_slack(longest) <= i64::MAX,
        JUMP_END + longest <= u64::MAX,
    ensures
        ({
            let now = player_run(player, cues.take(k));
            let t = now.jump_duration.elapsed as int;
            let h = now.position.translation.y - player.position.translation.y;
            &&& now.position.translation.x == player.position.translation.x
            &&& now.is_jumping ==> t < 400_000
            &&& now.is_jumping && t < 300_000 ==> h == 9_000 * (cues[0].dt + t)
            &&& now.is_jumping && t >= 300_000 ==> 2_700_000_000 - 9_000 * longest + 1_000 * (t
                - 300_000) <= h <= 2_700_000_000 + 9_000 * longest + 1_000 * (t - 300_000
                + longest)
            &&& !now.is_jumping ==> 2_800_000_000 - 10_000 * longest <= h <= 2_800_000_000
                + 10_000 * longest
        }),
    decreases k,
{
    assert(JUMP_RISE == 9_000 && JUMP_SETTLE == 1_000 && JUMP_RISE_END == 300_000 && JUMP_END
        == 400_000 && JUMP_HEIGHT == 2_800_000_000);
    assert(jump_slack(longest) == 10_000 * longest);
    assert(cues.take(k).drop_last() =~= cues.take(k - 1));
    assert(cues.take(k).last() == cues[k - 1]);
    let cue = cues[k - 1];
    let d = cue.dt;
    assert(d <= longest);
    assert(cues[0].dt <= longest);
    let now = player_run(player, cues.take(k));
    if k == 1 {
        assert(player_run(player, cues.take(0)) == player);
        let grounded = fallen(player, cue.touching, d);
        assert(now == jumped(grounded, d, cue.pressed));
        assert(jump_starts(grounded, cue.pressed));
        assert(jump_time(grounded, d, cue.pressed).elapsed == 0);
        assert(climb(grounded, d, cue.pressed) == 9_000 * d);
    } else {
        lemma_jump_bounds(player, cues, longest, k - 1);
        let before = player_run(player, cues.take(k - 1));
        assert(before.is_jumping);
        let grounded = fallen(before, cue.touching, d);
        assert(now == jumped(grounded, d, cue.pressed));
        assert(grounded == Player { on_ground: true, ..before });
        assert(!jump_starts(grounded, cue.pressed));
        let t0 = before.jump_duration.elapsed as int;
        let t = jump_time(grounded, d, cue.pressed).elapsed as int;
        assert(t == t0 + d);
        let h0 = before.position.translation.y - player.position.translation.y;
        if t < 300_000 {
            assert(climb(grounded, d, cue.pressed) == 9_000 * d);
            assert(h0 == 9_000 * (cues[0].dt + t0));
        } else if t < 400_000 {
            assert(climb(grounded, d, cue.pressed) == 1_000 * d);
        } else {
            assert(climb(grounded, d, cue.pressed) == 0);
        }
    }
}

/// The height of a jump, whatever the lengths of the frames. A player that
/// is not jumping and touches the ground when the jump key goes down is, in
/// the frame that ends the jump, higher than before by the height of a whole
/// jump, 280 world units, give or take what it climbs in the longest frame.
pub proof fn lemma_jump_height(player: Player, cues: Seq<Cue>, longest: u64)
    requires
        !player.is_jumping,
        cues.len() > 0,
        cues[0].touching,
        cues[0].pressed,
        forall|j: int| 0 <= j < cues.len() ==> (#[trigger] cues[j]).dt <= longest,
        forall|k: int|
            1 <= k < cues.len() ==> (#[trigger] player_run(player, cues.take(k))).is_jumping,
        !player_run(player, cues).is_jumping,
        player.position.translation.y + JUMP_HEIGHT + jump_slack(longest) <= i64::MAX,
        JUMP_END + longest <= u64::MAX,
    ensures
        JUMP_HEIGHT - jump_slack(longest) <= player_run(player, cues).position.translation.y
            - player.position.translation.y <= JUMP_HEIGHT + jump_slack(longest),
        player_run(player, cues).position.translation.x == player.position.translation.x,
{
    lemma_jump_bounds(player, cues, longest, cues.len() as int);
    assert(cues.take(cues.len() as int) =~= cues);
}

} // verus!
