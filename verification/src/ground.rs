//! Scrolling the ground strip: segments move left, leave once they are
//! behind the origin, and are followed by fresh ones.

use crate::geometry::Point;
use crate::model::{GameStateView, Ground, Position, Scroller, World, WorldView};
use crate::queue::{popped, pushed};
use crate::scroller::travel;
use crate::units::{GROUND_SPAWN_X, GROUND_Y, MAX_GROUNDS, SCREEN_WIDTH};
use vstd::prelude::*;

verus! {

/// Scale at which ground segments are drawn: three.
pub const GROUND_SCALE: u32 = 30;

/// The segment that follows `like`: placed at the spawn mark on the ground
/// line, with the speed and length of `like`.
pub open spec fn fresh_ground(handle: u64, like: Ground) -> Ground {
    Scroller {
        handle,
        position: Position {
            translation: Point { x: GROUND_SPAWN_X, y: GROUND_Y },
            scale: GROUND_SCALE,
        },
        movement_speed: like.movement_speed,
        length: like.length,
    }
}

/// What scrolling has made of the strip so far: the queue of handles, the
/// next free handle, the segments that stay, and the fresh ones.
pub struct Strip {
    pub queue: Seq<u64>,
    pub next_handle: int,
    pub kept: Seq<Ground>,
    pub fresh: Seq<Ground>,
}

/// Scrolls one segment. The segment moves first. If its trailing edge is
/// then behind the origin it leaves and the queue is popped. After that, if
/// its trailing edge is left of the spawn mark and the queue holds fewer
/// than two handles, a fresh segment is made and its handle pushed.
pub open spec fn ground_step(before: Strip, ground: Ground, multiplier: u32, dt: u64) -> Strip {
    let moved = ground.scrolled(travel(ground.movement_speed, multiplier, dt));
    let gone = moved.trailing_edge() < 0;
    let queue = if gone {
        popped(before.queue)
    } else {
        before.queue
    };
    let kept = if gone {
        before.kept
    } else {
        before.kept.push(moved)
    };
    if moved.trailing_edge() < GROUND_SPAWN_X && queue.len() < MAX_GROUNDS {
        Strip {
            queue: pushed(queue, before.next_handle as u64),
            next_handle: before.next_handle + 1,
            kept,
            fresh: before.fresh.push(fresh_ground(before.next_handle as u64, ground)),
        }
    } else {
        Strip { queue, next_handle: before.next_handle, kept, fresh: before.fresh }
    }
}

/// Scrolls the segments of `grounds` one after the other, starting from
/// `start`.
pub open spec fn strip_scrolled(start: Strip, grounds: Seq<Ground>, multiplier: u32, dt: u64) -> Strip
    decreases grounds.len(),
{
    if grounds.len() == 0 {
        start
    } else {
        ground_step(
            strip_scrolled(start, grounds.drop_last(), multiplier, dt),
            grounds.last(),
            multiplier,
            dt,
        )
    }
}

/// The strip before any segment of `w` has been scrolled.
pub open spec fn strip_of(w: WorldView) -> Strip {
    Strip {
        queue: w.game_state.ground_list,
        next_handle: w.next_handle as int,
        kept: Seq::empty(),
        fresh: Seq::empty(),
    }
}

/// The world after the ground has scrolled for `dt` microseconds. The
/// segments that stay come first, in their old order, then the fresh ones.
pub open spec fn ground_moved(w: WorldView, dt: u64) -> WorldView {
    let strip = strip_scrolled(strip_of(w), w.grounds, w.game_state.difficulty_multiplier, dt);
    WorldView {
        game_state: GameStateView { ground_list: strip.queue, ..w.game_state },
        grounds: strip.kept + strip.fresh,
        next_handle: strip.next_handle as u64,
        ..w
    }
}

/// Whether the ground can scroll for `dt` microseconds within the range of
/// the machine's numbers: every segment can move, and the handles do not
/// run out.
pub open spec fn can_move_ground(w: WorldView, dt: u64) -> bool {
    &&& forall|i: int|
        0 <= i < w.grounds.len() ==> (#[trigger] w.grounds[i]).can_scroll(
            travel(w.grounds[i].movement_speed, w.game_state.difficulty_multiplier, dt),
        )
    &&& strip_scrolled(strip_of(w), w.grounds, w.game_state.difficulty_multiplier, dt).next_handle
        <= u64::MAX
}

/// Whether the segment `ground` lies over the point `p` of the x-axis.
pub open spec fn spans(ground: Ground, p: int) -> bool {
    ground.position.translation.x <= p <= ground.trailing_edge()
}

/// Whether some segment of `grounds` lies over `p`.
pub open spec fn covered(grounds: Seq<Ground>, p: int) -> bool {
    exists|i: int| 0 <= i < grounds.len() && spans(#[trigger] grounds[i], p)
}

/// Whether the segments of `grounds` together lie over all of `[lo, hi]`.
pub open spec fn covers(grounds: Seq<Ground>, lo: int, hi: int) -> bool {
    forall|p: int| lo <= p <= hi ==> covered(grounds, p)
}

/// Scrolls every ground segment, retires those that have left and lets
/// fresh ones follow.
pub fn move_ground_system(world: &mut World, dt: u64)
    requires
        can_move_ground(old(world)@, dt),
    ensures
        final(world)@ == ground_moved(old(world)@, dt),
        old(world)@.wf() ==> final(world)@.wf(),
        old(world)@.settled() ==> final(world)@.settled(),
{
    let multiplier: u32 = world.game_state.difficulty_multiplier;
    let count: usize = world.grounds.len();
    let mut kept: Vec<Ground> = Vec::new();
    let mut fresh: Vec<Ground> = Vec::new();
    let mut i: usize = 0;
    while i < count
        invariant
            i <= count,
            count == world.grounds.len(),
            multiplier == old(world).game_state.difficulty_multiplier,
            can_move_ground(old(world)@, dt),
            world.grounds@ == old(world).grounds@,
            world.app_state == old(world).app_state,
            world.player == old(world).player,
            world.enemies@ == old(world).enemies@,
            world.power_ups@ == old(world).power_ups@,
            world.game_state@ == (GameStateView {
                ground_list: world.game_state.ground_list@,
                ..old(world).game_state@
            }),
            strip_scrolled(strip_of(old(world)@), old(world).grounds@.take(i as int), multiplier, dt)
                == (Strip {
                queue: world.game_state.ground_list@,
                next_handle: world.next_handle as int,
                kept: kept@,
                fresh: fresh@,
            }),
        decreases count - i,
    {
        let ghost before = strip_scrolled(
            strip_of(old(world)@),
            old(world).grounds@.take(i as int),
            multiplier,
            dt,
        );
        proof {
            assert(old(world).grounds@.take(i + 1).drop_last() =~= old(world).grounds@.take(
                i as int,
            ));
            assert(old(world)@.grounds[i as int] == old(world).grounds@[i as int]);
            lemma_strip_handles_grow(
                strip_of(old(world)@),
                old(world).grounds@,
                multiplier,
                dt,
                i + 1,
            );
        }
        let seen: Ground = world.grounds[i];
        let mut ground: Ground = seen;
        ground.scroll(multiplier, dt);
        if ground.ends_before(0) {
            world.game_state.ground_list.pop_front();
        } else {
            kept.push(ground);
        }
        if ground.ends_before(GROUND_SPAWN_X) && world.game_state.ground_list.len() < MAX_GROUNDS {
            let handle: u64 = world.next_handle;
            world.next_handle = handle + 1;
            fresh.push(
                Scroller {
                    handle,
                    position: Position {
                        translation: Point { x: GROUND_SPAWN_X, y: GROUND_Y },
                        scale: GROUND_SCALE,
                    },
                    movement_speed: seen.movement_speed,
                    length: seen.length,
                },
            );
            world.game_state.ground_list.push_front(handle);
        }
        proof {
            assert(old(world).grounds@.take(i + 1).last() == seen);
            assert(strip_scrolled(
                strip_of(old(world)@),
                old(world).grounds@.take(i + 1),
                multiplier,
                dt,
            ) == ground_step(before, seen, multiplier, dt));
        }
        i += 1;
    }
    proof {
        assert(old(world).grounds@.take(count as int) =~= old(world).grounds@);
        if old(world)@.wf() {
            lemma_ground_moved_wf(old(world)@, dt);
        }
    }
    kept.append(&mut fresh);
    world.grounds = kept;
}

/// Scrolling takes one handle off the count of those queued beyond the
/// segments at hand for every segment scrolled, and keeps a queue of one or
/// two at one or two.
proof fn lemma_strip_counts(start: Strip, grounds: Seq<Ground>, multiplier: u32, dt: u64)
    requires
        1 <= start.queue.len() <= MAX_GROUNDS,
    ensures
        ({
            let strip = strip_scrolled(start, grounds, multiplier, dt);
            &&& 1 <= strip.queue.len() <= MAX_GROUNDS
            &&& strip.queue.len() - strip.kept.len() - strip.fresh.len() == start.queue.len()
                - start.kept.len() - start.fresh.len() - grounds.len()
        }),
    decreases grounds.len(),
{
    if grounds.len() > 0 {
        lemma_strip_counts(start, grounds.drop_last(), multiplier, dt);
    }
}

/// The handles handed out while the first `k` segments scroll are among
/// those handed out while all of them do.
proof fn lemma_strip_handles_grow(
    start: Strip,
    grounds: Seq<Ground>,
    multiplier: u32,
    dt: u64,
    k: int,
)
    requires
        0 <= k <= grounds.len(),
    ensures
        strip_scrolled(start, grounds.take(k), multiplier, dt).next_handle <= strip_scrolled(
            start,
            grounds,
            multiplier,
            dt,
        ).next_handle,
    decreases grounds.len(),
{
    if k < grounds.len() {
        assert(grounds.drop_last().take(k) =~= grounds.take(k));
        lemma_strip_handles_grow(start, grounds.drop_last(), multiplier, dt, k);
    } else {
        assert(grounds.take(k) =~= grounds);
    }
}

/// Scrolling hands out no more handles than there are segments.
pub proof fn lemma_strip_handles(start: Strip, grounds: Seq<Ground>, multiplier: u32, dt: u64)
    ensures
        start.next_handle <= strip_scrolled(start, grounds, multiplier, dt).next_handle
            <= start.next_handle + grounds.len(),
    decreases grounds.len(),
{
    if grounds.len() > 0 {
        lemma_strip_handles(start, grounds.drop_last(), multiplier, dt);
    }
}

/// The steady state of the queues outlasts the scrolling of the ground.
pub proof fn lemma_ground_moved_wf(w: WorldView, dt: u64)
    requires
        w.wf(),
    ensures
        ground_moved(w, dt).wf(),
        w.settled() ==> ground_moved(w, dt).settled(),
{
    lemma_strip_counts(strip_of(w), w.grounds, w.game_state.difficulty_multiplier, dt);
}

/// A point is covered by a row of segments with one more at its end exactly
/// when the row covers it or the last segment does.
proof fn lemma_covered_push(grounds: Seq<Ground>, last: Ground, p: int)
    ensures
        covered(grounds.push(last), p) == (covered(grounds, p) || spans(last, p)),
{
    let longer = grounds.push(last);
    if covered(grounds, p) {
        let i = choose|i: int| 0 <= i < grounds.len() && spans(#[trigger] grounds[i], p);
        assert(spans(longer[i], p));
    }
    if spans(last, p) {
        assert(spans(longer[grounds.len() as int], p));
    }
    if covered(longer, p) {
        let i = choose|i: int| 0 <= i < longer.len() && spans(#[trigger] longer[i], p);
        if i < grounds.len() {
            assert(spans(grounds[i], p));
        }
    }
}

/// A point is covered by two rows of segments put together exactly when one
/// of the rows covers it.
proof fn lemma_covered_concat(first: Seq<Ground>, second: Seq<Ground>, p: int)
    ensures
        covered(first + second, p) == (covered(first, p) || covered(second, p)),
    decreases second.len(),
{
    if second.len() == 0 {
        assert(first + second =~= first);
    } else {
        let shorter = second.drop_last();
        assert(first + second =~= (first + shorter).push(second.last()));
        assert(second =~= shorter.push(second.last()));
        lemma_covered_concat(first, shorter, p);
        lemma_covered_push(first + shorter, second.last(), p);
        lemma_covered_push(shorter, second.last(), p);
    }
}

/// Where all segments travel the distance `d`, the segments that stay cover
/// a point right of the origin exactly when the segments covered the point
/// `d` further right before; the fresh ones all begin at the spawn mark.
proof fn lemma_strip_cover(start: Strip, grounds: Seq<Ground>, multiplier: u32, dt: u64, d: int, p: int)
    requires
        start.kept.len() == 0,
        start.fresh.len() == 0,
        0 <= p,
        forall|i: int|
            0 <= i < grounds.len() ==> {
                &&& travel((#[trigger] grounds[i]).movement_speed, multiplier, dt) == d
                &&& grounds[i].can_scroll(d)
            },
    ensures
        ({
            let strip = strip_scrolled(start, grounds, multiplier, dt);
            &&& covered(strip.kept, p) == covered(grounds, p + d)
            &&& forall|k: int|
                0 <= k < strip.fresh.len() ==> (#[trigger] strip.fresh[k]).position.translation.x
                    == GROUND_SPAWN_X
        }),
    decreases grounds.len(),
{
    if grounds.len() > 0 {
        let shorter = grounds.drop_last();
        let last = grounds.last();
        let before = strip_scrolled(start, shorter, multiplier, dt);
        lemma_strip_cover(start, shorter, multiplier, dt, d, p);
        assert(grounds =~= shorter.push(last));
        lemma_covered_push(shorter, last, p + d);
        let moved = last.scrolled(d);
        assert(travel(last.movement_speed, multiplier, dt) == d);
        assert(last.can_scroll(d));
        assert(spans(moved, p) == spans(last, p + d));
        lemma_covered_push(before.kept, moved, p);
    }
}

/// A segment that lies over a whole stretch covers it.
pub proof fn lemma_cover_by_one(grounds: Seq<Ground>, i: int, lo: int, hi: int)
    requires
        0 <= i < grounds.len(),
        grounds[i].position.translation.x <= lo,
        hi <= grounds[i].trailing_edge(),
    ensures
        covers(grounds, lo, hi),
{
    assert forall|p: int| lo <= p <= hi implies covered(grounds, p) by {
        assert(spans(grounds[i], p));
    }
}

/// Scroll continuity. Where all segments travel the same distance `d` in a
/// frame, a point of the screen is covered after the frame exactly when the
/// point `d` further right was covered before it. So the ground covers the
/// screen after the frame if and only if it covered, before the frame, the
/// stretch that the frame scrolls onto the screen.
pub proof fn lemma_scroll_continuity(w: WorldView, dt: u64, d: int)
    requires
        can_move_ground(w, dt),
        forall|i: int|
            0 <= i < w.grounds.len() ==> travel(
                (#[trigger] w.grounds[i]).movement_speed,
                w.game_state.difficulty_multiplier,
                dt,
            ) == d,
    ensures
        forall|p: int|
            0 <= p <= SCREEN_WIDTH ==> (covered(ground_moved(w, dt).grounds, p) <==> covered(
                w.grounds,
                p + d,
            )),
        covers(ground_moved(w, dt).grounds, 0, SCREEN_WIDTH as int) <==> covers(
            w.grounds,
            d,
            SCREEN_WIDTH + d,
        ),
{
    let multiplier = w.game_state.difficulty_multiplier;
    let strip = strip_scrolled(strip_of(w), w.grounds, multiplier, dt);
    let after = ground_moved(w, dt).grounds;
    assert forall|p: int| 0 <= p <= SCREEN_WIDTH implies (covered(after, p) <==> covered(
        w.grounds,
        p + d,
    )) by {
        lemma_strip_cover(strip_of(w), w.grounds, multiplier, dt, d, p);
        lemma_covered_concat(strip.kept, strip.fresh, p);
        if covered(strip.fresh, p) {
            let k = choose|k: int| 0 <= k < strip.fresh.len() && spans(#[trigger] strip.fresh[k], p);
            assert(strip.fresh[k].position.translation.x == GROUND_SPAWN_X);
        }
    }
    if covers(after, 0, SCREEN_WIDTH as int) {
        assert forall|q: int| d <= q <= SCREEN_WIDTH + d implies covered(w.grounds, q) by {
            assert(covered(after, q - d));
        }
    }
    if covers(w.grounds, d, SCREEN_WIDTH + d) {
        assert forall|p: int| 0 <= p <= SCREEN_WIDTH implies covered(after, p) by {
            assert(covered(w.grounds, p + d));
        }
    }
}

} // verus!
