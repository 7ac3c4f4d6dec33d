//! How a scrolling object moves in one frame.

use crate::geometry::Point;
use crate::model::{Position, Scroller};
use crate::units::SCREEN_HALF_WIDTH;
use vstd::prelude::*;

verus! {

/// The distance, in ticks, that an object of speed `speed` scrolls in `dt`
/// microseconds under the difficulty multiplier `multiplier`.
pub open spec fn travel(speed: u32, multiplier: u32, dt: u64) -> int {
    speed * multiplier * dt
}

/// A higher multiplier makes for no shorter travel.
pub proof fn lemma_travel_grows(speed: u32, lower: u32, higher: u32, dt: u64)
    requires
        lower <= higher,
    ensures
        0 <= travel(speed, lower, dt) <= travel(speed, higher, dt),
{
    assert(0 <= speed * lower <= speed * higher) by (nonlinear_arith)
        requires
            0 <= lower <= higher,
            0 <= speed,
    ;
    assert(0 <= (speed * lower) * dt <= (speed * higher) * dt) by (nonlinear_arith)
        requires
            0 <= speed * lower <= speed * higher,
            0 <= dt,
    ;
}

impl Scroller {
    /// The right-hand boundary of the object: its position plus its length.
    pub open spec fn trailing_edge(self) -> int {
        self.position.translation.x + self.length
    }

    /// Whether the object can be moved `distance` ticks to the left.
    pub open spec fn can_scroll(self, distance: int) -> bool {
        self.position.translation.x - distance >= i64::MIN
    }

    /// The object moved `distance` ticks to the left.
    pub open spec fn scrolled(self, distance: int) -> Scroller {
        Scroller {
            position: Position {
                translation: Point {
                    x: (self.position.translation.x - distance) as i64,
                    y: self.position.translation.y,
                },
                scale: self.position.scale,
            },
            ..self
        }
    }

    /// Whether the trailing edge lies more than `margin` ticks left of zero.
    pub fn is_behind(&self, margin: i64) -> (behind: bool)
        ensures
            behind == (self.trailing_edge() + margin < 0),
    {
        self.position.translation.x as i128 + self.length as i128 + (margin as i128) < 0
    }

    /// Whether the trailing edge lies left of `mark`.
    pub fn ends_before(&self, mark: i64) -> (before: bool)
        ensures
            before == (self.trailing_edge() < mark),
    {
        self.position.translation.x as i128 + (self.length as i128) < mark as i128
    }

    /// Moves the object to the left by what it travels in `dt` microseconds
    /// under `multiplier`.
    pub fn scroll(&mut self, multiplier: u32, dt: u64)
        requires
            old(self).can_scroll(travel(old(self).movement_speed, multiplier, dt)),
        ensures
            *final(self) == old(self).scrolled(travel(old(self).movement_speed, multiplier, dt)),
            final(self).position.translation.x == old(self).position.translation.x - travel(
                old(self).movement_speed,
                multiplier,
                dt,
            ),
    {
        let speed: u32 = self.movement_speed;
        assert(speed * multiplier <= 0xFFFF_FFFF * 0xFFFF_FFFF) by (nonlinear_arith)
            requires
                speed <= 0xFFFF_FFFF,
                multiplier <= 0xFFFF_FFFF,
        ;
        let rate: u64 = speed as u64 * multiplier as u64;
        assert(rate * dt <= 0xFFFF_FFFF_FFFF_FFFF * 0xFFFF_FFFF_FFFF_FFFF) by (nonlinear_arith)
            requires
                rate <= 0xFFFF_FFFF_FFFF_FFFF,
                dt <= 0xFFFF_FFFF_FFFF_FFFF,
        ;
        let distance: u128 = rate as u128 * dt as u128;
        assert(distance == travel(speed, multiplier, dt));
        let x: i128 = self.position.translation.x as i128 - distance as i128;
        self.position.translation.x = x as i64;
    }
}

/// Whether an object has left the screen: its trailing edge lies more than
/// half a screen width behind the origin.
pub open spec fn has_left(object: Scroller) -> bool {
    object.trailing_edge() + SCREEN_HALF_WIDTH < 0
}

/// The objects of `row` that have not left the screen, in their order, each
/// moved by what it travels in `dt` microseconds under `multiplier`.
pub open spec fn survivors(row: Seq<Scroller>, multiplier: u32, dt: u64) -> Seq<Scroller>
    decreases row.len(),
{
    if row.len() == 0 {
        Seq::empty()
    } else if has_left(row.last()) {
        survivors(row.drop_last(), multiplier, dt)
    } else {
        survivors(row.drop_last(), multiplier, dt).push(
            row.last().scrolled(travel(row.last().movement_speed, multiplier, dt)),
        )
    }
}

/// The number of objects of `row` that have left the screen.
pub open spec fn departures(row: Seq<Scroller>) -> nat
    decreases row.len(),
{
    if row.len() == 0 {
        0
    } else if has_left(row.last()) {
        departures(row.drop_last()) + 1
    } else {
        departures(row.drop_last())
    }
}

/// Whether every object of `row` that has not left the screen can be moved.
pub open spec fn can_scroll_row(row: Seq<Scroller>, multiplier: u32, dt: u64) -> bool {
    forall|i: int|
        0 <= i < row.len() && !has_left(#[trigger] row[i]) ==> row[i].can_scroll(
            travel(row[i].movement_speed, multiplier, dt),
        )
}

/// Every object of a row either leaves or stays.
pub proof fn lemma_survivors_len(row: Seq<Scroller>, multiplier: u32, dt: u64)
    ensures
        survivors(row, multiplier, dt).len() + departures(row) == row.len(),
    decreases row.len(),
{
    if row.len() > 0 {
        lemma_survivors_len(row.drop_last(), multiplier, dt);
    }
}

/// Retires the objects of `row` that have left the screen and moves the
/// others. Returns how many have left.
pub fn scroll_row(row: &mut Vec<Scroller>, multiplier: u32, dt: u64) -> (left: usize)
    requires
        can_scroll_row(old(row)@, multiplier, dt),
    ensures
        final(row)@ == survivors(old(row)@, multiplier, dt),
        left == departures(old(row)@),
{
    let count: usize = row.len();
    let mut kept: Vec<Scroller> = Vec::new();
    let mut left: usize = 0;
    let mut i: usize = 0;
    while i < count
        invariant
            i <= count,
            count == row.len(),
            row@ == old(row)@,
            can_scroll_row(row@, multiplier, dt),
            kept@ == survivors(row@.take(i as int), multiplier, dt),
            left == departures(row@.take(i as int)),
            left <= i,
        decreases count - i,
    {
        proof {
            assert(row@.take(i + 1).drop_last() =~= row@.take(i as int));
            assert(row@.take(i + 1).last() == row@[i as int]);
        }
        let mut object: Scroller = row[i];
        if object.is_behind(SCREEN_HALF_WIDTH) {
            left = left + 1;
        } else {
            object.scroll(multiplier, dt);
            kept.push(object);
        }
        i += 1;
    }
    proof {
        assert(row@.take(count as int) =~= row@);
    }
    *row = kept;
    left
}

/// The distance from the origin within which all of a frame has room.
pub const REACH: i64 = 0x4000_0000_0000_0000;

/// Whether an object has room to scroll for `dt` microseconds under
/// `multiplier`: it lies no further left than the reach, and travels no
/// further than the reach.
pub open spec fn has_room_to_scroll(object: Scroller, multiplier: u32, dt: u64) -> bool {
    &&& object.position.translation.x >= -REACH
    &&& travel(object.movement_speed, multiplier, dt) <= REACH
}

/// Whether every object of `row` has room to scroll.
pub open spec fn row_has_room(row: Seq<Scroller>, multiplier: u32, dt: u64) -> bool {
    forall|i: int| 0 <= i < row.len() ==> has_room_to_scroll(#[trigger] row[i], multiplier, dt)
}

/// Tests whether every object of `row` has room to scroll.
pub fn row_fits(row: &Vec<Scroller>, multiplier: u32, dt: u64) -> (room: bool)
    ensures
        room == row_has_room(row@, multiplier, dt),
{
    let mut i: usize = 0;
    while i < row.len()
        invariant
            i <= row.len(),
            forall|j: int| 0 <= j < i ==> has_room_to_scroll(#[trigger] row@[j], multiplier, dt),
        decreases row.len() - i,
    {
        let speed: u32 = row[i].movement_speed;
        assert(speed * multiplier <= 0xFFFF_FFFF * 0xFFFF_FFFF) by (nonlinear_arith)
            requires
                speed <= 0xFFFF_FFFF,
                multiplier <= 0xFFFF_FFFF,
        ;
        let rate: u64 = speed as u64 * multiplier as u64;
        assert(rate * dt <= 0xFFFF_FFFF_FFFF_FFFF * 0xFFFF_FFFF_FFFF_FFFF) by (nonlinear_arith)
            requires
                rate <= 0xFFFF_FFFF_FFFF_FFFF,
                dt <= 0xFFFF_FFFF_FFFF_FFFF,
        ;
        let distance: u128 = rate as u128 * dt as u128;
        assert(distance == travel(speed, multiplier, dt));
        if row[i].position.translation.x < -REACH || distance > REACH as u128 {
            assert(!has_room_to_scroll(row@[i as int], multiplier, dt));
            return false;
        }
        i += 1;
    }
    true
}

} // verus!
