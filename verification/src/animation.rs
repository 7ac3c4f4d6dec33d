//! Stepping through the frames of a sprite sheet.

use vstd::prelude::*;

verus! {

/// The first and the last frame of an animation on its sprite sheet.
#[derive(Clone, Copy, Debug, PartialEq, Eq, Structural)]
pub struct AnimationIndices {
    pub first: usize,
    pub last: usize,
}

/// The frame shown after frame `index`: the next one, or the first one
/// again after the last.
pub open spec fn next_index(indices: AnimationIndices, index: usize) -> int {
    if index == indices.last {
        indices.first as int
    } else {
        index + 1
    }
}

/// The frame to show once the animation timer has been run: the next one
/// when the timer has just finished, the same one otherwise.
pub fn animate_sprite_system(indices: &AnimationIndices, index: usize, just_finished: bool) -> (shown:
    usize)
    requires
        just_finished ==> next_index(*indices, index) <= usize::MAX,
    ensures
        shown == if just_finished {
            next_index(*indices, index)
        } else {
            index as int
        },
{
    if !just_finished {
        index
    } else if index == indices.last {
        indices.first
    } else {
        index + 1
    }
}

} // verus!
