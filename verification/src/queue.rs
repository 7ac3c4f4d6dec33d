//! The queue in which the handles of spawned objects are kept.

use std::collections::VecDeque;
use vstd::prelude::*;

verus! {

/// What is left of a queue once its front is taken; an empty queue stays as
/// it is.
pub open spec fn popped(handles: Seq<u64>) -> Seq<u64> {
    if handles.len() > 0 {
        handles.subrange(1, handles.len() as int)
    } else {
        handles
    }
}

/// What is left of a queue once its front has been taken `times` times.
pub open spec fn popped_times(handles: Seq<u64>, times: nat) -> Seq<u64> {
    if times >= handles.len() {
        Seq::empty()
    } else {
        handles.skip(times as int)
    }
}

/// A queue with `handle` put in front of it.
pub open spec fn pushed(handles: Seq<u64>, handle: u64) -> Seq<u64> {
    seq![handle] + handles
}

/// A queue of handles that grows and shrinks at its front. The front is the
/// handle pushed last.
pub struct SpawnQueue {
    handles: VecDeque<u64>,
}

impl View for SpawnQueue {
    type V = Seq<u64>;

    closed spec fn view(&self) -> Seq<u64> {
        self.handles@
    }
}

impl SpawnQueue {
    /// An empty queue.
    pub fn new() -> (queue: SpawnQueue)
        ensures
            queue@ == Seq::<u64>::empty(),
    {
        SpawnQueue { handles: VecDeque::new() }
    }

    /// The number of handles held.
    pub fn len(&self) -> (n: usize)
        ensures
            n == self@.len(),
    {
        self.handles.len()
    }

    /// The handle at place `index`, counted from the front.
    pub fn get(&self, index: usize) -> (handle: Option<u64>)
        ensures
            handle == (if index < self@.len() {
                Some(self@[index as int])
            } else {
                None
            }),
    {
        if index < self.handles.len() {
            Some(self.handles[index])
        } else {
            None
        }
    }

    /// Puts `handle` at the front.
    pub fn push_front(&mut self, handle: u64)
        ensures
            final(self)@ == pushed(old(self)@, handle),
    {
        self.handles.push_front(handle);
    }

    /// Takes the front handle off and returns it. Nothing happens to an empty
    /// queue.
    pub fn pop_front(&mut self) -> (front: Option<u64>)
        ensures
            final(self)@ == popped(old(self)@),
            front == (if old(self)@.len() > 0 {
                Some(old(self)@[0])
            } else {
                None
            }),
    {
        self.handles.pop_front()
    }

    /// Takes the front handle off `times` times; an empty queue stays empty.
    pub fn pop_front_times(&mut self, times: usize)
        ensures
            final(self)@ == popped_times(old(self)@, times as nat),
    {
        let mut done: usize = 0;
        while done < times
            invariant
                done <= times,
                self@ == popped_times(old(self)@, done as nat),
            decreases times - done,
        {
            self.handles.pop_front();
            done += 1;
            assert(self@ =~= popped_times(old(self)@, done as nat));
        }
    }
}

} // verus!
