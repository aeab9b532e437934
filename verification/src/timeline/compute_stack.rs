//! The stack of the evaluations under way: one frame for each, the innermost
//! on top. A frame gathers the tags of what its evaluation reads.

use vstd::prelude::*;
use crate::inputs::derived::DerivedTag;
use crate::inputs::reactive::{DerivedView, ReactiveTag};
use crate::timeline::id::IdView;

verus! {

/// The frames with `tag` added to the top frame; without a frame, nothing
/// records the read.
pub open spec fn consume_frames(frames: Seq<DerivedView>, tag: IdView) -> Seq<DerivedView> {
    if frames.len() == 0 {
        frames
    } else {
        frames.update(frames.len() - 1, frames.last().add_dep(tag))
    }
}

/// The frames of the evaluations under way, the innermost last.
#[derive(Debug)]
pub struct ComputeStack {
    stack: Vec<DerivedTag>,
}

impl View for ComputeStack {
    type V = Seq<DerivedView>;

    closed spec fn view(&self) -> Seq<DerivedView> {
        Seq::new(self.stack@.len(), |i: int| self.stack@[i]@)
    }
}

impl ComputeStack {
    /// A stack without frames.
    pub(crate) fn new() -> (stack: Self)
        ensures
            stack@ == Seq::<DerivedView>::empty(),
    {
        ComputeStack { stack: Vec::new() }
    }

    /// The number of evaluations under way.
    pub fn depth(&self) -> (n: usize)
        ensures
            n == self@.len(),
    {
        self.stack.len()
    }

    /// Enters an evaluation.
    pub(crate) fn push(&mut self, tag: DerivedTag)
        ensures
            final(self)@ == old(self)@.push(tag@),
    {
        self.stack.push(tag);
    }

    /// Leaves the innermost evaluation and hands out its frame.
    pub(crate) fn pop(&mut self) -> (tag: DerivedTag)
        requires
            old(self)@.len() > 0,
        ensures
            tag@ == old(self)@.last(),
            final(self)@ == old(self)@.drop_last(),
    {
        self.stack.pop().unwrap()
    }

    /// Records a read: `tag` goes to the top frame, if there is a frame.
    pub(crate) fn consume(&mut self, tag: ReactiveTag)
        requires
            old(self)@.len() > 0 ==> old(self)@.last().modifying,
        ensures
            final(self)@ == consume_frames(old(self)@, tag@),
    {
        let n = self.stack.len();
        if n > 0 {
            self.stack[n - 1].add_dep(tag);
        }
    }
}

} // verus!
