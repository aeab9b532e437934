//! An output that keeps a copy of the value of one node.

use vstd::prelude::*;
use crate::inputs::derived::DynamicComputation;
use crate::inputs::function::DynamicCode;
use crate::timeline::history::{next, Step};
use crate::timeline::id::{IdView, TypedInputId};
use crate::timeline::timeline::RenderTransaction;

verus! {

/// What an output is, as a value of mathematics.
pub struct OutputView<T> {
    /// The copy that the output keeps; none before the first update.
    pub value: Option<T>,
    /// The node that the output follows.
    pub target: IdView,
}

/// A sink that follows one node: it keeps a copy of the node's value, which
/// an update replaces.
pub struct PrimitiveOutput<T> {
    value: Option<T>,
    primitive: TypedInputId<T>,
}

impl<T> View for PrimitiveOutput<T> {
    type V = OutputView<T>;

    closed spec fn view(&self) -> OutputView<T> {
        OutputView { value: self.value, target: self.primitive@ }
    }
}

impl<T> PrimitiveOutput<T> {
    /// An output on the node `primitive` that keeps `value`.
    pub fn new(value: Option<T>, primitive: TypedInputId<T>) -> (output: Self)
        ensures
            output@.value == value,
            output@.target == primitive@,
    {
        PrimitiveOutput { value, primitive }
    }

    /// Whether the output has been updated.
    pub fn is_initialized(&self) -> (b: bool)
        ensures
            b == (self@.value is Some),
    {
        self.value.is_some()
    }

    /// The node that the output follows.
    pub fn primitive(&self) -> (id: TypedInputId<T>)
        ensures
            id@ == self@.target,
    {
        self.primitive
    }
}

impl<T: Clone> PrimitiveOutput<T> {
    /// Brings the output up to date for the first time.
    pub fn initialize<C, F>(&mut self, timeline: &mut RenderTransaction<'_, T, C, F>) where
        C: DynamicComputation<T, F>,
        F: DynamicCode<T, C>,

        requires
            old(timeline).wf(),
            old(timeline)@.has(old(self)@.target),
        ensures
            final(timeline).wf(),
            final(timeline)@.clock == old(timeline)@.clock,
            final(self)@.target == old(self)@.target,
            final(self)@.value is Some,
            old(timeline).ctx@.reads(
                final(timeline).ctx@,
                old(self)@.target,
                final(self)@.value.unwrap(),
            ),
            next(
                old(timeline)@,
                (Step::<T, C, F>::Read { target: old(self)@.target, value: final(self)@.value.unwrap() }),
                final(timeline)@,
            ),
            *final(final(timeline).ctx.inputs) == *final(old(timeline).ctx.inputs),
    {
        self.update(timeline)
    }

    /// Brings the output up to date: the node is read through the render,
    /// outside of any evaluation, and what the read gives replaces the
    /// copy.
    pub fn update<C, F>(&mut self, timeline: &mut RenderTransaction<'_, T, C, F>) where
        C: DynamicComputation<T, F>,
        F: DynamicCode<T, C>,

        requires
            old(timeline).wf(),
            old(timeline)@.has(old(self)@.target),
        ensures
            final(timeline).wf(),
            final(timeline)@.clock == old(timeline)@.clock,
            final(self)@.target == old(self)@.target,
            final(self)@.value is Some,
            old(timeline).ctx@.reads(
                final(timeline).ctx@,
                old(self)@.target,
                final(self)@.value.unwrap(),
            ),
            next(
                old(timeline)@,
                (Step::<T, C, F>::Read { target: old(self)@.target, value: final(self)@.value.unwrap() }),
                final(timeline)@,
            ),
            *final(final(timeline).ctx.inputs) == *final(old(timeline).ctx.inputs),
    {
        let new_value = timeline.value(self.primitive);
        self.value = Some(new_value);
    }

    /// A clone of the copy that the output keeps. The output must have been
    /// updated before.
    pub fn value(&self) -> (value: T)
        requires
            self@.value is Some,
        ensures
            cloned(self@.value.unwrap(), value),
    {
        self.value.clone().unwrap()
    }
}

} // verus!
