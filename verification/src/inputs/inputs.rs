//! A handle on a node that is either a cell or a derived node.

use vstd::prelude::*;
use crate::inputs::derived::DynamicComputation;
use crate::inputs::function::DynamicCode;
use crate::timeline::evaluation_context::EvaluationContext;
use crate::timeline::id::{CellId, DerivedId, IdView, TypedInputIdWithKind};

verus! {

/// A cell or a derived node, by its handle.
pub enum ReactiveInput<T> {
    Cell(TypedInputIdWithKind<T, CellId<T>>),
    Derived(TypedInputIdWithKind<T, DerivedId<T>>),
}

impl<T> View for ReactiveInput<T> {
    type V = IdView;

    open spec fn view(&self) -> IdView {
        match self {
            ReactiveInput::Cell(id) => id@,
            ReactiveInput::Derived(id) => id@,
        }
    }
}

impl<T: Clone> ReactiveInput<T> {
    /// Reads the node through `ctx`: a cell is read, a derived node is
    /// evaluated.
    pub fn value<C, F>(&self, ctx: &mut EvaluationContext<'_, T, C, F>) -> (value: T) where
        C: DynamicComputation<T, F>,
        F: DynamicCode<T, C>,

        requires
            old(ctx).wf(),
            old(ctx)@.readable(self@),
        ensures
            final(ctx).wf(),
            old(ctx)@.reads(final(ctx)@, self@, value),
            *final(final(ctx).inputs) == *final(old(ctx).inputs),
    {
        match self {
            ReactiveInput::Cell(cell) => ctx.read_cell(*cell),
            ReactiveInput::Derived(derived) => ctx.compute_derived(*derived),
        }
    }
}

} // verus!
