//! The timeline and its three transactions: setup adds nodes, update changes
//! cells and advances the clock, render reads.

use vstd::prelude::*;
use crate::inputs::cell::{CellView, ReactiveCell, Tag};
use crate::inputs::derived::{DerivedNodeView, DerivedTag, DynamicComputation, ReactiveDerived};
use crate::inputs::function::{DynamicCode, FunctionNodeView, ReactiveFunction};
use crate::inputs::reactive::{DerivedView, ReactiveTag};
use crate::outputs::primitive::PrimitiveOutput;
use crate::timeline::evaluation_context::EvaluationContext;
use crate::timeline::history::{next, Step};
use crate::timeline::id::{
    CellId, DerivedId, FunctionId, IdKind, IdView, TypedInputId, TypedInputIdWithKind,
};
use crate::timeline::inputs::{Inputs, RegistryView};
use crate::timeline::revision::Revision;

verus! {

/// What a timeline is, as a value of mathematics: the clock and the
/// registry, which is not there before the first node.
pub struct TimelineView<T, C, F> {
    pub clock: nat,
    pub inputs: Option<RegistryView<T, C, F>>,
}

impl<T, C, F> TimelineView<T, C, F> {
    /// The clock is live, no node is being evaluated, and no cell carries a
    /// revision later than the clock.
    pub open spec fn wf(self) -> bool {
        &&& self.clock >= Revision::spec_start()
        &&& self.inputs is Some ==> {
            &&& self.inputs.unwrap().wf()
            &&& self.inputs.unwrap().quiescent()
            &&& self.inputs.unwrap().bounded(self.clock)
        }
    }

    /// The registry, or the one without nodes where there is none yet.
    pub open spec fn registry(self) -> RegistryView<T, C, F> {
        if self.inputs is Some {
            self.inputs.unwrap()
        } else {
            RegistryView::empty()
        }
    }

    /// There is a node for `id`.
    pub open spec fn has(self, id: IdView) -> bool {
        self.inputs is Some && self.inputs.unwrap().has(id)
    }

    /// The revision of the node `id`.
    pub open spec fn revision(self, id: IdView) -> Option<nat> {
        self.inputs.unwrap().revision(id)
    }

    /// The timeline with one more cell, which holds `value` and is stamped
    /// with the clock.
    pub open spec fn with_cell(self, value: T) -> Self {
        TimelineView {
            clock: self.clock,
            inputs: Some(self.registry().with_cell(CellView { value, revision: self.clock })),
        }
    }

    /// The timeline with one more derived node, which has never been
    /// evaluated.
    pub open spec fn with_derived(self, computation: C) -> Self {
        TimelineView {
            clock: self.clock,
            inputs: Some(
                self.registry().with_derived(
                    DerivedNodeView { tag: DerivedView::fresh(), computation: Some(computation) },
                ),
            ),
        }
    }

    /// The timeline with one more function instance.
    pub open spec fn with_function(self, node: FunctionNodeView<T, F>) -> Self {
        TimelineView { clock: self.clock, inputs: Some(self.registry().with_function(node)) }
    }

    /// The timeline after the cell `id` was updated to `value`: the clock
    /// has advanced by one, and the cell holds `value` and is stamped with
    /// the new clock.
    pub open spec fn update(self, id: nat, value: T) -> Self {
        TimelineView {
            clock: self.clock + 1,
            inputs: Some(
                self.inputs.unwrap().update_cell(id, CellView { value, revision: self.clock + 1 }),
            ),
        }
    }
}

/// The root of the engine: it owns the clock and the registry. The clock
/// is its own: only an update advances it.
pub struct Timeline<T, C, F> {
    revision: Revision,
    pub inputs: Inputs<T, C, F>,
}

impl<T, C, F> View for Timeline<T, C, F> {
    type V = TimelineView<T, C, F>;

    open spec fn view(&self) -> TimelineView<T, C, F> {
        TimelineView { clock: self.clock(), inputs: self.nodes()@ }
    }
}

impl<T, C, F> Default for Timeline<T, C, F> {
    fn default() -> (timeline: Timeline<T, C, F>)
        ensures
            timeline.wf(),
            timeline@.clock == Revision::spec_start(),
            timeline@.inputs is None,
    {
        Timeline::new()
    }
}

impl<T, C, F> Timeline<T, C, F> {
    /// The revision at which the clock stands.
    pub closed spec fn clock(&self) -> nat {
        self.revision@
    }

    /// The registry.
    pub closed spec fn nodes(&self) -> Inputs<T, C, F> {
        self.inputs
    }

    /// The registry is sound and the timeline is well formed.
    pub open spec fn wf(&self) -> bool {
        &&& self.nodes().inv()
        &&& self@.wf()
    }

    /// A timeline without nodes, whose clock stands at the first live
    /// revision.
    pub fn new() -> (timeline: Timeline<T, C, F>)
        ensures
            timeline.wf(),
            timeline@.clock == Revision::spec_start(),
            timeline@.inputs is None,
    {
        Timeline { revision: Revision::start(), inputs: Inputs::new() }
    }

    /// Whether there is a node for `id`.
    pub fn has(&self, id: TypedInputId<T>) -> (b: bool)
        requires
            self.wf(),
        ensures
            b == self@.has(id@),
    {
        self.inputs.has(id)
    }

    /// The tag of the node `id`, as a dependency records it. There must be
    /// such a node.
    pub fn tag(&self, id: TypedInputId<T>) -> (tag: ReactiveTag)
        requires
            self.wf(),
            self@.has(id@),
        ensures
            tag@ == id@,
    {
        self.inputs.tag(id)
    }

    /// The tag of the computed node `id`: what its last evaluation read.
    /// There must be such a node.
    pub fn derived_tag(&self, id: TypedInputId<T>) -> (tag: &DerivedTag)
        requires
            self.wf(),
            self@.has(id@),
            id@.kind != IdKind::CellId,
        ensures
            tag@ == self@.inputs.unwrap().tag(id@),
    {
        self.inputs.derived_tag(id)
    }

    /// The revision at which the clock stands.
    pub fn now(&self) -> (r: Revision)
        ensures
            r@ == self@.clock,
    {
        self.revision
    }

    /// The revision of the node `id`: for a cell that of its last update,
    /// for a node that is computed the latest revision that the nodes it
    /// read have now, and none before its first evaluation. There must be
    /// such a node.
    pub fn revision(&self, id: TypedInputId<T>) -> (r: Option<Revision>)
        requires
            self.wf(),
            self@.has(id@),
        ensures
            r.is_some() <==> self@.revision(id@).is_some(),
            r.is_some() ==> r.unwrap()@ == self@.revision(id@).unwrap(),
    {
        self.inputs.revision(id)
    }

    /// An output on the node `id`, which has not been updated yet.
    pub fn output(&self, id: TypedInputId<T>) -> (output: PrimitiveOutput<T>)
        ensures
            output@.value is None,
            output@.target == id@,
    {
        PrimitiveOutput::new(None, id)
    }

    /// Begins a setup: nodes are added, the clock stands.
    pub fn setup(&mut self) -> (tx: SetupTransaction<'_, T, C, F>)
        ensures
            tx@ == old(self)@,
            old(self).wf() ==> tx.wf(),
            final(self).clock() == old(self).clock(),
            final(self).nodes() == *final(tx.inputs),
    {
        SetupTransaction { revision: self.revision, inputs: &mut self.inputs }
    }

    /// Begins an update: cells change, and the clock advances with each
    /// change.
    pub fn update(&mut self) -> (tx: UpdateTransaction<'_, T, C, F>)
        ensures
            *tx.timeline == *old(self),
            *final(self) == *final(tx.timeline),
    {
        UpdateTransaction { timeline: self }
    }

    /// Begins a render: nodes are read, the clock stands.
    pub fn begin(&mut self) -> (tx: RenderTransaction<'_, T, C, F>)
        ensures
            tx@ == old(self)@,
            tx.ctx@.frames.len() == 0,
            old(self).wf() ==> tx.wf(),
            final(self).clock() == old(self).clock(),
            final(self).nodes() == *final(tx.ctx.inputs),
    {
        RenderTransaction { revision: self.revision, ctx: EvaluationContext::new(&mut self.inputs) }
    }
}

/// A transaction that adds nodes. The clock does not advance.
pub struct SetupTransaction<'a, T, C, F> {
    pub inputs: &'a mut Inputs<T, C, F>,
    pub revision: Revision,
}

impl<'a, T, C, F> View for SetupTransaction<'a, T, C, F> {
    type V = TimelineView<T, C, F>;

    open spec fn view(&self) -> TimelineView<T, C, F> {
        TimelineView { clock: self.revision@, inputs: (*self.inputs)@ }
    }
}

impl<'a, T, C, F> SetupTransaction<'a, T, C, F> {
    /// The registry is sound and the timeline is well formed.
    pub open spec fn wf(&self) -> bool {
        &&& (*self.inputs).inv()
        &&& self@.wf()
    }

    /// Ends the setup: the timeline is as the setup leaves it.
    pub fn commit(self)
        ensures
            *final(self.inputs) == *old(self.inputs),
    {
    }

    /// Adds a cell that holds `value` and gives its handle. The cell is
    /// stamped with the clock.
    pub fn cell(&mut self, value: T) -> (id: TypedInputIdWithKind<T, CellId<T>>)
        requires
            old(self).wf(),
        ensures
            final(self).wf(),
            final(self)@ == old(self)@.with_cell(value),
            id@ == (IdView { id: old(self)@.registry().cells.len(), kind: IdKind::CellId }),
            *final(final(self).inputs) == *final(old(self).inputs),
    {
        let cell = ReactiveCell::new(value, Tag::new(self.revision));
        self.inputs.add_cell(cell)
    }

    /// Adds a derived node with the body `computation` and gives its
    /// handle. The node has not been evaluated.
    pub fn derived(&mut self, computation: C) -> (id: TypedInputIdWithKind<T, DerivedId<T>>)
        requires
            old(self).wf(),
        ensures
            final(self).wf(),
            final(self)@ == old(self)@.with_derived(computation),
            id@ == (IdView { id: old(self)@.registry().derived.len(), kind: IdKind::DerivedId }),
            *final(final(self).inputs) == *final(old(self).inputs),
    {
        let derived = ReactiveDerived::new(DerivedTag::default(), computation);
        self.inputs.add_derived(derived)
    }
}

impl<'a, T, C, F: Clone> SetupTransaction<'a, T, C, F> {
    /// Adds an instance of `function`, bound to the node `arg`, and gives
    /// its handle. The instance has not been evaluated.
    pub fn function<Arg: 'static>(
        &mut self,
        function: &ReactiveFunction<T, Arg, F>,
        arg: TypedInputId<Arg>,
    ) -> (id: TypedInputIdWithKind<T, FunctionId<T>>)
        requires
            old(self).wf(),
        ensures
            final(self).wf(),
            final(self)@ == old(self)@.with_function(final(self)@.registry().functions.last()),
            final(self)@.registry().functions.last().wf(),
            final(self)@.registry().functions.last().tag == DerivedView::fresh(),
            final(self)@.registry().functions.last().args@ == arg@,
            final(self)@.registry().functions.last().code.is_some(),
            cloned(
                function.function().code(),
                final(self)@.registry().functions.last().code.unwrap().code(),
            ),
            final(self)@.registry().functions.last().code.unwrap().arg_key()
                == function.function().arg_key(),
            id@ == (IdView { id: old(self)@.registry().functions.len(), kind: IdKind::FunctionId }),
            *final(final(self).inputs) == *final(old(self).inputs),
    {
        let instance = function.instantiate(arg);
        self.inputs.add_function(instance)
    }
}

/// A transaction that changes cells. Each change advances the clock.
pub struct UpdateTransaction<'a, T, C, F> {
    pub timeline: &'a mut Timeline<T, C, F>,
}

impl<'a, T, C, F> View for UpdateTransaction<'a, T, C, F> {
    type V = TimelineView<T, C, F>;

    open spec fn view(&self) -> TimelineView<T, C, F> {
        (*self.timeline)@
    }
}

impl<'a, T, C, F> UpdateTransaction<'a, T, C, F> {
    /// The registry is sound and the timeline is well formed.
    pub open spec fn wf(&self) -> bool {
        (*self.timeline).wf()
    }

    /// Ends the update: the timeline is as the update leaves it.
    pub fn commit(self)
        ensures
            *final(self.timeline) == *old(self.timeline),
    {
    }

    /// Advances the clock and gives the new revision. The clock cannot
    /// advance past `u64::MAX`.
    fn increment_revision(&mut self) -> (revision: Revision)
        requires
            old(self)@.clock < u64::MAX,
        ensures
            revision@ == old(self)@.clock + 1,
            final(self).timeline.revision == revision,
            final(self).timeline.inputs == old(self).timeline.inputs,
            *final(final(self).timeline) == *final(old(self).timeline),
    {
        let revision = self.timeline.revision.increment();
        self.timeline.revision = revision;
        revision
    }

    /// Updates the cell `id` to `value`: the clock advances by one, and the
    /// cell holds `value` and is stamped with the new clock. There must be
    /// such a cell, and the clock cannot advance past `u64::MAX`.
    pub fn update(&mut self, id: TypedInputIdWithKind<T, CellId<T>>, value: T)
        requires
            old(self).wf(),
            old(self)@.inputs is Some,
            id@.id < old(self)@.inputs.unwrap().cells.len(),
            old(self)@.clock < u64::MAX,
        ensures
            final(self).wf(),
            final(self)@ == old(self)@.update(id@.id, value),
            *final(final(self).timeline) == *final(old(self).timeline),
    {
        let revision = self.increment_revision();
        self.timeline.inputs.update_cell(id, value, revision);
    }
}

/// A transaction that reads. The clock does not advance, and no cell
/// changes.
pub struct RenderTransaction<'a, T, C, F> {
    pub ctx: EvaluationContext<'a, T, C, F>,
    pub revision: Revision,
}

impl<'a, T, C, F> View for RenderTransaction<'a, T, C, F> {
    type V = TimelineView<T, C, F>;

    open spec fn view(&self) -> TimelineView<T, C, F> {
        TimelineView { clock: self.revision@, inputs: self.ctx@.inputs }
    }
}

impl<'a, T, C, F> RenderTransaction<'a, T, C, F> {
    /// The context is well formed, no evaluation is under way, and the
    /// timeline is well formed.
    pub open spec fn wf(&self) -> bool {
        &&& self.ctx.wf()
        &&& self.ctx@.frames.len() == 0
        &&& self@.wf()
    }

    /// Ends the render: the timeline is as the render leaves it.
    pub fn commit(self)
        ensures
            *final(self.ctx.inputs) == *old(self.ctx.inputs),
    {
    }
}

impl<'a, T, C, F> RenderTransaction<'a, T, C, F> {
    /// Whether there is a node for `id`.
    pub fn has(&self, id: TypedInputId<T>) -> (b: bool)
        requires
            self.wf(),
        ensures
            b == self@.has(id@),
    {
        self.ctx.inputs.has(id)
    }
}

impl<'a, T: Clone, C: DynamicComputation<T, F>, F: DynamicCode<T, C>> RenderTransaction<'a, T, C, F> {
    /// Reads the node `id` outside of any evaluation: its value, as the
    /// context gives it. There must be such a node.
    pub fn value(&mut self, id: TypedInputId<T>) -> (value: T)
        requires
            old(self).wf(),
            old(self)@.has(id@),
        ensures
            final(self).wf(),
            final(self)@.clock == old(self)@.clock,
            old(self).ctx@.reads(final(self).ctx@, id@, value),
            next(old(self)@, (Step::<T, C, F>::Read { target: id@, value }), final(self)@),
            *final(final(self).ctx.inputs) == *final(old(self).ctx.inputs),
    {
        let value = self.ctx.value(id);
        proof {
            assert(self.ctx@.frames =~= Seq::empty());
        }
        value
    }
}

} // verus!
