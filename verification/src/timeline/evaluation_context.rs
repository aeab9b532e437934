//! The evaluation context: what a body reads through. Each read is recorded
//! in the frame of the evaluation that made it.

use vstd::prelude::*;
use crate::inputs::derived::{DerivedTag, DynamicComputation};
use crate::inputs::function::{DynamicCode, DynamicFunction};
use crate::inputs::reactive::{DerivedView, ReactiveTag};
use crate::timeline::compute_stack::{consume_frames, ComputeStack};
use crate::timeline::dyn_id::DynId;
use crate::timeline::id::{
    CellId, DerivedId, FunctionId, IdKind, IdView, TypedInputId, TypedInputIdWithKind,
};
use crate::timeline::inputs::{Inputs, RegistryView};

verus! {

/// What a context is, as a value of mathematics: the frames of the
/// evaluations under way, the innermost last, and the registry.
pub struct ContextView<T, C, F> {
    pub frames: Seq<DerivedView>,
    pub inputs: Option<RegistryView<T, C, F>>,
}

impl<T, C, F> ContextView<T, C, F> {
    /// The registry is well formed, every frame is being modified, and
    /// there is a node for each dependency that a frame holds.
    pub open spec fn wf(self) -> bool {
        &&& self.inputs is Some ==> self.inputs.unwrap().wf()
        &&& forall|k: int|
            0 <= k < self.frames.len() ==> (#[trigger] self.frames[k]).modifying && (self.inputs
                is Some ==> self.inputs.unwrap().known(self.frames[k].deps))
    }

    /// There is a node for `id`, and it is not being evaluated.
    pub open spec fn readable(self, id: IdView) -> bool {
        self.inputs is Some && self.inputs.unwrap().readable(id)
    }

    /// The context once the evaluation of the derived node `id` has been
    /// entered: the node's tag is reset, its body is away, and a frame
    /// without dependencies is on top.
    pub open spec fn enter_derived(self, id: nat) -> Self {
        ContextView {
            frames: self.frames.push(self.inputs.unwrap().derived[id as int].tag.reset()),
            inputs: Some(self.inputs.unwrap().begin_derived(id)),
        }
    }

    /// The context once the evaluation of the derived node `id` has been
    /// left: the top frame is gone, its dependencies are the node's tag,
    /// the body `computation` is back, and the frame below has the node's
    /// tag as one more dependency.
    pub open spec fn leave_derived(self, id: nat, computation: C) -> Self {
        let tag = self.frames.last().done();
        ContextView {
            frames: consume_frames(
                self.frames.drop_last(),
                IdView { id, kind: IdKind::DerivedId },
            ),
            inputs: Some(self.inputs.unwrap().finish_derived(id, computation, tag)),
        }
    }

    /// The context once the evaluation of the function instance `id` has
    /// been entered.
    pub open spec fn enter_function(self, id: nat) -> Self {
        ContextView {
            frames: self.frames.push(self.inputs.unwrap().functions[id as int].tag.reset()),
            inputs: Some(self.inputs.unwrap().begin_function(id)),
        }
    }

    /// The context once the evaluation of the function instance `id` has
    /// been left.
    pub open spec fn leave_function(self, id: nat, code: DynamicFunction<T, F>) -> Self {
        let tag = self.frames.last().done();
        ContextView {
            frames: consume_frames(
                self.frames.drop_last(),
                IdView { id, kind: IdKind::FunctionId },
            ),
            inputs: Some(self.inputs.unwrap().finish_function(id, code, tag)),
        }
    }

    /// What reads may change. The frames below the top one stay as they
    /// are, the top frame keeps what it held and may hold more, and the
    /// registry changes as evaluations change it.
    pub open spec fn extends(self, before: Self) -> bool {
        &&& self.frames.len() == before.frames.len()
        &&& forall|k: int| 0 <= k < self.frames.len() - 1 ==> #[trigger] self.frames[k] == before.frames[k]
        &&& self.frames.len() > 0 ==> {
            &&& self.frames.last().modifying == before.frames.last().modifying
            &&& self.frames.last().initialized == before.frames.last().initialized
            &&& before.frames.last().deps.len() <= self.frames.last().deps.len()
            &&& self.frames.last().deps.take(before.frames.last().deps.len() as int)
                == before.frames.last().deps
        }
        &&& self.inputs is Some <==> before.inputs is Some
        &&& self.inputs is Some ==> self.inputs.unwrap().extends(before.inputs.unwrap())
    }
}

impl<T: Clone, C: DynamicComputation<T, F>, F: DynamicCode<T, C>> ContextView<T, C, F> {
    /// The derived node `id` was evaluated from `self` to `after` and gave
    /// `value`: its body went, as reads go, from `self` with the evaluation
    /// entered to `computed`, where it gave `value` and the evaluation was
    /// left.
    pub open spec fn evaluates_derived(self, computed: Self, after: Self, id: nat, value: T) -> bool {
        let body = self.inputs.unwrap().derived[id as int].computation.unwrap();
        &&& computed.wf()
        &&& computed.extends(self.enter_derived(id))
        &&& body.gives(self.enter_derived(id), computed, value)
        &&& after == computed.leave_derived(id, body)
    }

    /// The function instance `id` was evaluated from `self` to `after` and
    /// gave `value`: its code went, on the handle of the instance's
    /// argument and as reads go, from `self` with the evaluation entered
    /// to `computed`, where it gave `value` and the evaluation was left.
    pub open spec fn evaluates_function(self, computed: Self, after: Self, id: nat, value: T) -> bool {
        let code = self.inputs.unwrap().functions[id as int].code.unwrap();
        let args = self.inputs.unwrap().functions[id as int].args;
        &&& computed.wf()
        &&& computed.extends(self.enter_function(id))
        &&& code.code().gives(self.enter_function(id), args, computed, value)
        &&& after == computed.leave_function(id, code)
    }

    /// What one read of the node `id` does, where `self` is the context
    /// before the read, `after` the context after it and `value` what the
    /// read gives.
    ///
    /// The read adds exactly one dependency to the top frame: the node that
    /// was read. A cell gives a clone of its value and
    /// nothing else changes. A node that is computed is evaluated: the
    /// evaluation is entered, the body runs, the evaluation is left, and
    /// the node has then been evaluated and is again not being evaluated.
    /// The value is what the body gives, run in the context with the
    /// evaluation entered.
    pub open spec fn reads(self, after: Self, id: IdView, value: T) -> bool {
        &&& after.wf()
        &&& after.extends(self)
        &&& after.frames == consume_frames(self.frames, id)
        &&& id.kind == IdKind::CellId ==> {
            &&& after.inputs == self.inputs
            &&& cloned(self.inputs.unwrap().cells[id.id as int].value, value)
        }
        &&& id.kind == IdKind::DerivedId ==> {
            &&& after.inputs.unwrap().derived[id.id as int].tag.initialized
            &&& !after.inputs.unwrap().derived[id.id as int].tag.modifying
            &&& exists|computed: Self| #[trigger] self.evaluates_derived(computed, after, id.id, value)
        }
        &&& id.kind == IdKind::FunctionId ==> {
            &&& after.inputs.unwrap().functions[id.id as int].tag.initialized
            &&& !after.inputs.unwrap().functions[id.id as int].tag.modifying
            &&& exists|computed: Self| #[trigger] self.evaluates_function(computed, after, id.id, value)
        }
    }
}

/// The context of a render: the stack of the evaluations under way and the
/// registry that is read.
pub struct EvaluationContext<'a, T, C, F> {
    pub stack: ComputeStack,
    pub inputs: &'a mut Inputs<T, C, F>,
}

impl<'a, T, C, F> View for EvaluationContext<'a, T, C, F> {
    type V = ContextView<T, C, F>;

    open spec fn view(&self) -> ContextView<T, C, F> {
        ContextView { frames: self.stack@, inputs: (*self.inputs)@ }
    }
}

impl<'a, T, C, F> EvaluationContext<'a, T, C, F> {
    /// The registry is sound and the context is well formed.
    pub open spec fn wf(&self) -> bool {
        &&& (*self.inputs).inv()
        &&& self@.wf()
    }
}

impl<'a, T, C, F> EvaluationContext<'a, T, C, F> {
    /// A context over `inputs` in which no evaluation is under way.
    pub(crate) fn new(inputs: &'a mut Inputs<T, C, F>) -> (ctx: Self)
        ensures
            ctx@.frames == Seq::<DerivedView>::empty(),
            *ctx.inputs == *old(inputs),
            *final(ctx.inputs) == *final(inputs),
    {
        EvaluationContext { stack: ComputeStack::new(), inputs }
    }

    /// Whether the node `id` can be read: there is such a node, no list,
    /// and it is not in the middle of its own evaluation.
    pub fn can_read(&self, id: TypedInputId<T>) -> (b: bool)
        requires
            self.wf(),
        ensures
            b == self@.readable(id@),
    {
        self.inputs.is_readable(id)
    }

    /// Enters an evaluation, whose frame is `tag`.
    pub(crate) fn push(&mut self, tag: DerivedTag)
        ensures
            final(self)@.frames == old(self)@.frames.push(tag@),
            *final(self).inputs == *old(self).inputs,
            *final(final(self).inputs) == *final(old(self).inputs),
    {
        self.stack.push(tag);
    }

    /// Leaves the innermost evaluation and hands out its frame. There must
    /// be an evaluation to leave.
    pub(crate) fn pop(&mut self) -> (tag: DerivedTag)
        requires
            old(self)@.frames.len() > 0,
        ensures
            tag@ == old(self)@.frames.last(),
            final(self)@.frames == old(self)@.frames.drop_last(),
            *final(self).inputs == *old(self).inputs,
            *final(final(self).inputs) == *final(old(self).inputs),
    {
        self.stack.pop()
    }

    /// Records a read in the frame of the innermost evaluation. A read
    /// outside of any evaluation is allowed, and not recorded.
    pub(crate) fn consume(&mut self, tag: ReactiveTag)
        requires
            old(self)@.frames.len() > 0 ==> old(self)@.frames.last().modifying,
        ensures
            final(self)@.frames == consume_frames(old(self)@.frames, tag@),
            *final(self).inputs == *old(self).inputs,
            *final(final(self).inputs) == *final(old(self).inputs),
    {
        self.stack.consume(tag);
    }
}

/// A context whose top frame takes one more dependency, on a node that
/// has been read, stays well formed.
pub proof fn lemma_consume<T, C, F>(before: ContextView<T, C, F>, tag: IdView)
    requires
        before.wf(),
        before.inputs is Some ==> before.inputs.unwrap().has(tag) && before.inputs.unwrap().evaluated(
            tag,
        ),
    ensures
        (ContextView { frames: consume_frames(before.frames, tag), inputs: before.inputs }).wf(),
{
    let after = ContextView { frames: consume_frames(before.frames, tag), inputs: before.inputs };
    assert forall|k: int| 0 <= k < after.frames.len() implies (#[trigger] after.frames[k]).modifying
        && (after.inputs is Some ==> after.inputs.unwrap().known(after.frames[k].deps)) by {
        if k < before.frames.len() - 1 {
            assert(after.frames[k] == before.frames[k]);
        } else {
            assert(before.frames[k].modifying);
        }
    }
}

/// Leaving the evaluation of a derived node keeps the context well formed.
pub proof fn lemma_leave_derived<T, C, F>(before: ContextView<T, C, F>, id: nat, computation: C)
    requires
        before.wf(),
        before.frames.len() > 0,
        before.inputs is Some,
        id < before.inputs.unwrap().derived.len(),
    ensures
        before.leave_derived(id, computation).wf(),
{
    let tag = before.frames.last().done();
    let mid = ContextView {
        frames: before.frames.drop_last(),
        inputs: Some(before.inputs.unwrap().finish_derived(id, computation, tag)),
    };
    assert(before.frames[before.frames.len() - 1].modifying);
    assert forall|i: int| 0 <= i < mid.inputs.unwrap().derived.len() implies (
    #[trigger] mid.inputs.unwrap().derived[i]).wf() && mid.inputs.unwrap().known(
        mid.inputs.unwrap().derived[i].tag.deps,
    ) by {
        if i != id {
            assert(mid.inputs.unwrap().derived[i] == before.inputs.unwrap().derived[i]);
        }
    }
    assert forall|i: int| 0 <= i < mid.inputs.unwrap().functions.len() implies (
    #[trigger] mid.inputs.unwrap().functions[i]).wf() && mid.inputs.unwrap().known(
        mid.inputs.unwrap().functions[i].tag.deps,
    ) by {
        assert(mid.inputs.unwrap().functions[i] == before.inputs.unwrap().functions[i]);
    }
    assert forall|k: int| 0 <= k < mid.frames.len() implies (#[trigger] mid.frames[k]).modifying
        && mid.inputs.unwrap().known(mid.frames[k].deps) by {
        assert(mid.frames[k] == before.frames[k]);
    }
    lemma_consume(mid, IdView { id, kind: IdKind::DerivedId });
}

/// An evaluation of the derived node `id` is one read of that node: where
/// `entered` is `before` with the evaluation entered, and the body has
/// taken `entered` to `computed` as reads do, leaving the evaluation gives
/// a context that `before` reaches by reading `id`.
pub proof fn lemma_evaluated_derived<T: Clone, C: DynamicComputation<T, F>, F: DynamicCode<T, C>>(
    before: ContextView<T, C, F>,
    entered: ContextView<T, C, F>,
    computed: ContextView<T, C, F>,
    id: nat,
    computation: C,
    value: T,
)
    requires
        before.wf(),
        before.readable(IdView { id, kind: IdKind::DerivedId }),
        entered == before.enter_derived(id),
        Some(computation) == before.inputs.unwrap().derived[id as int].computation,
        computed.wf(),
        computed.extends(entered),
        computation.gives(entered, computed, value),
    ensures
        computed.frames.len() > 0,
        computed.inputs is Some,
        id < computed.inputs.unwrap().derived.len(),
        before.reads(
            computed.leave_derived(id, computation),
            IdView { id, kind: IdKind::DerivedId },
            value,
        ),
{
    let after = computed.leave_derived(id, computation);
    lemma_leave_derived(computed, id, computation);
    assert(computed.frames.drop_last() =~= before.frames);
    assert(after.frames.len() > 0 ==> after.frames.last().deps.take(
        before.frames.last().deps.len() as int,
    ) =~= before.frames.last().deps);
    assert forall|i: int| 0 <= i < after.inputs.unwrap().derived.len() implies {
        &&& (#[trigger] after.inputs.unwrap().derived[i]).computation
            == before.inputs.unwrap().derived[i].computation
        &&& after.inputs.unwrap().derived[i].tag.modifying
            == before.inputs.unwrap().derived[i].tag.modifying
        &&& before.inputs.unwrap().derived[i].tag.initialized
            ==> after.inputs.unwrap().derived[i].tag.initialized
        &&& before.inputs.unwrap().derived[i].tag.modifying ==> after.inputs.unwrap().derived[i]
            == before.inputs.unwrap().derived[i]
    } by {}
    assert(before.evaluates_derived(computed, after, id, value));
}

/// Leaving the evaluation of a function instance keeps the context well
/// formed.
pub proof fn lemma_leave_function<T, C, F>(
    before: ContextView<T, C, F>,
    id: nat,
    code: DynamicFunction<T, F>,
)
    requires
        before.wf(),
        before.frames.len() > 0,
        before.inputs is Some,
        id < before.inputs.unwrap().functions.len(),
    ensures
        before.leave_function(id, code).wf(),
{
    let tag = before.frames.last().done();
    let mid = ContextView {
        frames: before.frames.drop_last(),
        inputs: Some(before.inputs.unwrap().finish_function(id, code, tag)),
    };
    assert(before.frames[before.frames.len() - 1].modifying);
    assert forall|i: int| 0 <= i < mid.inputs.unwrap().functions.len() implies (
    #[trigger] mid.inputs.unwrap().functions[i]).wf() && mid.inputs.unwrap().known(
        mid.inputs.unwrap().functions[i].tag.deps,
    ) by {
        if i != id {
            assert(mid.inputs.unwrap().functions[i] == before.inputs.unwrap().functions[i]);
        }
    }
    assert forall|i: int| 0 <= i < mid.inputs.unwrap().derived.len() implies (
    #[trigger] mid.inputs.unwrap().derived[i]).wf() && mid.inputs.unwrap().known(
        mid.inputs.unwrap().derived[i].tag.deps,
    ) by {
        assert(mid.inputs.unwrap().derived[i] == before.inputs.unwrap().derived[i]);
    }
    assert forall|k: int| 0 <= k < mid.frames.len() implies (#[trigger] mid.frames[k]).modifying
        && mid.inputs.unwrap().known(mid.frames[k].deps) by {
        assert(mid.frames[k] == before.frames[k]);
    }
    lemma_consume(mid, IdView { id, kind: IdKind::FunctionId });
}

/// An evaluation of the function instance `id` is one read of that
/// instance.
pub proof fn lemma_evaluated_function<T: Clone, C: DynamicComputation<T, F>, F: DynamicCode<T, C>>(
    before: ContextView<T, C, F>,
    entered: ContextView<T, C, F>,
    computed: ContextView<T, C, F>,
    id: nat,
    code: DynamicFunction<T, F>,
    value: T,
)
    requires
        before.wf(),
        before.readable(IdView { id, kind: IdKind::FunctionId }),
        entered == before.enter_function(id),
        Some(code) == before.inputs.unwrap().functions[id as int].code,
        computed.wf(),
        computed.extends(entered),
        code.code().gives(entered, before.inputs.unwrap().functions[id as int].args, computed, value),
    ensures
        computed.frames.len() > 0,
        computed.inputs is Some,
        id < computed.inputs.unwrap().functions.len(),
        before.reads(
            computed.leave_function(id, code),
            IdView { id, kind: IdKind::FunctionId },
            value,
        ),
{
    let after = computed.leave_function(id, code);
    lemma_leave_function(computed, id, code);
    assert(computed.frames.drop_last() =~= before.frames);
    assert(after.frames.len() > 0 ==> after.frames.last().deps.take(
        before.frames.last().deps.len() as int,
    ) =~= before.frames.last().deps);
    assert forall|i: int| 0 <= i < after.inputs.unwrap().functions.len() implies {
        &&& (#[trigger] after.inputs.unwrap().functions[i]).code
            == before.inputs.unwrap().functions[i].code
        &&& after.inputs.unwrap().functions[i].args == before.inputs.unwrap().functions[i].args
        &&& after.inputs.unwrap().functions[i].tag.modifying
            == before.inputs.unwrap().functions[i].tag.modifying
        &&& before.inputs.unwrap().functions[i].tag.initialized
            ==> after.inputs.unwrap().functions[i].tag.initialized
        &&& before.inputs.unwrap().functions[i].tag.modifying ==> after.inputs.unwrap().functions[i]
            == before.inputs.unwrap().functions[i]
    } by {}
    assert(before.evaluates_function(computed, after, id, value));
}

impl<'a, T: Clone, C: DynamicComputation<T, F>, F: DynamicCode<T, C>> EvaluationContext<'a, T, C, F> {
    /// Reads the cell `id`: a clone of its value. The read is recorded.
    pub(crate) fn read_cell(&mut self, id: TypedInputIdWithKind<T, CellId<T>>) -> (value: T)
        requires
            old(self).wf(),
            old(self)@.readable(id@),
        ensures
            final(self).wf(),
            old(self)@.reads(final(self)@, id@, value),
            *final(final(self).inputs) == *final(old(self).inputs),
    {
        proof {
            id.lemma_kind();
        }
        let value = self.inputs.read_cell(id);
        proof {
            lemma_consume(self@, id@);
        }
        self.consume(ReactiveTag::Tag(id.as_unchecked_id()));
        proof {
            let before = old(self)@;
            let after = self@;
            assert(after.frames.len() > 0 ==> after.frames.last().deps.take(
                before.frames.last().deps.len() as int,
            ) =~= before.frames.last().deps);
        }
        value
    }

    /// Enters the evaluation of the derived node `id`: the node's tag is
    /// reset, a frame without dependencies goes on top of the stack, and
    /// the node's body is handed out.
    pub(crate) fn enter_derived(&mut self, id: TypedInputIdWithKind<T, DerivedId<T>>) -> (body: C)
        requires
            old(self).wf(),
            old(self)@.readable(id@),
        ensures
            final(self).wf(),
            final(self)@ == old(self)@.enter_derived(id@.id),
            Some(body) == old(self)@.inputs.unwrap().derived[id@.id as int].computation,
            *final(final(self).inputs) == *final(old(self).inputs),
    {
        proof {
            id.lemma_kind();
        }
        let (body, frame) = self.inputs.begin_derived(id);
        self.push(frame);
        body
    }

    /// Leaves the evaluation of the derived node `id`: the top frame comes
    /// off the stack and becomes the node's tag, the body goes back, and
    /// the node is recorded as one read of the evaluation around it.
    pub(crate) fn leave_derived(&mut self, id: TypedInputIdWithKind<T, DerivedId<T>>, body: C)
        requires
            old(self).wf(),
            old(self)@.frames.len() > 0,
            old(self)@.inputs is Some,
            id@.id < old(self)@.inputs.unwrap().derived.len(),
        ensures
            final(self).wf(),
            final(self)@ == old(self)@.leave_derived(id@.id, body),
            *final(final(self).inputs) == *final(old(self).inputs),
    {
        proof {
            lemma_leave_derived(self@, id@.id, body);
        }
        let mut tag = self.pop();
        tag.done();
        self.inputs.finish_derived(id, body, tag);
        self.consume(ReactiveTag::Derived(id.as_unchecked_id()));
    }

    /// Evaluates the derived node `id` and gives its value. The node's tag
    /// becomes the record of what the evaluation read, and the node is
    /// recorded as one read of the evaluation around it.
    pub(crate) fn compute_derived(
        &mut self,
        id: TypedInputIdWithKind<T, DerivedId<T>>,
    ) -> (value: T)
        requires
            old(self).wf(),
            old(self)@.readable(id@),
        ensures
            final(self).wf(),
            old(self)@.reads(final(self)@, id@, value),
            *final(final(self).inputs) == *final(old(self).inputs),
    {
        proof {
            id.lemma_kind();
        }
        let body = self.enter_derived(id);
        let ghost entered = self@;
        let value = body.compute(self);
        proof {
            lemma_evaluated_derived(old(self)@, entered, self@, id@.id, body, value);
        }
        self.leave_derived(id, body);
        value
    }

    /// Enters the evaluation of the function instance `id`: the instance's
    /// tag is reset, a frame without dependencies goes on top of the
    /// stack, and the instance's code and the handle on its argument are
    /// handed out.
    pub(crate) fn enter_function(
        &mut self,
        id: TypedInputIdWithKind<T, FunctionId<T>>,
    ) -> (r: (DynamicFunction<T, F>, DynId))
        requires
            old(self).wf(),
            old(self)@.readable(id@),
        ensures
            final(self).wf(),
            final(self)@ == old(self)@.enter_function(id@.id),
            Some(r.0) == old(self)@.inputs.unwrap().functions[id@.id as int].code,
            r.1 == old(self)@.inputs.unwrap().functions[id@.id as int].args,
            *final(final(self).inputs) == *final(old(self).inputs),
    {
        proof {
            id.lemma_kind();
        }
        let (code, args, frame) = self.inputs.begin_function(id);
        self.push(frame);
        (code, args)
    }

    /// Leaves the evaluation of the function instance `id`: the top frame
    /// comes off the stack and becomes the instance's tag, the code goes
    /// back, and the instance is recorded as one read of the evaluation
    /// around it.
    pub(crate) fn leave_function(
        &mut self,
        id: TypedInputIdWithKind<T, FunctionId<T>>,
        code: DynamicFunction<T, F>,
    )
        requires
            old(self).wf(),
            old(self)@.frames.len() > 0,
            old(self)@.inputs is Some,
            id@.id < old(self)@.inputs.unwrap().functions.len(),
        ensures
            final(self).wf(),
            final(self)@ == old(self)@.leave_function(id@.id, code),
            *final(final(self).inputs) == *final(old(self).inputs),
    {
        proof {
            lemma_leave_function(self@, id@.id, code);
        }
        let mut tag = self.pop();
        tag.done();
        self.inputs.finish_function(id, code, tag);
        self.consume(ReactiveTag::Function(id.as_unchecked_id()));
    }

    /// Evaluates the function instance `id`, by running its code on the
    /// handle of its argument, and gives its value. The instance's tag
    /// becomes the record of what the evaluation read, and the instance is
    /// recorded as one read of the evaluation around it.
    pub(crate) fn call_function(&mut self, id: TypedInputIdWithKind<T, FunctionId<T>>) -> (value: T)
        requires
            old(self).wf(),
            old(self)@.readable(id@),
        ensures
            final(self).wf(),
            old(self)@.reads(final(self)@, id@, value),
            *final(final(self).inputs) == *final(old(self).inputs),
    {
        proof {
            id.lemma_kind();
        }
        let (code, args) = self.enter_function(id);
        let ghost entered = self@;
        let value = code.call(self, args);
        proof {
            lemma_evaluated_function(old(self)@, entered, self@, id@.id, code, value);
        }
        self.leave_function(id, code);
        value
    }

    /// Reads the node `id` if it can be read, and gives its value; where
    /// it cannot be read, nothing changes and nothing is given.
    pub fn try_value(&mut self, id: TypedInputId<T>) -> (value: Option<T>)
        requires
            old(self).wf(),
        ensures
            final(self).wf(),
            value.is_some() <==> old(self)@.readable(id@),
            value.is_some() ==> old(self)@.reads(final(self)@, id@, value.unwrap()),
            value.is_none() ==> final(self)@ == old(self)@,
            *final(final(self).inputs) == *final(old(self).inputs),
    {
        if self.can_read(id) {
            Some(self.value(id))
        } else {
            None
        }
    }

    /// Reads the node `id`, whatever its kind, and gives its value. A cell
    /// gives a clone of what it holds; a node that is computed is evaluated
    /// anew. The read is recorded in the frame of the evaluation that makes
    /// it. There must be such a node, no list, and it must not be in the
    /// middle of its own evaluation.
    pub fn value(&mut self, id: TypedInputId<T>) -> (value: T)
        requires
            old(self).wf(),
            old(self)@.readable(id@),
        ensures
            final(self).wf(),
            old(self)@.reads(final(self)@, id@, value),
            *final(final(self).inputs) == *final(old(self).inputs),
    {
        id.value(self)
    }
}

} // verus!
