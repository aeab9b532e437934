//! Derived nodes: values computed from other nodes, with the tag that records
//! what the last evaluation read.

use vstd::prelude::*;
use std::marker::PhantomData;
use crate::inputs::reactive::{DerivedView, Reactive, ReactiveTag};
use crate::timeline::evaluation_context::{ContextView, EvaluationContext};
use crate::timeline::id::{IdKind, IdView, InputId};

verus! {

/// The dependencies of a derived node and the state of its evaluation.
#[derive(Debug)]
pub struct DerivedTagData {
    deps: Vec<ReactiveTag>,
    initialized: bool,
    modifying: bool,
}

impl View for DerivedTagData {
    type V = DerivedView;

    closed spec fn view(&self) -> DerivedView {
        DerivedView {
            deps: Seq::new(self.deps@.len(), |i: int| self.deps@[i]@),
            initialized: self.initialized,
            modifying: self.modifying,
        }
    }
}

impl Clone for DerivedTagData {
    fn clone(&self) -> (r: Self)
        ensures
            r@ == self@,
    {
        let mut deps: Vec<ReactiveTag> = Vec::new();
        let mut i: usize = 0;
        while i < self.deps.len()
            invariant
                i <= self.deps.len(),
                deps@ == self.deps@.take(i as int),
            decreases self.deps.len() - i,
        {
            deps.push(self.deps[i]);
            assert(deps@ =~= self.deps@.take(i + 1));
            i = i + 1;
        }
        assert(deps@ =~= self.deps@);
        DerivedTagData { deps, initialized: self.initialized, modifying: self.modifying }
    }
}

impl Default for DerivedTagData {
    fn default() -> (r: Self)
        ensures
            r@ == DerivedView::fresh(),
    {
        let r = DerivedTagData { deps: Vec::new(), initialized: false, modifying: false };
        assert(r@.deps =~= Seq::empty());
        r
    }
}

impl DerivedTagData {
    /// Forgets the dependencies and enters an evaluation.
    pub fn reset(&mut self)
        ensures
            final(self)@ == old(self)@.reset(),
    {
        self.deps.clear();
        self.modifying = true;
        assert(self@.deps =~= Seq::empty());
    }

    /// Leaves the evaluation; the node has now been evaluated.
    pub fn done(&mut self)
        ensures
            final(self)@ == old(self)@.done(),
    {
        self.modifying = false;
        self.initialized = true;
    }

    /// Records one more dependency.
    pub fn add_dep(&mut self, tag: ReactiveTag)
        ensures
            final(self)@ == old(self)@.add_dep(tag@),
    {
        self.deps.push(tag);
        assert(self@.deps =~= old(self)@.deps.push(tag@));
    }

    /// How many dependencies the tag holds.
    pub fn len(&self) -> (n: usize)
        ensures
            n == self@.deps.len(),
    {
        self.deps.len()
    }

    /// The dependency at place `i`.
    pub fn dep(&self, i: usize) -> (tag: ReactiveTag)
        requires
            i < self@.deps.len(),
        ensures
            tag@ == self@.deps[i as int],
    {
        self.deps[i]
    }

    /// Whether an evaluation is under way.
    pub fn is_modifying(&self) -> (b: bool)
        ensures
            b == self@.modifying,
    {
        self.modifying
    }

    /// Whether an evaluation has been completed.
    pub fn is_initialized(&self) -> (b: bool)
        ensures
            b == self@.initialized,
    {
        self.initialized
    }
}

/// The tag of a derived node. It is either idle or being modified; each
/// operation belongs to one of the two states.
#[derive(Debug)]
pub struct DerivedTag {
    tag: DerivedTagData,
}

impl View for DerivedTag {
    type V = DerivedView;

    closed spec fn view(&self) -> DerivedView {
        self.tag@
    }
}

impl Clone for DerivedTag {
    fn clone(&self) -> (r: Self)
        ensures
            r@ == self@,
    {
        DerivedTag { tag: self.tag.clone() }
    }
}

impl Default for DerivedTag {
    fn default() -> (r: Self)
        ensures
            r@ == DerivedView::fresh(),
    {
        DerivedTag { tag: DerivedTagData::default() }
    }
}

impl DerivedTag {
    /// The data of an idle tag.
    fn assert_not_modifying(&mut self) -> (data: &mut DerivedTagData)
        requires
            !old(self)@.modifying,
        ensures
            data@ == old(self)@,
            final(self)@ == final(data)@,
    {
        &mut self.tag
    }

    /// The data of a tag that is being modified.
    fn assert_modifying(&mut self) -> (data: &mut DerivedTagData)
        requires
            old(self)@.modifying,
        ensures
            data@ == old(self)@,
            final(self)@ == final(data)@,
    {
        &mut self.tag
    }

    /// Begins an evaluation: the dependencies are forgotten.
    pub fn reset(&mut self)
        requires
            !old(self)@.modifying,
        ensures
            final(self)@ == old(self)@.reset(),
    {
        self.assert_not_modifying().reset();
    }

    /// Ends the evaluation.
    pub fn done(&mut self)
        requires
            old(self)@.modifying,
        ensures
            final(self)@ == old(self)@.done(),
    {
        self.assert_modifying().done();
    }

    /// Records one more dependency of the evaluation under way.
    pub fn add_dep(&mut self, tag: ReactiveTag)
        requires
            old(self)@.modifying,
        ensures
            final(self)@ == old(self)@.add_dep(tag@),
    {
        self.assert_modifying().add_dep(tag);
    }

    /// How many dependencies the tag holds.
    pub fn len(&self) -> (n: usize)
        ensures
            n == self@.deps.len(),
    {
        self.tag.len()
    }

    /// The dependency at place `i`.
    pub fn dep(&self, i: usize) -> (tag: ReactiveTag)
        requires
            i < self@.deps.len(),
        ensures
            tag@ == self@.deps[i as int],
    {
        self.tag.dep(i)
    }

    /// Whether an evaluation is under way.
    pub fn is_modifying(&self) -> (b: bool)
        ensures
            b == self@.modifying,
    {
        self.tag.is_modifying()
    }

    /// Whether an evaluation has been completed.
    pub fn is_initialized(&self) -> (b: bool)
        ensures
            b == self@.initialized,
    {
        self.tag.is_initialized()
    }
}

/// The body of a derived node: it computes the node's value by reading other
/// nodes through the context, which records each read.
///
/// The engine relies on what the contract says of the context: the body
/// leaves the context well formed, and changes it only as reads do. What
/// the body gives is its own to say, in `gives`.
pub trait DynamicComputation<T, F>: Sized {
    /// What the body gives: run in the context `before`, it may leave the
    /// context `after` and give `value`. A body that does not say what it
    /// gives may give anything.
    open spec fn gives(
        &self,
        before: ContextView<T, Self, F>,
        after: ContextView<T, Self, F>,
        value: T,
    ) -> bool {
        true
    }

    fn compute(&self, ctx: &mut EvaluationContext<'_, T, Self, F>) -> (value: T)
        requires
            old(ctx).wf(),
        ensures
            final(ctx).wf(),
            final(ctx)@.extends(old(ctx)@),
            self.gives(old(ctx)@, final(ctx)@, value),
            *final(final(ctx).inputs) == *final(old(ctx).inputs),
    ;
}

/// What a derived node is, as a value of mathematics.
pub struct DerivedNodeView<C> {
    /// What the last evaluation read.
    pub tag: DerivedView,
    /// The body. It is away while the node is being evaluated.
    pub computation: Option<C>,
}

impl<C> DerivedNodeView<C> {
    /// The body is away exactly while the node is being evaluated.
    pub open spec fn wf(self) -> bool {
        self.computation is None <==> self.tag.modifying
    }

    /// The node once its evaluation has begun: the tag is reset and the
    /// body is away.
    pub open spec fn begun(self) -> Self {
        DerivedNodeView { tag: self.tag.reset(), computation: None }
    }

    /// The node once its evaluation has ended with the tag `tag`: the body
    /// is back.
    pub open spec fn ended(self, computation: C, tag: DerivedView) -> Self {
        DerivedNodeView { tag, computation: Some(computation) }
    }
}

/// A derived node: a body and the tag of its last evaluation.
pub struct ReactiveDerived<T, C> {
    tag: DerivedTag,
    computation: Option<C>,
    marker: PhantomData<T>,
}

impl<T, C> View for ReactiveDerived<T, C> {
    type V = DerivedNodeView<C>;

    closed spec fn view(&self) -> DerivedNodeView<C> {
        DerivedNodeView { tag: self.tag@, computation: self.computation }
    }
}

impl<T, C> ReactiveDerived<T, C> {
    /// A node with the body `computation`, which carries `tag`.
    pub fn new(tag: DerivedTag, computation: C) -> (node: Self)
        ensures
            node@ == (DerivedNodeView { tag: tag@, computation: Some(computation) }),
    {
        ReactiveDerived { tag, computation: Some(computation), marker: PhantomData }
    }

    /// The tag of the node.
    pub fn tag(&self) -> (tag: &DerivedTag)
        ensures
            tag@ == self@.tag,
    {
        &self.tag
    }

    /// Whether the node has been evaluated.
    pub fn is_initialized(&self) -> (b: bool)
        ensures
            b == self@.tag.initialized,
    {
        self.tag.is_initialized()
    }

    /// Whether the node is being evaluated.
    pub fn is_modifying(&self) -> (b: bool)
        ensures
            b == self@.tag.modifying,
    {
        self.tag.is_modifying()
    }

    /// Begins an evaluation: the tag is reset, and the body and a copy of the
    /// tag are handed out.
    pub(crate) fn reset_tag(&mut self) -> (r: (C, DerivedTag))
        requires
            old(self)@.wf(),
            !old(self)@.tag.modifying,
        ensures
            final(self)@ == old(self)@.begun(),
            Some(r.0) == old(self)@.computation,
            r.1@ == old(self)@.tag.reset(),
    {
        self.tag.reset();
        let computation = self.computation.take();
        (computation.unwrap(), self.tag.clone())
    }

    /// Ends an evaluation: the node takes the tag of the evaluation, and its
    /// body back.
    pub(crate) fn replace_tag(&mut self, computation: C, tag: DerivedTag)
        ensures
            final(self)@ == old(self)@.ended(computation, tag@),
    {
        self.tag = tag;
        self.computation = Some(computation);
    }
}

impl<T, C> Reactive for ReactiveDerived<T, C> {
    open spec fn kind(&self) -> IdKind {
        IdKind::DerivedId
    }

    fn get_tag(&self, id: InputId) -> (tag: ReactiveTag) {
        ReactiveTag::Derived(id)
    }
}

} // verus!
