//! Functions: code that is written once and bound to an argument node many
//! times. Each binding is a node with a tag of its own.

use vstd::prelude::*;
use std::any::TypeId;
use std::marker::PhantomData;
use crate::inputs::derived::{DerivedTag, DynamicComputation};
use crate::inputs::reactive::{DerivedView, Reactive, ReactiveTag};
use crate::timeline::dyn_id::{type_key, DynId};
use crate::timeline::evaluation_context::{ContextView, EvaluationContext};
use crate::timeline::id::{IdKind, InputId, TypedInputId};

verus! {

/// The code of a function: it computes a value from the context and from the
/// handle on its argument, whose type it asks back before it reads.
///
/// The engine relies on what the contract says of the context, as it does
/// for the body of a derived node. What the code gives is its own to say,
/// in `gives`.
pub trait DynamicCode<T, C>: Sized {
    /// What the code gives: run in the context `before` on the argument
    /// `arg`, it may leave the context `after` and give `value`. Code that
    /// does not say what it gives may give anything.
    open spec fn gives(
        &self,
        before: ContextView<T, C, Self>,
        arg: DynId,
        after: ContextView<T, C, Self>,
        value: T,
    ) -> bool {
        true
    }

    fn call(&self, ctx: &mut EvaluationContext<'_, T, C, Self>, arg: DynId) -> (value: T)
        requires
            old(ctx).wf(),
        ensures
            final(ctx).wf(),
            final(ctx)@.extends(old(ctx)@),
            self.gives(old(ctx)@, arg, final(ctx)@, value),
            *final(final(ctx).inputs) == *final(old(ctx).inputs),
    ;
}

/// Code together with the identity of the type of its argument.
pub struct DynamicFunction<T, F> {
    arg_id: TypeId,
    code: F,
    marker: PhantomData<T>,
}

impl<T, F> DynamicFunction<T, F> {
    /// The code itself.
    pub closed spec fn code(&self) -> F {
        self.code
    }

    /// The identity of the type of the argument.
    pub closed spec fn arg_key(&self) -> TypeId {
        self.arg_id
    }

    /// A function whose argument is of the type with the identity `key`.
    pub fn with_key(code: F, key: TypeId) -> (function: DynamicFunction<T, F>)
        ensures
            function.code() == code,
            function.arg_key() == key,
    {
        DynamicFunction { arg_id: key, code, marker: PhantomData }
    }

    /// A function whose argument is of type `Arg`.
    pub fn from_macro<Arg: 'static>(code: F) -> (function: DynamicFunction<T, F>)
        ensures
            function.code() == code,
    {
        DynamicFunction::with_key(code, type_key::<Arg>())
    }
}

impl<T, F: Clone> Clone for DynamicFunction<T, F> {
    fn clone(&self) -> (r: Self)
        ensures
            cloned(self.code(), r.code()),
            r.arg_key() == self.arg_key(),
    {
        DynamicFunction { arg_id: self.arg_id, code: self.code.clone(), marker: PhantomData }
    }
}

impl<T, F> DynamicFunction<T, F> {
    /// Runs the code on the argument `arg`.
    pub fn call<C>(&self, ctx: &mut EvaluationContext<'_, T, C, F>, arg: DynId) -> (value: T) where
        C: DynamicComputation<T, F>,
        F: DynamicCode<T, C>,

        requires
            old(ctx).wf(),
        ensures
            final(ctx).wf(),
            final(ctx)@.extends(old(ctx)@),
            self.code().gives(old(ctx)@, arg, final(ctx)@, value),
            *final(final(ctx).inputs) == *final(old(ctx).inputs),
    {
        self.code.call(ctx, arg)
    }
}

/// A function whose argument type is known to the compiler.
pub struct ReactiveFunction<T, Arg, F> {
    code: DynamicFunction<T, F>,
    arg: PhantomData<Arg>,
}

impl<T, Arg: 'static, F> ReactiveFunction<T, Arg, F> {
    /// The function that is bound.
    pub closed spec fn function(&self) -> DynamicFunction<T, F> {
        self.code
    }

    /// The function `code`, as one whose argument is of type `Arg`.
    pub fn new(code: DynamicFunction<T, F>) -> (function: Self)
        ensures
            function.function() == code,
    {
        ReactiveFunction { code, arg: PhantomData }
    }
}

impl<T, Arg: 'static, F: Clone> ReactiveFunction<T, Arg, F> {
    /// Binds the function to the node `args`: an instance that has never been
    /// evaluated.
    pub fn instantiate(&self, args: TypedInputId<Arg>) -> (instance: ReactiveFunctionInstance<T, F>)
        ensures
            instance@.wf(),
            instance@.tag == DerivedView::fresh(),
            instance@.args@ == args@,
            instance@.code.is_some(),
            cloned(self.function().code(), instance@.code.unwrap().code()),
            instance@.code.unwrap().arg_key() == self.function().arg_key(),
    {
        ReactiveFunctionInstance {
            args: args.to_dyn(),
            code: Some(self.code.clone()),
            tag: DerivedTag::default(),
        }
    }
}

/// What a function instance is, as a value of mathematics.
pub struct FunctionNodeView<T, F> {
    /// The handle on the argument.
    pub args: DynId,
    /// What the last evaluation read.
    pub tag: DerivedView,
    /// The code. It is away while the instance is being evaluated.
    pub code: Option<DynamicFunction<T, F>>,
}

impl<T, F> FunctionNodeView<T, F> {
    /// The code is away exactly while the instance is being evaluated.
    pub open spec fn wf(self) -> bool {
        self.code is None <==> self.tag.modifying
    }

    /// The instance once its evaluation has begun: the tag is reset and the
    /// code is away.
    pub open spec fn begun(self) -> Self {
        FunctionNodeView { args: self.args, tag: self.tag.reset(), code: None }
    }

    /// The instance once its evaluation has ended with the tag `tag`: the
    /// code is back.
    pub open spec fn ended(self, code: DynamicFunction<T, F>, tag: DerivedView) -> Self {
        FunctionNodeView { args: self.args, tag, code: Some(code) }
    }
}

/// A function bound to an argument: a node with a tag of its own.
pub struct ReactiveFunctionInstance<T, F> {
    args: DynId,
    code: Option<DynamicFunction<T, F>>,
    tag: DerivedTag,
}

impl<T, F> View for ReactiveFunctionInstance<T, F> {
    type V = FunctionNodeView<T, F>;

    closed spec fn view(&self) -> FunctionNodeView<T, F> {
        FunctionNodeView { args: self.args, tag: self.tag@, code: self.code }
    }
}

impl<T, F> ReactiveFunctionInstance<T, F> {
    /// The tag of the instance.
    pub fn tag(&self) -> (tag: &DerivedTag)
        ensures
            tag@ == self@.tag,
    {
        &self.tag
    }

    /// Whether the instance has been evaluated.
    pub fn is_initialized(&self) -> (b: bool)
        ensures
            b == self@.tag.initialized,
    {
        self.tag.is_initialized()
    }

    /// Whether the instance is being evaluated.
    pub fn is_modifying(&self) -> (b: bool)
        ensures
            b == self@.tag.modifying,
    {
        self.tag.is_modifying()
    }

    /// Begins an evaluation: the tag is reset, and the code, the handle on
    /// the argument and a copy of the tag are handed out.
    pub(crate) fn reset_tag(&mut self) -> (r: (DynamicFunction<T, F>, DynId, DerivedTag))
        requires
            old(self)@.wf(),
            !old(self)@.tag.modifying,
        ensures
            final(self)@ == old(self)@.begun(),
            Some(r.0) == old(self)@.code,
            r.1 == old(self)@.args,
            r.2@ == old(self)@.tag.reset(),
    {
        self.tag.reset();
        let code = self.code.take();
        (code.unwrap(), self.args, self.tag.clone())
    }

    /// Ends an evaluation: the instance takes the tag of the evaluation, and
    /// its code back.
    pub(crate) fn replace_tag(&mut self, code: DynamicFunction<T, F>, tag: DerivedTag)
        ensures
            final(self)@ == old(self)@.ended(code, tag@),
    {
        self.tag = tag;
        self.code = Some(code);
    }
}

impl<T, F> Reactive for ReactiveFunctionInstance<T, F> {
    open spec fn kind(&self) -> IdKind {
        IdKind::FunctionId
    }

    fn get_tag(&self, id: InputId) -> (tag: ReactiveTag) {
        ReactiveTag::Function(id)
    }
}

} // verus!
