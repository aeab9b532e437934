//! Identifiers: handles on nodes, with and without the kind in their type.

use vstd::prelude::*;
use std::marker::PhantomData;
use crate::inputs::derived::DynamicComputation;
use crate::inputs::function::DynamicCode;
use crate::timeline::dyn_id::DynId;
use crate::timeline::evaluation_context::EvaluationContext;
use crate::timeline::inputs::Inputs;
use crate::timeline::revision::Revision;

verus! {

/// The number of a node within the nodes of its kind.
#[derive(Debug, Copy, Clone, Hash, Eq, PartialEq, Structural)]
pub struct InputId {
    id: u64,
}

impl View for InputId {
    type V = nat;

    closed spec fn view(&self) -> nat {
        self.id as nat
    }
}

impl InputId {
    /// The number of the first node of a kind.
    pub fn first() -> (id: InputId)
        ensures
            id@ == 0,
    {
        InputId { id: 0 }
    }

    /// The next number. Numbers end at `u64::MAX`.
    pub fn next(self) -> (id: InputId)
        requires
            self@ < u64::MAX,
        ensures
            id@ == self@ + 1,
    {
        InputId { id: self.id + 1 }
    }

    /// The number itself.
    pub fn index(self) -> (n: u64)
        ensures
            n == self@,
    {
        self.id
    }

    /// The handle with this number and the kind `kind`.
    pub fn typed<T, K: IdKindFor<T>>(self, kind: K) -> (id: TypedInputIdWithKind<T, K>)
        ensures
            id@ == (IdView { id: self@, kind: kind.spec_id_kind() }),
    {
        TypedInputIdWithKind { id: self, marker: PhantomData, kind }
    }
}

/// The kinds of node. Lists are reserved: no list can be made or read.
#[derive(Copy, Clone, Debug, Hash, Eq, PartialEq, Structural)]
pub enum IdKind {
    CellId,
    DerivedId,
    ListId,
    FunctionId,
}

/// What a handle is, as a value of mathematics: a number and a kind.
pub struct IdView {
    pub id: nat,
    pub kind: IdKind,
}

/// A kind of node, as a type: it knows which `IdKind` it is.
pub trait IdKindFor<T>: Copy {
    /// The kind, as a value.
    spec fn spec_id_kind(self) -> IdKind;

    fn id_kind(self) -> (kind: IdKind)
        ensures
            kind == self.spec_id_kind(),
    ;
}

/// The kind of cells.
#[derive(Debug, Hash)]
pub struct CellId<T> {
    marker: PhantomData<T>,
}

/// The kind of derived nodes.
#[derive(Debug, Hash)]
pub struct DerivedId<T> {
    marker: PhantomData<T>,
}

/// The kind of function instances.
#[derive(Debug, Hash)]
pub struct FunctionId<T> {
    marker: PhantomData<T>,
}

impl<T> CellId<T> {
    pub fn new() -> (kind: Self) {
        CellId { marker: PhantomData }
    }
}

impl<T> DerivedId<T> {
    pub fn new() -> (kind: Self) {
        DerivedId { marker: PhantomData }
    }
}

impl<T> FunctionId<T> {
    pub fn new() -> (kind: Self) {
        FunctionId { marker: PhantomData }
    }
}

impl<T> Clone for CellId<T> {
    fn clone(&self) -> (r: Self) {
        *self
    }
}

impl<T> Copy for CellId<T> {}

impl<T> Clone for DerivedId<T> {
    fn clone(&self) -> (r: Self) {
        *self
    }
}

impl<T> Copy for DerivedId<T> {}

impl<T> Clone for FunctionId<T> {
    fn clone(&self) -> (r: Self) {
        *self
    }
}

impl<T> Copy for FunctionId<T> {}

impl<T> IdKindFor<T> for CellId<T> {
    open spec fn spec_id_kind(self) -> IdKind {
        IdKind::CellId
    }

    fn id_kind(self) -> (kind: IdKind) {
        IdKind::CellId
    }
}

impl<T> IdKindFor<T> for DerivedId<T> {
    open spec fn spec_id_kind(self) -> IdKind {
        IdKind::DerivedId
    }

    fn id_kind(self) -> (kind: IdKind) {
        IdKind::DerivedId
    }
}

impl<T> IdKindFor<T> for FunctionId<T> {
    open spec fn spec_id_kind(self) -> IdKind {
        IdKind::FunctionId
    }

    fn id_kind(self) -> (kind: IdKind) {
        IdKind::FunctionId
    }
}

/// A handle whose type says of which kind the node is. Two such handles are
/// equal when they have the same number.
#[derive(Debug, Hash)]
pub struct TypedInputIdWithKind<T, K> {
    id: InputId,
    marker: PhantomData<T>,
    kind: K,
}

impl<T, K: IdKindFor<T>> View for TypedInputIdWithKind<T, K> {
    type V = IdView;

    closed spec fn view(&self) -> IdView {
        IdView { id: self.id@, kind: self.kind.spec_id_kind() }
    }
}

impl<T, K: IdKindFor<T>> Clone for TypedInputIdWithKind<T, K> {
    fn clone(&self) -> (r: Self)
        ensures
            r == *self,
    {
        *self
    }
}

impl<T, K: IdKindFor<T>> Copy for TypedInputIdWithKind<T, K> {}

impl<T, K: IdKindFor<T>> PartialEq for TypedInputIdWithKind<T, K> {
    fn eq(&self, other: &Self) -> (equal: bool) {
        self.id == other.id
    }
}

impl<T, K: IdKindFor<T>> Eq for TypedInputIdWithKind<T, K> {}

impl<T, K: IdKindFor<T>> vstd::std_specs::cmp::PartialEqSpecImpl for TypedInputIdWithKind<T, K> {
    open spec fn obeys_eq_spec() -> bool {
        true
    }

    open spec fn eq_spec(&self, other: &Self) -> bool {
        self@.id == other@.id
    }
}

impl<T, K: IdKindFor<T>> TypedInputIdWithKind<T, K> {
    /// The kind that the handle carries in its type.
    pub closed spec fn marker(self) -> K {
        self.kind
    }

    /// The kind of the handle is the one that its type says.
    pub proof fn lemma_kind(self)
        ensures
            self@.kind == self.marker().spec_id_kind(),
    {
    }

    pub fn new(id: InputId, kind: K) -> (r: Self)
        ensures
            r@ == (IdView { id: id@, kind: kind.spec_id_kind() }),
    {
        TypedInputIdWithKind { id, marker: PhantomData, kind }
    }

    /// The handle on the node after this one, of the same kind.
    pub fn next(self) -> (r: Self)
        requires
            self@.id < u64::MAX,
        ensures
            r@ == (IdView { id: self@.id + 1, kind: self@.kind }),
    {
        TypedInputIdWithKind { id: self.id.next(), kind: self.kind, marker: PhantomData }
    }

    /// The number of the node, without its kind.
    pub fn as_unchecked_id(self) -> (id: InputId)
        ensures
            id@ == self@.id,
    {
        self.id
    }

    /// The kind of the node.
    pub fn kind(self) -> (kind: IdKind)
        ensures
            kind == self@.kind,
    {
        self.kind.id_kind()
    }
}

impl<T: 'static, K: IdKindFor<T>> TypedInputIdWithKind<T, K> {
    /// The handle without its type, with the identity of `T` beside it.
    pub fn to_dyn(self) -> (r: DynId)
        ensures
            r@ == self@,
    {
        DynId::new::<T>(self.id, self.kind.id_kind())
    }
}

/// A handle that carries the kind of its node as a value.
#[derive(Debug, Hash, Eq, PartialEq)]
pub struct TypedInputId<T> {
    id: InputId,
    marker: PhantomData<T>,
    kind: IdKind,
}

impl<T> View for TypedInputId<T> {
    type V = IdView;

    closed spec fn view(&self) -> IdView {
        IdView { id: self.id@, kind: self.kind }
    }
}

impl<T> Clone for TypedInputId<T> {
    fn clone(&self) -> (r: Self)
        ensures
            r == *self,
    {
        *self
    }
}

impl<T> Copy for TypedInputId<T> {}

impl<T> TypedInputId<T> {
    pub fn new(id: InputId, kind: IdKind) -> (r: TypedInputId<T>)
        ensures
            r@ == (IdView { id: id@, kind }),
    {
        TypedInputId { id, marker: PhantomData, kind }
    }

    /// The kind of the node.
    pub fn kind(&self) -> (kind: IdKind)
        ensures
            kind == self@.kind,
    {
        self.kind
    }

    /// The number and the kind of the node, apart.
    pub fn as_unchecked(self) -> (r: (InputId, IdKind))
        ensures
            r.0@ == self@.id,
            r.1 == self@.kind,
    {
        (self.id, self.kind)
    }

    /// The same handle with its kind in the type. The handle must be of that
    /// kind.
    pub fn downcast<K: IdKindFor<T>>(self, kind: K) -> (r: TypedInputIdWithKind<T, K>)
        requires
            self@.kind == kind.spec_id_kind(),
        ensures
            r@ == self@,
    {
        TypedInputIdWithKind { id: self.id, marker: PhantomData, kind }
    }

    /// The same handle with its kind in the type, where the handle is of
    /// that kind.
    pub fn try_downcast<K: IdKindFor<T>>(self, kind: K) -> (r: Option<TypedInputIdWithKind<T, K>>)
        ensures
            r.is_some() <==> self@.kind == kind.spec_id_kind(),
            r.is_some() ==> r.unwrap()@ == self@,
    {
        if self.kind == kind.id_kind() {
            Some(TypedInputIdWithKind { id: self.id, marker: PhantomData, kind })
        } else {
            None
        }
    }
}

impl<T, K: IdKindFor<T>> From<TypedInputIdWithKind<T, K>> for TypedInputId<T> {
    fn from(input: TypedInputIdWithKind<T, K>) -> (r: TypedInputId<T>) {
        TypedInputId { id: input.id, marker: PhantomData, kind: input.kind.id_kind() }
    }
}

impl<T, K: IdKindFor<T>> vstd::std_specs::convert::FromSpecImpl<TypedInputIdWithKind<T, K>> for TypedInputId<T> {
    open spec fn obeys_from_spec() -> bool {
        true
    }

    open spec fn from_spec(input: TypedInputIdWithKind<T, K>) -> TypedInputId<T> {
        input.erased()
    }
}

impl<T, K: IdKindFor<T>> TypedInputIdWithKind<T, K> {
    /// The handle with its kind as a value.
    pub closed spec fn erased(self) -> TypedInputId<T> {
        TypedInputId { id: self.id, marker: PhantomData, kind: self.kind.spec_id_kind() }
    }

    /// Forgetting the kind in the type keeps the number and the kind.
    pub proof fn lemma_erased(self)
        ensures
            self.erased()@ == self@,
    {
    }
}

impl<T: 'static> TypedInputId<T> {
    /// The handle without its type, with the identity of `T` beside it.
    pub fn to_dyn(self) -> (r: DynId)
        ensures
            r@ == self@,
    {
        DynId::new::<T>(self.id, self.kind)
    }
}

impl<T: Clone> TypedInputId<T> {
    /// Reads the node through `ctx`, by the rule of its kind: a cell is
    /// read, a derived node is evaluated, a function instance is called.
    /// Lists cannot be read.
    pub fn value<C, F>(&self, ctx: &mut EvaluationContext<'_, T, C, F>) -> (value: T) where
        C: DynamicComputation<T, F>,
        F: DynamicCode<T, C>,

        requires
            old(ctx).wf(),
            old(ctx)@.readable(self@),
        ensures
            final(ctx).wf(),
            old(ctx)@.reads(final(ctx)@, self@, value),
            *final(final(ctx).inputs) == *final(old(ctx).inputs),
    {
        match self.kind {
            IdKind::CellId => ctx.read_cell(self.downcast(CellId::new())),
            IdKind::DerivedId => ctx.compute_derived(self.downcast(DerivedId::new())),
            IdKind::ListId => unreached(),
            IdKind::FunctionId => ctx.call_function(self.downcast(FunctionId::new())),
        }
    }
}

impl<T> TypedInputId<T> {
    /// The revision of the node in `inputs`.
    pub fn revision<C, F>(self, inputs: &Inputs<T, C, F>) -> (r: Option<Revision>)
        requires
            inputs.inv(),
            inputs@ is Some,
            inputs@.unwrap().wf(),
            inputs@.unwrap().readable(self@),
        ensures
            r.is_some() <==> inputs@.unwrap().revision(self@).is_some(),
            r.is_some() ==> r.unwrap()@ == inputs@.unwrap().revision(self@).unwrap(),
    {
        inputs.revision(self)
    }
}

impl<T: Clone, K: IdKindFor<T>> TypedInputIdWithKind<T, K> {
    /// Reads the node through `ctx`, by the rule of its kind.
    pub fn value<C, F>(self, ctx: &mut EvaluationContext<'_, T, C, F>) -> (value: T) where
        C: DynamicComputation<T, F>,
        F: DynamicCode<T, C>,

        requires
            old(ctx).wf(),
            old(ctx)@.readable(self@),
        ensures
            final(ctx).wf(),
            old(ctx)@.reads(final(ctx)@, self@, value),
            *final(final(ctx).inputs) == *final(old(ctx).inputs),
    {
        TypedInputId::from(self).value(ctx)
    }
}

impl<T, K: IdKindFor<T>> TypedInputIdWithKind<T, K> {
    /// The revision of the node in `inputs`.
    pub fn revision<C, F>(self, inputs: &Inputs<T, C, F>) -> (r: Option<Revision>)
        requires
            inputs.inv(),
            inputs@ is Some,
            inputs@.unwrap().wf(),
            inputs@.unwrap().readable(self@),
        ensures
            r.is_some() <==> inputs@.unwrap().revision(self@).is_some(),
            r.is_some() ==> r.unwrap()@ == inputs@.unwrap().revision(self@).unwrap(),
    {
        TypedInputId::from(self).revision(inputs)
    }
}

} // verus!
