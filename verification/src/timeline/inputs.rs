//! The registry: the nodes of a timeline, by kind and by number.

use vstd::prelude::*;
use indexmap::IndexMap;
use crate::inputs::cell::{CellView, ReactiveCell};
use crate::inputs::derived::{DerivedNodeView, DerivedTag, ReactiveDerived};
use crate::inputs::function::{DynamicFunction, FunctionNodeView, ReactiveFunctionInstance};
use crate::inputs::reactive::{DerivedView, Reactive, ReactiveTag};
use crate::timeline::dyn_id::DynId;
use crate::timeline::id::{
    CellId, DerivedId, FunctionId, IdKind, IdKindFor, IdView, InputId, TypedInputId,
    TypedInputIdWithKind,
};
use crate::timeline::revision::Revision;
use crate::timeline::slots::{insert_slot, new_index, slot_of, slots};

verus! {

/// What a registry is, as a value of mathematics: its nodes, by kind, in the
/// order in which they were added. The number of a node is its place.
pub struct RegistryView<T, C, F> {
    pub cells: Seq<CellView<T>>,
    pub derived: Seq<DerivedNodeView<C>>,
    pub functions: Seq<FunctionNodeView<T, F>>,
}

/// How many computed nodes in a row a revision is measured through. A
/// registry holds fewer, so that the measure of a node whose dependencies
/// lead back to no node goes all the way to the cells.
pub open spec fn full_depth() -> nat {
    u128::MAX as nat
}

impl<T, C, F> RegistryView<T, C, F> {
    /// The registry without nodes.
    pub open spec fn empty() -> Self {
        RegistryView { cells: Seq::empty(), derived: Seq::empty(), functions: Seq::empty() }
    }

    /// The node `id` has a value to read: a cell has, and a node that is
    /// computed once it has been evaluated.
    pub open spec fn evaluated(self, id: IdView) -> bool {
        id.kind != IdKind::CellId ==> self.tag(id).initialized
    }

    /// There is a node for each of `deps`, and it has been read: it has a
    /// value.
    pub open spec fn known(self, deps: Seq<IdView>) -> bool {
        forall|k: int|
            0 <= k < deps.len() ==> self.has(#[trigger] deps[k]) && self.evaluated(deps[k])
    }

    /// Every node is well formed, and each dependency of each node is a
    /// node that has been read.
    pub open spec fn wf(self) -> bool {
        &&& forall|i: int|
            0 <= i < self.derived.len() ==> (#[trigger] self.derived[i]).wf() && self.known(
                self.derived[i].tag.deps,
            )
        &&& forall|i: int|
            0 <= i < self.functions.len() ==> (#[trigger] self.functions[i]).wf() && self.known(
                self.functions[i].tag.deps,
            )
    }

    /// No node is being evaluated.
    pub open spec fn quiescent(self) -> bool {
        &&& forall|i: int| 0 <= i < self.derived.len() ==> !(#[trigger] self.derived[i]).tag.modifying
        &&& forall|i: int| 0 <= i < self.functions.len() ==> !(#[trigger] self.functions[i]).tag.modifying
    }

    /// No cell carries a revision later than `r`.
    pub open spec fn bounded(self, r: nat) -> bool {
        forall|i: int| 0 <= i < self.cells.len() ==> (#[trigger] self.cells[i]).revision <= r
    }

    /// There is a node for `id`. There never is one for a list.
    pub open spec fn has(self, id: IdView) -> bool {
        match id.kind {
            IdKind::CellId => id.id < self.cells.len(),
            IdKind::DerivedId => id.id < self.derived.len(),
            IdKind::FunctionId => id.id < self.functions.len(),
            IdKind::ListId => false,
        }
    }

    /// There is a node for `id`, and it is not being evaluated.
    pub open spec fn readable(self, id: IdView) -> bool {
        &&& self.has(id)
        &&& id.kind == IdKind::DerivedId ==> !self.derived[id.id as int].tag.modifying
        &&& id.kind == IdKind::FunctionId ==> !self.functions[id.id as int].tag.modifying
    }

    /// The latest revision that the nodes `deps` have now, each measured
    /// through at most `fuel` computed nodes in a row; the constant
    /// revision where there is no node.
    pub open spec fn latest(self, deps: Seq<IdView>, fuel: nat) -> nat
        decreases fuel, deps.len() + 1,
    {
        if deps.len() == 0 {
            0
        } else {
            let rest = self.latest(deps.drop_last(), fuel);
            let last = self.measure(deps.last(), fuel);
            if last > rest {
                last
            } else {
                rest
            }
        }
    }

    /// The revision that the node `node` has now, measured through at most
    /// `fuel` computed nodes in a row: for a cell the revision of its last
    /// update, for a computed node the latest revision that its
    /// dependencies have now.
    pub open spec fn measure(self, node: IdView, fuel: nat) -> nat
        decreases fuel, 0nat,
    {
        match node.kind {
            IdKind::CellId => if node.id < self.cells.len() {
                self.cells[node.id as int].revision
            } else {
                0
            },
            IdKind::DerivedId => if node.id < self.derived.len() && fuel > 0 {
                self.latest(self.derived[node.id as int].tag.deps, (fuel - 1) as nat)
            } else {
                0
            },
            IdKind::FunctionId => if node.id < self.functions.len() && fuel > 0 {
                self.latest(self.functions[node.id as int].tag.deps, (fuel - 1) as nat)
            } else {
                0
            },
            IdKind::ListId => 0,
        }
    }

    /// The tag of the computed node `id`.
    pub open spec fn tag(self, id: IdView) -> DerivedView {
        if id.kind == IdKind::FunctionId {
            self.functions[id.id as int].tag
        } else {
            self.derived[id.id as int].tag
        }
    }

    /// The revision of the node `id`. For a cell it is the revision of its
    /// last update. For a node that is computed it is the latest revision
    /// that the nodes it read have now, measured through the registry as
    /// deep as `full_depth` goes, and none before its first evaluation.
    pub open spec fn revision(self, id: IdView) -> Option<nat> {
        match id.kind {
            IdKind::CellId => Some(self.cells[id.id as int].revision),
            IdKind::DerivedId | IdKind::FunctionId => if self.tag(id).initialized {
                Some(self.latest(self.tag(id).deps, full_depth()))
            } else {
                None
            },
            IdKind::ListId => None,
        }
    }

    /// The registry with one more cell.
    pub open spec fn with_cell(self, cell: CellView<T>) -> Self {
        RegistryView { cells: self.cells.push(cell), derived: self.derived, functions: self.functions }
    }

    /// The registry with one more derived node.
    pub open spec fn with_derived(self, node: DerivedNodeView<C>) -> Self {
        RegistryView { cells: self.cells, derived: self.derived.push(node), functions: self.functions }
    }

    /// The registry with one more function instance.
    pub open spec fn with_function(self, node: FunctionNodeView<T, F>) -> Self {
        RegistryView { cells: self.cells, derived: self.derived, functions: self.functions.push(node) }
    }

    /// The registry with the cell `id` replaced.
    pub open spec fn update_cell(self, id: nat, cell: CellView<T>) -> Self {
        RegistryView {
            cells: self.cells.update(id as int, cell),
            derived: self.derived,
            functions: self.functions,
        }
    }

    /// The registry with the derived node `id` replaced.
    pub open spec fn update_derived(self, id: nat, node: DerivedNodeView<C>) -> Self {
        RegistryView {
            cells: self.cells,
            derived: self.derived.update(id as int, node),
            functions: self.functions,
        }
    }

    /// The registry with the function instance `id` replaced.
    pub open spec fn update_function(self, id: nat, node: FunctionNodeView<T, F>) -> Self {
        RegistryView {
            cells: self.cells,
            derived: self.derived,
            functions: self.functions.update(id as int, node),
        }
    }

    /// The registry once the evaluation of the derived node `id` has begun.
    pub open spec fn begin_derived(self, id: nat) -> Self {
        self.update_derived(id, self.derived[id as int].begun())
    }

    /// The registry once the evaluation of the function instance `id` has
    /// begun.
    pub open spec fn begin_function(self, id: nat) -> Self {
        self.update_function(id, self.functions[id as int].begun())
    }

    /// The registry once the evaluation of the derived node `id` has ended
    /// with the tag `tag`.
    pub open spec fn finish_derived(self, id: nat, computation: C, tag: DerivedView) -> Self {
        self.update_derived(id, self.derived[id as int].ended(computation, tag))
    }

    /// The registry once the evaluation of the function instance `id` has
    /// ended with the tag `tag`.
    pub open spec fn finish_function(
        self,
        id: nat,
        code: DynamicFunction<T, F>,
        tag: DerivedView,
    ) -> Self {
        self.update_function(id, self.functions[id as int].ended(code, tag))
    }

    /// What evaluations may change: cells stay as they are, nodes neither
    /// come nor go, bodies stay the same, a node that is being evaluated is
    /// left alone, and a node that is not is again not being evaluated.
    pub open spec fn extends(self, before: Self) -> bool {
        &&& self.cells == before.cells
        &&& self.derived.len() == before.derived.len()
        &&& self.functions.len() == before.functions.len()
        &&& forall|i: int|
            0 <= i < self.derived.len() ==> {
                &&& (#[trigger] self.derived[i]).computation == before.derived[i].computation
                &&& self.derived[i].tag.modifying == before.derived[i].tag.modifying
                &&& before.derived[i].tag.initialized ==> self.derived[i].tag.initialized
                &&& before.derived[i].tag.modifying ==> self.derived[i] == before.derived[i]
            }
        &&& forall|i: int|
            0 <= i < self.functions.len() ==> {
                &&& (#[trigger] self.functions[i]).code == before.functions[i].code
                &&& self.functions[i].args == before.functions[i].args
                &&& self.functions[i].tag.modifying == before.functions[i].tag.modifying
                &&& before.functions[i].tag.initialized ==> self.functions[i].tag.initialized
                &&& before.functions[i].tag.modifying ==> self.functions[i] == before.functions[i]
            }
    }
}

/// The nodes of one kind: each under its number, in the order in which they
/// were added.
pub struct InternalTypedInputs<T, Id, R> {
    map: IndexMap<u64, usize>,
    nodes: Vec<R>,
    next_id: TypedInputIdWithKind<T, Id>,
}

impl<T, Id: IdKindFor<T>, R> InternalTypedInputs<T, Id, R> {
    /// The nodes, each at the place of its number.
    pub closed spec fn nodes(&self) -> Seq<R> {
        self.nodes@
    }

    /// The kind of the nodes.
    pub closed spec fn kind(&self) -> IdKind {
        self.next_id@.kind
    }

    /// The index knows the numbers that were given out and no others, each
    /// with its place; the next number is the count of the nodes.
    pub closed spec fn inv(&self) -> bool {
        &&& self.next_id@.id == self.nodes@.len()
        &&& self.nodes@.len() <= u64::MAX
        &&& forall|k: u64| #[trigger] slots(self.map).contains_key(k) <==> k < self.nodes@.len()
        &&& forall|k: u64| k < self.nodes@.len() ==> #[trigger] slots(self.map)[k] == k
    }

    fn new(kind: Id) -> (r: Self)
        ensures
            r.inv(),
            r.nodes() == Seq::<R>::empty(),
            r.kind() == kind.spec_id_kind(),
    {
        InternalTypedInputs {
            map: new_index(),
            nodes: Vec::new(),
            next_id: InputId::first().typed(kind),
        }
    }

    /// Gives out the next number.
    fn next_id(&mut self) -> (id: TypedInputIdWithKind<T, Id>)
        requires
            old(self).next_id@.id < u64::MAX,
        ensures
            id == old(self).next_id,
            final(self).next_id@ == (IdView { id: id@.id + 1, kind: id@.kind }),
            final(self).map == old(self).map,
            final(self).nodes == old(self).nodes,
    {
        let next = self.next_id;
        self.next_id = next.next();
        next
    }

    /// Adds a node and gives its number.
    fn insert(&mut self, value: R) -> (id: TypedInputIdWithKind<T, Id>)
        requires
            old(self).inv(),
        ensures
            final(self).inv(),
            final(self).kind() == old(self).kind(),
            final(self).nodes() == old(self).nodes().push(value),
            id@ == (IdView { id: old(self).nodes().len(), kind: old(self).kind() }),
    {
        self.nodes.push(value);
        let slot = self.nodes.len() - 1;
        let next = self.next_id();
        let _ = insert_slot(&mut self.map, next.as_unchecked_id().index(), slot);
        next
    }

    /// The place of the node `key`, if there is such a node.
    fn slot(&self, key: TypedInputIdWithKind<T, Id>) -> (slot: Option<usize>)
        requires
            self.inv(),
        ensures
            slot.is_some() <==> key@.id < self.nodes().len(),
            slot.is_some() ==> slot.unwrap() == key@.id,
    {
        slot_of(&self.map, key.as_unchecked_id().index())
    }

    /// The node `key`, if there is such a node.
    fn get(&self, key: TypedInputIdWithKind<T, Id>) -> (node: Option<&R>)
        requires
            self.inv(),
        ensures
            node.is_some() <==> key@.id < self.nodes().len(),
            node.is_some() ==> *node.unwrap() == self.nodes()[key@.id as int],
    {
        match self.slot(key) {
            Some(slot) => Some(&self.nodes[slot]),
            None => None,
        }
    }

    /// How many nodes there are.
    fn len(&self) -> (n: usize)
        ensures
            n == self.nodes().len(),
    {
        self.nodes.len()
    }

    /// The node `key`, to be changed, if there is such a node.
    fn get_mut(&mut self, key: TypedInputIdWithKind<T, Id>) -> (node: Option<&mut R>)
        requires
            old(self).inv(),
        ensures
            node.is_some() <==> key@.id < old(self).nodes().len(),
            node.is_some() ==> *node.unwrap() == old(self).nodes()[key@.id as int],
            node.is_some() ==> final(self).nodes() == old(self).nodes().update(
                key@.id as int,
                *final(node.unwrap()),
            ),
            node.is_none() ==> final(self).nodes() == old(self).nodes(),
            final(self).inv(),
            final(self).kind() == old(self).kind(),
    {
        match self.slot(key) {
            Some(slot) => Some(&mut self.nodes[slot]),
            None => None,
        }
    }
}

/// The nodes of a timeline: its cells, its derived nodes and its function
/// instances.
pub struct TypedInputs<T, C, F> {
    cells: InternalTypedInputs<T, CellId<T>, ReactiveCell<T>>,
    derived: InternalTypedInputs<T, DerivedId<T>, ReactiveDerived<T, C>>,
    functions: InternalTypedInputs<T, FunctionId<T>, ReactiveFunctionInstance<T, F>>,
}

impl<T, C, F> View for TypedInputs<T, C, F> {
    type V = RegistryView<T, C, F>;

    closed spec fn view(&self) -> RegistryView<T, C, F> {
        RegistryView {
            cells: Seq::new(self.cells.nodes().len(), |i: int| self.cells.nodes()[i]@),
            derived: Seq::new(self.derived.nodes().len(), |i: int| self.derived.nodes()[i]@),
            functions: Seq::new(self.functions.nodes().len(), |i: int| self.functions.nodes()[i]@),
        }
    }
}

impl<T, C, F> TypedInputs<T, C, F> {
    /// Each kind of node is indexed soundly.
    pub closed spec fn inv(&self) -> bool {
        &&& self.cells.inv()
        &&& self.derived.inv()
        &&& self.functions.inv()
        &&& self.cells.kind() == IdKind::CellId
        &&& self.derived.kind() == IdKind::DerivedId
        &&& self.functions.kind() == IdKind::FunctionId
    }

    /// A registry without nodes.
    pub(crate) fn for_type() -> (r: TypedInputs<T, C, F>)
        ensures
            r.inv(),
            r@ == RegistryView::<T, C, F>::empty(),
    {
        let r = TypedInputs {
            cells: InternalTypedInputs::new(CellId::new()),
            derived: InternalTypedInputs::new(DerivedId::new()),
            functions: InternalTypedInputs::new(FunctionId::new()),
        };
        assert(r@.cells =~= Seq::empty());
        assert(r@.derived =~= Seq::empty());
        assert(r@.functions =~= Seq::empty());
        r
    }

    /// Adds a cell and gives its handle.
    pub(crate) fn add_cell(
        &mut self,
        value: ReactiveCell<T>,
    ) -> (id: TypedInputIdWithKind<T, CellId<T>>)
        requires
            old(self).inv(),
        ensures
            final(self).inv(),
            final(self)@ == old(self)@.with_cell(value@),
            id@ == (IdView { id: old(self)@.cells.len(), kind: IdKind::CellId }),
    {
        let id = self.cells.insert(value);
        assert(self@.cells =~= old(self)@.cells.push(value@));
        id
    }

    /// Adds a derived node and gives its handle.
    pub(crate) fn add_derived(
        &mut self,
        value: ReactiveDerived<T, C>,
    ) -> (id: TypedInputIdWithKind<T, DerivedId<T>>)
        requires
            old(self).inv(),
        ensures
            final(self).inv(),
            final(self)@ == old(self)@.with_derived(value@),
            id@ == (IdView { id: old(self)@.derived.len(), kind: IdKind::DerivedId }),
    {
        let id = self.derived.insert(value);
        assert(self@.derived =~= old(self)@.derived.push(value@));
        id
    }

    /// Adds a function instance and gives its handle.
    pub(crate) fn add_function(
        &mut self,
        value: ReactiveFunctionInstance<T, F>,
    ) -> (id: TypedInputIdWithKind<T, FunctionId<T>>)
        requires
            old(self).inv(),
        ensures
            final(self).inv(),
            final(self)@ == old(self)@.with_function(value@),
            id@ == (IdView { id: old(self)@.functions.len(), kind: IdKind::FunctionId }),
    {
        let id = self.functions.insert(value);
        assert(self@.functions =~= old(self)@.functions.push(value@));
        id
    }

    /// The latest revision that the dependencies of `tag` have now, each
    /// measured through at most `fuel` computed nodes in a row.
    pub fn latest(&self, tag: &DerivedTag, fuel: u128) -> (r: Revision)
        requires
            self.inv(),
        ensures
            r@ == self@.latest(tag@.deps, fuel as nat),
        decreases fuel, 1nat,
    {
        let mut best = Revision::constant();
        let mut i: usize = 0;
        while i < tag.len()
            invariant
                self.inv(),
                i <= tag@.deps.len(),
                best@ == self@.latest(tag@.deps.take(i as int), fuel as nat),
            decreases tag@.deps.len() - i,
        {
            assert(tag@.deps.take(i + 1).drop_last() =~= tag@.deps.take(i as int));
            let r = self.measure(tag.dep(i), fuel);
            best = best.latest(r);
            i = i + 1;
        }
        assert(tag@.deps.take(i as int) =~= tag@.deps);
        best
    }

    /// The revision that the node behind `tag` has now, measured through at
    /// most `fuel` computed nodes in a row.
    pub fn measure(&self, tag: ReactiveTag, fuel: u128) -> (r: Revision)
        requires
            self.inv(),
        ensures
            r@ == self@.measure(tag@, fuel as nat),
        decreases fuel, 0nat,
    {
        match tag {
            ReactiveTag::Tag(id) => match self.cells.get(TypedInputIdWithKind::new(id, CellId::new())) {
                Some(cell) => cell.revision(),
                None => Revision::constant(),
            },
            ReactiveTag::Derived(id) => match self.derived.get(
                TypedInputIdWithKind::new(id, DerivedId::new()),
            ) {
                Some(node) => if fuel > 0 {
                    self.latest(node.tag(), fuel - 1)
                } else {
                    Revision::constant()
                },
                None => Revision::constant(),
            },
            ReactiveTag::Function(id) => match self.functions.get(
                TypedInputIdWithKind::new(id, FunctionId::new()),
            ) {
                Some(node) => if fuel > 0 {
                    self.latest(node.tag(), fuel - 1)
                } else {
                    Revision::constant()
                },
                None => Revision::constant(),
            },
        }
    }

    /// The tag of the computed node `id`.
    pub fn derived_tag(&self, id: TypedInputId<T>) -> (tag: &DerivedTag)
        requires
            self.inv(),
            self@.has(id@),
            id@.kind != IdKind::CellId,
        ensures
            tag@ == self@.tag(id@),
    {
        match id.kind() {
            IdKind::FunctionId => self.functions.get(id.downcast(FunctionId::new())).unwrap().tag(),
            IdKind::DerivedId => self.derived.get(id.downcast(DerivedId::new())).unwrap().tag(),
            _ => unreached(),
        }
    }

    /// The revision of the node `id`. For a cell it is the revision of its
    /// last update. For a node that is computed it is the latest revision
    /// that the nodes it read have now, and none before its first
    /// evaluation. There must be such a node, and it must not be in the
    /// middle of an evaluation.
    pub fn revision(&self, id: TypedInputId<T>) -> (r: Option<Revision>)
        requires
            self.inv(),
            self@.readable(id@),
        ensures
            r.is_some() <==> self@.revision(id@).is_some(),
            r.is_some() ==> r.unwrap()@ == self@.revision(id@).unwrap(),
    {
        match id.kind() {
            IdKind::CellId => {
                let cell = self.cells.get(id.downcast(CellId::new())).unwrap();
                Some(cell.revision())
            },
            IdKind::ListId => unreached(),
            _ => {
                let tag = self.derived_tag(id);
                if tag.is_initialized() {
                    Some(self.latest(tag, u128::MAX))
                } else {
                    None
                }
            },
        }
    }

    /// The tag of the node `id`, as a dependency records it.
    pub fn tag(&self, id: TypedInputId<T>) -> (tag: ReactiveTag)
        requires
            self.inv(),
            self@.has(id@),
        ensures
            tag@ == id@,
    {
        let (number, kind) = id.as_unchecked();
        match kind {
            IdKind::CellId => self.cells.get(id.downcast(CellId::new())).unwrap().get_tag(number),
            IdKind::DerivedId => self.derived.get(id.downcast(DerivedId::new())).unwrap().get_tag(
                number,
            ),
            IdKind::FunctionId => self.functions.get(
                id.downcast(FunctionId::new()),
            ).unwrap().get_tag(number),
            IdKind::ListId => unreached(),
        }
    }

    /// Whether there is a node for `id`.
    pub fn has(&self, id: TypedInputId<T>) -> (b: bool)
        requires
            self.inv(),
        ensures
            b == self@.has(id@),
    {
        match id.kind() {
            IdKind::CellId => self.cells.get(id.downcast(CellId::new())).is_some(),
            IdKind::DerivedId => self.derived.get(id.downcast(DerivedId::new())).is_some(),
            IdKind::FunctionId => self.functions.get(id.downcast(FunctionId::new())).is_some(),
            IdKind::ListId => false,
        }
    }

    /// Whether there is a node for `id` that is not being evaluated.
    pub fn is_readable(&self, id: TypedInputId<T>) -> (b: bool)
        requires
            self.inv(),
        ensures
            b == self@.readable(id@),
    {
        match id.kind() {
            IdKind::CellId => self.cells.get(id.downcast(CellId::new())).is_some(),
            IdKind::DerivedId => match self.derived.get(id.downcast(DerivedId::new())) {
                Some(node) => !node.is_modifying(),
                None => false,
            },
            IdKind::FunctionId => match self.functions.get(id.downcast(FunctionId::new())) {
                Some(node) => !node.is_modifying(),
                None => false,
            },
            IdKind::ListId => false,
        }
    }

    /// Replaces the value of the cell `id` and stamps the cell with
    /// `revision`.
    pub(crate) fn update_cell(
        &mut self,
        id: TypedInputIdWithKind<T, CellId<T>>,
        value: T,
        revision: Revision,
    )
        requires
            old(self).inv(),
            id@.id < old(self)@.cells.len(),
        ensures
            final(self).inv(),
            final(self)@ == old(self)@.update_cell(
                id@.id,
                CellView { value, revision: revision@ },
            ),
    {
        let cell = self.cells.get_mut(id).unwrap();
        cell.update(value, revision);
        assert(self@.cells =~= old(self)@.cells.update(
            id@.id as int,
            CellView { value, revision: revision@ },
        ));
    }

    /// Begins the evaluation of the derived node `id`: the node's tag is
    /// reset, and its body and a copy of the tag are handed out.
    pub(crate) fn begin_derived(
        &mut self,
        id: TypedInputIdWithKind<T, DerivedId<T>>,
    ) -> (r: (C, DerivedTag))
        requires
            old(self).inv(),
            old(self)@.wf(),
            id@.id < old(self)@.derived.len(),
            !old(self)@.derived[id@.id as int].tag.modifying,
        ensures
            final(self).inv(),
            final(self)@ == old(self)@.begin_derived(id@.id),
            Some(r.0) == old(self)@.derived[id@.id as int].computation,
            r.1@ == old(self)@.derived[id@.id as int].tag.reset(),
    {
        let node = self.derived.get_mut(id).unwrap();
        let r = node.reset_tag();
        assert(self@.derived =~= old(self)@.begin_derived(id@.id).derived);
        r
    }

    /// Ends the evaluation of the derived node `id`: the node takes the tag
    /// of the evaluation, and its body back.
    pub(crate) fn finish_derived(
        &mut self,
        id: TypedInputIdWithKind<T, DerivedId<T>>,
        computation: C,
        tag: DerivedTag,
    )
        requires
            old(self).inv(),
            id@.id < old(self)@.derived.len(),
        ensures
            final(self).inv(),
            final(self)@ == old(self)@.finish_derived(id@.id, computation, tag@),
    {
        let node = self.derived.get_mut(id).unwrap();
        node.replace_tag(computation, tag);
        assert(self@.derived =~= old(self)@.finish_derived(id@.id, computation, tag@).derived);
    }

    /// Begins the evaluation of the function instance `id`: the instance's
    /// tag is reset, and its code, the handle on its argument and a copy of
    /// the tag are handed out.
    pub(crate) fn begin_function(
        &mut self,
        id: TypedInputIdWithKind<T, FunctionId<T>>,
    ) -> (r: (DynamicFunction<T, F>, DynId, DerivedTag))
        requires
            old(self).inv(),
            old(self)@.wf(),
            id@.id < old(self)@.functions.len(),
            !old(self)@.functions[id@.id as int].tag.modifying,
        ensures
            final(self).inv(),
            final(self)@ == old(self)@.begin_function(id@.id),
            Some(r.0) == old(self)@.functions[id@.id as int].code,
            r.1 == old(self)@.functions[id@.id as int].args,
            r.2@ == old(self)@.functions[id@.id as int].tag.reset(),
    {
        let node = self.functions.get_mut(id).unwrap();
        let r = node.reset_tag();
        assert(self@.functions =~= old(self)@.begin_function(id@.id).functions);
        r
    }

    /// Ends the evaluation of the function instance `id`: the instance
    /// takes the tag of the evaluation, and its code back.
    pub(crate) fn finish_function(
        &mut self,
        id: TypedInputIdWithKind<T, FunctionId<T>>,
        code: DynamicFunction<T, F>,
        tag: DerivedTag,
    )
        requires
            old(self).inv(),
            id@.id < old(self)@.functions.len(),
        ensures
            final(self).inv(),
            final(self)@ == old(self)@.finish_function(id@.id, code, tag@),
    {
        let node = self.functions.get_mut(id).unwrap();
        node.replace_tag(code, tag);
        assert(self@.functions =~= old(self)@.finish_function(id@.id, code, tag@).functions);
    }
}

impl<T: Clone, C, F> TypedInputs<T, C, F> {
    /// A clone of the value of the cell `id`.
    pub fn read_cell(&self, id: TypedInputIdWithKind<T, CellId<T>>) -> (value: T)
        requires
            self.inv(),
            id@.id < self@.cells.len(),
        ensures
            cloned(self@.cells[id@.id as int].value, value),
    {
        self.cells.get(id).unwrap().read()
    }
}

/// The registry of a timeline, once the type of its values has been
/// registered.
pub struct Inputs<T, C, F> {
    map: Option<TypedInputs<T, C, F>>,
}

impl<T, C, F> View for Inputs<T, C, F> {
    type V = Option<RegistryView<T, C, F>>;

    closed spec fn view(&self) -> Option<RegistryView<T, C, F>> {
        match self.map {
            Some(map) => Some(map@),
            None => None,
        }
    }
}

impl<T, C, F> Inputs<T, C, F> {
    /// The registry, if there is one, is indexed soundly.
    pub closed spec fn inv(&self) -> bool {
        self.map is Some ==> self.map.unwrap().inv()
    }
}

impl<T, C, F> Inputs<T, C, F> {
    /// A registry in which no type has been registered.
    pub(crate) fn new() -> (inputs: Self)
        ensures
            inputs.inv(),
            inputs@ is None,
    {
        Inputs { map: None }
    }

    /// Registers the type of the values: from now on there is a registry,
    /// without nodes at first. The type must not have been registered yet.
    pub(crate) fn register_map(&mut self)
        requires
            old(self)@ is None,
        ensures
            final(self).inv(),
            final(self)@ == Some(RegistryView::<T, C, F>::empty()),
    {
        self.map = Some(TypedInputs::for_type());
    }

    /// The registry, to be read. The type must have been registered.
    pub fn read_map_for(&self) -> (map: &TypedInputs<T, C, F>)
        requires
            self@ is Some,
        ensures
            Some(map@) == self@,
            self.inv() ==> map.inv(),
    {
        self.map.as_ref().unwrap()
    }

    /// The registry, to be read. The type must have been registered.
    pub fn map_for(&self) -> (map: &TypedInputs<T, C, F>)
        requires
            self@ is Some,
        ensures
            Some(map@) == self@,
            self.inv() ==> map.inv(),
    {
        self.read_map_for()
    }

    /// The registry, to be changed. The type is registered first where it
    /// has not been.
    pub(crate) fn map_for_mut(&mut self) -> (map: &mut TypedInputs<T, C, F>)
        requires
            old(self).inv(),
        ensures
            map.inv(),
            map@ == old(self).registry(),
            final(self)@ == Some(final(map)@),
            final(self).inv() == final(map).inv(),
    {
        if self.map.is_none() {
            self.register_map();
        }
        match &mut self.map {
            Some(map) => map,
            None => unreached(),
        }
    }

    /// The registry as it is, or as it would be once registered.
    pub open spec fn registry(&self) -> RegistryView<T, C, F> {
        if self@ is Some {
            self@.unwrap()
        } else {
            RegistryView::empty()
        }
    }

    /// Whether the type of the values has been registered.
    pub fn is_registered(&self) -> (b: bool)
        ensures
            b == (self@ is Some),
    {
        self.map.is_some()
    }

    /// The tag of the node `id`, as a dependency records it.
    pub fn tag(&self, id: TypedInputId<T>) -> (tag: ReactiveTag)
        requires
            self.inv(),
            self@ is Some,
            self@.unwrap().has(id@),
        ensures
            tag@ == id@,
    {
        self.map_for().tag(id)
    }

    /// The tag of the computed node `id`.
    pub fn derived_tag(&self, id: TypedInputId<T>) -> (tag: &DerivedTag)
        requires
            self.inv(),
            self@ is Some,
            self@.unwrap().has(id@),
            id@.kind != IdKind::CellId,
        ensures
            tag@ == self@.unwrap().tag(id@),
    {
        self.map_for().derived_tag(id)
    }

    /// Whether there is a node for `id`.
    pub fn has(&self, id: TypedInputId<T>) -> (b: bool)
        requires
            self.inv(),
        ensures
            b == (self@ is Some && self@.unwrap().has(id@)),
    {
        match &self.map {
            Some(map) => map.has(id),
            None => false,
        }
    }

    /// Whether there is a node for `id` that is not being evaluated.
    pub fn is_readable(&self, id: TypedInputId<T>) -> (b: bool)
        requires
            self.inv(),
        ensures
            b == (self@ is Some && self@.unwrap().readable(id@)),
    {
        match &self.map {
            Some(map) => map.is_readable(id),
            None => false,
        }
    }

    /// The revision of the node `id`. For a cell it is the revision of its
    /// last update. For a node that is computed it is the latest revision
    /// that the nodes it read have now, and none before its first
    /// evaluation. There must be such a node, and it must not be in the
    /// middle of an evaluation.
    pub fn revision(&self, id: TypedInputId<T>) -> (r: Option<Revision>)
        requires
            self.inv(),
            self@ is Some,
            self@.unwrap().readable(id@),
        ensures
            r.is_some() <==> self@.unwrap().revision(id@).is_some(),
            r.is_some() ==> r.unwrap()@ == self@.unwrap().revision(id@).unwrap(),
    {
        self.map_for().revision(id)
    }

    /// Adds a cell and gives its handle.
    pub(crate) fn add_cell(
        &mut self,
        cell: ReactiveCell<T>,
    ) -> (id: TypedInputIdWithKind<T, CellId<T>>)
        requires
            old(self).inv(),
        ensures
            final(self).inv(),
            final(self)@ == Some(old(self).registry().with_cell(cell@)),
            id@ == (IdView { id: old(self).registry().cells.len(), kind: IdKind::CellId }),
    {
        self.map_for_mut().add_cell(cell)
    }

    /// Adds a derived node and gives its handle.
    pub(crate) fn add_derived(
        &mut self,
        derived: ReactiveDerived<T, C>,
    ) -> (id: TypedInputIdWithKind<T, DerivedId<T>>)
        requires
            old(self).inv(),
        ensures
            final(self).inv(),
            final(self)@ == Some(old(self).registry().with_derived(derived@)),
            id@ == (IdView { id: old(self).registry().derived.len(), kind: IdKind::DerivedId }),
    {
        self.map_for_mut().add_derived(derived)
    }

    /// Adds a function instance and gives its handle.
    pub(crate) fn add_function(
        &mut self,
        function: ReactiveFunctionInstance<T, F>,
    ) -> (id: TypedInputIdWithKind<T, FunctionId<T>>)
        requires
            old(self).inv(),
        ensures
            final(self).inv(),
            final(self)@ == Some(old(self).registry().with_function(function@)),
            id@ == (IdView { id: old(self).registry().functions.len(), kind: IdKind::FunctionId }),
    {
        self.map_for_mut().add_function(function)
    }

    /// Replaces the value of the cell `id` and stamps the cell with
    /// `revision`.
    pub(crate) fn update_cell(
        &mut self,
        id: TypedInputIdWithKind<T, CellId<T>>,
        value: T,
        revision: Revision,
    )
        requires
            old(self).inv(),
            old(self)@ is Some,
            id@.id < old(self)@.unwrap().cells.len(),
        ensures
            final(self).inv(),
            final(self)@ == Some(
                old(self)@.unwrap().update_cell(id@.id, CellView { value, revision: revision@ }),
            ),
    {
        self.map_for_mut().update_cell(id, value, revision);
    }

    /// Begins the evaluation of the derived node `id`.
    pub(crate) fn begin_derived(
        &mut self,
        id: TypedInputIdWithKind<T, DerivedId<T>>,
    ) -> (r: (C, DerivedTag))
        requires
            old(self).inv(),
            old(self)@ is Some,
            old(self)@.unwrap().wf(),
            id@.id < old(self)@.unwrap().derived.len(),
            !old(self)@.unwrap().derived[id@.id as int].tag.modifying,
        ensures
            final(self).inv(),
            final(self)@ == Some(old(self)@.unwrap().begin_derived(id@.id)),
            Some(r.0) == old(self)@.unwrap().derived[id@.id as int].computation,
            r.1@ == old(self)@.unwrap().derived[id@.id as int].tag.reset(),
    {
        self.map_for_mut().begin_derived(id)
    }

    /// Ends the evaluation of the derived node `id`.
    pub(crate) fn finish_derived(
        &mut self,
        id: TypedInputIdWithKind<T, DerivedId<T>>,
        computation: C,
        tag: DerivedTag,
    )
        requires
            old(self).inv(),
            old(self)@ is Some,
            id@.id < old(self)@.unwrap().derived.len(),
        ensures
            final(self).inv(),
            final(self)@ == Some(old(self)@.unwrap().finish_derived(id@.id, computation, tag@)),
    {
        self.map_for_mut().finish_derived(id, computation, tag);
    }

    /// Begins the evaluation of the function instance `id`.
    pub(crate) fn begin_function(
        &mut self,
        id: TypedInputIdWithKind<T, FunctionId<T>>,
    ) -> (r: (DynamicFunction<T, F>, DynId, DerivedTag))
        requires
            old(self).inv(),
            old(self)@ is Some,
            old(self)@.unwrap().wf(),
            id@.id < old(self)@.unwrap().functions.len(),
            !old(self)@.unwrap().functions[id@.id as int].tag.modifying,
        ensures
            final(self).inv(),
            final(self)@ == Some(old(self)@.unwrap().begin_function(id@.id)),
            Some(r.0) == old(self)@.unwrap().functions[id@.id as int].code,
            r.1 == old(self)@.unwrap().functions[id@.id as int].args,
            r.2@ == old(self)@.unwrap().functions[id@.id as int].tag.reset(),
    {
        self.map_for_mut().begin_function(id)
    }

    /// Ends the evaluation of the function instance `id`.
    pub(crate) fn finish_function(
        &mut self,
        id: TypedInputIdWithKind<T, FunctionId<T>>,
        code: DynamicFunction<T, F>,
        tag: DerivedTag,
    )
        requires
            old(self).inv(),
            old(self)@ is Some,
            id@.id < old(self)@.unwrap().functions.len(),
        ensures
            final(self).inv(),
            final(self)@ == Some(old(self)@.unwrap().finish_function(id@.id, code, tag@)),
    {
        self.map_for_mut().finish_function(id, code, tag);
    }
}

impl<T: Clone, C, F> Inputs<T, C, F> {
    /// A clone of the value of the cell `id`.
    pub fn read_cell(&self, id: TypedInputIdWithKind<T, CellId<T>>) -> (value: T)
        requires
            self.inv(),
            self@ is Some,
            id@.id < self@.unwrap().cells.len(),
        ensures
            cloned(self@.unwrap().cells[id@.id as int].value, value),
    {
        self.map_for().read_cell(id)
    }
}

} // verus!
