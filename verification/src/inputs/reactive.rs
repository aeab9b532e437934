//! Tags: what a dependency records of the node that was read, and the
//! dependencies that a computed node gathered when it was last evaluated.

use vstd::prelude::*;
use crate::timeline::id::{IdKind, IdView, InputId, TypedInputId};

verus! {

/// The tag of a node, as a dependency records it: which node was read. The
/// revision of the dependency is not kept with it: it is measured in the
/// registry when it is asked for, so that a cell that has been updated since
/// counts with the revision of its update.
#[derive(Debug, Copy, Clone, Eq, PartialEq, Structural)]
pub enum ReactiveTag {
    /// The cell with this number.
    Tag(InputId),
    /// The derived node with this number.
    Derived(InputId),
    /// The function instance with this number.
    Function(InputId),
}

impl View for ReactiveTag {
    type V = IdView;

    open spec fn view(&self) -> IdView {
        match self {
            ReactiveTag::Tag(id) => IdView { id: id@, kind: IdKind::CellId },
            ReactiveTag::Derived(id) => IdView { id: id@, kind: IdKind::DerivedId },
            ReactiveTag::Function(id) => IdView { id: id@, kind: IdKind::FunctionId },
        }
    }
}

impl ReactiveTag {
    /// The handle on the node that was read.
    pub fn typed<T>(self) -> (id: TypedInputId<T>)
        ensures
            id@ == self@,
    {
        match self {
            ReactiveTag::Tag(id) => TypedInputId::new(id, IdKind::CellId),
            ReactiveTag::Derived(id) => TypedInputId::new(id, IdKind::DerivedId),
            ReactiveTag::Function(id) => TypedInputId::new(id, IdKind::FunctionId),
        }
    }
}

/// A node that carries a tag.
pub trait Reactive {
    /// The kind of the node.
    spec fn kind(&self) -> IdKind;

    /// The tag of the node, as a dependency records it, where `id` is the
    /// number of the node.
    fn get_tag(&self, id: InputId) -> (tag: ReactiveTag)
        ensures
            tag@ == (IdView { id: id@, kind: self.kind() }),
    ;
}

/// What the tag of a derived node is, as a value of mathematics.
pub struct DerivedView {
    /// The nodes read during the last evaluation, in the order of the reads.
    pub deps: Seq<IdView>,
    /// Whether an evaluation has been completed.
    pub initialized: bool,
    /// Whether an evaluation is under way.
    pub modifying: bool,
}

impl DerivedView {
    /// The tag of a node that has never been evaluated.
    pub open spec fn fresh() -> DerivedView {
        DerivedView { deps: Seq::empty(), initialized: false, modifying: false }
    }

    /// The tag once an evaluation has begun: no dependencies yet.
    pub open spec fn reset(self) -> DerivedView {
        DerivedView { deps: Seq::empty(), initialized: self.initialized, modifying: true }
    }

    /// The tag once the evaluation has ended.
    pub open spec fn done(self) -> DerivedView {
        DerivedView { deps: self.deps, initialized: true, modifying: false }
    }

    /// The tag with one more dependency.
    pub open spec fn add_dep(self, tag: IdView) -> DerivedView {
        DerivedView {
            deps: self.deps.push(tag),
            initialized: self.initialized,
            modifying: self.modifying,
        }
    }
}

} // verus!
