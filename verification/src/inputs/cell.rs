//! Cells: the leaves of the graph, changed from outside.

use vstd::prelude::*;
use crate::inputs::reactive::{Reactive, ReactiveTag};
use crate::timeline::id::{IdKind, InputId};
use crate::timeline::revision::Revision;

verus! {

/// The tag of a cell: the revision at which the cell last changed.
#[derive(Debug)]
pub struct Tag {
    revision: Revision,
}

impl View for Tag {
    type V = nat;

    closed spec fn view(&self) -> nat {
        self.revision@
    }
}

impl Clone for Tag {
    fn clone(&self) -> (r: Self)
        ensures
            r == *self,
    {
        Tag { revision: self.revision }
    }
}

impl Tag {
    /// A tag stamped with `revision`.
    pub fn new(revision: Revision) -> (tag: Tag)
        ensures
            tag@ == revision@,
    {
        Tag { revision }
    }

    /// The revision that the tag carries.
    pub fn revision(&self) -> (r: Revision)
        ensures
            r@ == self@,
    {
        self.revision
    }

    /// Stamps the tag with `revision`.
    pub fn update(&mut self, revision: Revision)
        ensures
            final(self)@ == revision@,
    {
        self.revision = revision;
    }
}

/// What a cell is, as a value of mathematics.
pub struct CellView<T> {
    /// The value that the cell holds.
    pub value: T,
    /// The revision at which the cell was made or last updated.
    pub revision: nat,
}

/// An input cell: a value and the tag that says when it last changed.
#[derive(Debug)]
pub struct ReactiveCell<T> {
    value: T,
    tag: Tag,
}

impl<T> View for ReactiveCell<T> {
    type V = CellView<T>;

    closed spec fn view(&self) -> CellView<T> {
        CellView { value: self.value, revision: self.tag@ }
    }
}

impl<T> ReactiveCell<T> {
    /// A cell that holds `value` and carries `tag`.
    pub fn new(value: T, tag: Tag) -> (cell: Self)
        ensures
            cell@ == (CellView { value, revision: tag@ }),
    {
        ReactiveCell { value, tag }
    }

    /// Replaces the value and stamps the cell with `revision`.
    pub fn update(&mut self, value: T, revision: Revision)
        ensures
            final(self)@ == (CellView { value, revision: revision@ }),
    {
        self.value = value;
        self.tag.update(revision);
    }

    /// The revision at which the cell was made or last updated.
    pub fn revision(&self) -> (r: Revision)
        ensures
            r@ == self@.revision,
    {
        self.tag.revision()
    }
}

impl<T: Clone> ReactiveCell<T> {
    /// A clone of the value.
    pub fn read(&self) -> (value: T)
        ensures
            cloned(self@.value, value),
    {
        self.value.clone()
    }
}

impl<T> Reactive for ReactiveCell<T> {
    open spec fn kind(&self) -> IdKind {
        IdKind::CellId
    }

    fn get_tag(&self, id: InputId) -> (tag: ReactiveTag) {
        ReactiveTag::Tag(id)
    }
}

} // verus!
