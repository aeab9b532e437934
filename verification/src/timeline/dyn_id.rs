//! Handles without the type of their value: the type travels beside the
//! handle as an identity that is checked when the type is asked back.

use vstd::prelude::*;
use std::any::TypeId;
use crate::timeline::id::{IdKind, IdView, InputId, TypedInputId};

verus! {

/// `std::any::TypeId`: the identity of a type, as a value that is carried
/// and compared and never looked into.
#[verifier::external_type_specification]
#[verifier::external_body]
pub struct ExTypeId(TypeId);

/// `TypeId::of::<T>()`: the identity of the type `T`. Nothing is claimed of
/// the value.
#[verifier::external_body]
pub(crate) fn type_key<T: 'static>() -> (key: TypeId) {
    TypeId::of::<T>()
}

/// `==` on `TypeId`: two identities compare equal exactly when they are the
/// same identity.
#[verifier::external_body]
fn same_type(a: &TypeId, b: &TypeId) -> (same: bool)
    ensures
        same == (*a == *b),
{
    *a == *b
}

/// A handle on a node of any value type, with the identity of that type.
#[derive(Debug)]
pub struct DynId {
    id: InputId,
    kind: IdKind,
    type_id: TypeId,
}

impl View for DynId {
    type V = IdView;

    closed spec fn view(&self) -> IdView {
        IdView { id: self.id@, kind: self.kind }
    }
}

impl Clone for DynId {
    fn clone(&self) -> (r: Self)
        ensures
            r == *self,
    {
        *self
    }
}

impl Copy for DynId {}

impl DynId {
    /// The identity of the value type that the handle was made for.
    pub closed spec fn type_key(&self) -> TypeId {
        self.type_id
    }

    /// A handle on node `id` of kind `kind`, whose values are of the type
    /// with the identity `key`.
    pub fn with_key(id: InputId, kind: IdKind, key: TypeId) -> (r: DynId)
        ensures
            r@ == (IdView { id: id@, kind }),
            r.type_key() == key,
    {
        DynId { id, kind, type_id: key }
    }

    /// A handle on node `id` of kind `kind`, whose values are of type `T`.
    pub fn new<T: 'static>(id: InputId, kind: IdKind) -> (r: DynId)
        ensures
            r@ == (IdView { id: id@, kind }),
    {
        DynId::with_key(id, kind, type_key::<T>())
    }

    /// The handle as one on values of the type whose identity is `key`: the
    /// same node, if `key` is the identity that the handle was made for, and
    /// nothing otherwise.
    pub fn downcast_as<T>(self, key: TypeId) -> (r: Option<TypedInputId<T>>)
        ensures
            r.is_some() <==> key == self.type_key(),
            r.is_some() ==> r.unwrap()@ == self@,
    {
        if same_type(&key, &self.type_id) {
            Some(TypedInputId::new(self.id, self.kind))
        } else {
            None
        }
    }

    /// The handle as one on values of type `T`, if it was made for `T`, and
    /// nothing otherwise.
    pub fn downcast<T: 'static>(self) -> (r: Option<TypedInputId<T>>)
        ensures
            r.is_some() ==> r.unwrap()@ == self@,
    {
        self.downcast_as(type_key::<T>())
    }
}

} // verus!
