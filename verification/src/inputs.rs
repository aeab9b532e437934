//! Reactive nodes and the tags that stamp them.

pub mod cell;
pub mod derived;
pub mod function;
pub mod inputs;
pub mod iterable;
pub mod reactive;

pub use cell::{ReactiveCell, Tag};
pub use derived::{DerivedTag, DynamicComputation, ReactiveDerived};
pub use function::{DynamicCode, DynamicFunction, ReactiveFunction};
pub use iterable::{GetReactiveKey, Key};
pub use reactive::{Reactive, ReactiveTag};
