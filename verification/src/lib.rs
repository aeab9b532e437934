//! A reactive computation engine: input cells, derived nodes and function
//! instances on a timeline with a monotonic revision clock, read through an
//! evaluation context that records dependencies as they are read.
//!
//! A timeline holds values of one type and bodies of one type; a program
//! with values of several kinds gives the timeline an enum of them. What a
//! body gives is the body's own to say, as a relation between the context
//! in which it runs, the context that it leaves and its value; a read of a
//! computed node gives what the node's body gives.
//!
//! Every type has a view, a value of mathematics, and the contracts speak
//! of views: `timeline::timeline::TimelineView` for a timeline,
//! `timeline::inputs::RegistryView` for its nodes,
//! `timeline::evaluation_context::ContextView` for a render in progress and
//! `inputs::reactive::DerivedView` for the tag of a computed node. A tag
//! holds the handles of the nodes that the last evaluation read, and the
//! revision of a computed node is measured through the registry, from the
//! revisions that those nodes have now. What holds of such measures is
//! proved in `timeline::measure`, and what holds of a timeline over any run
//! of steps in `timeline::history`.

pub mod inputs;
pub mod outputs;
pub mod timeline;

pub use inputs::{GetReactiveKey, Key, Reactive};
pub use timeline::{Revision, TypedInputId};
