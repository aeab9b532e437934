//! The timeline: its clock, its identifiers, its registry and its transactions.

pub mod compute_stack;
pub mod dyn_id;
pub mod evaluation_context;
pub mod history;
pub mod id;
pub mod inputs;
pub mod measure;
pub mod revision;
pub mod slots;
pub mod timeline;

pub use dyn_id::DynId;
pub use evaluation_context::EvaluationContext;
pub use id::{CellId, DerivedId, FunctionId, IdKindFor, TypedInputId, TypedInputIdWithKind};
pub use inputs::Inputs;
pub use revision::Revision;
pub use timeline::{RenderTransaction, SetupTransaction, Timeline, UpdateTransaction};
