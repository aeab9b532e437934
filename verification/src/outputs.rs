//! Outputs: sinks outside the graph that are brought up to date on demand.

pub mod primitive;

pub use primitive::PrimitiveOutput;
