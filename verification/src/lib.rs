//! Type-directed operator resolution for a shader expression language, and
//! the computation graph that tracked expressions are recorded into.

pub mod types;
pub mod dispatch;
pub mod literal;
pub mod node;
pub mod store;
pub mod order;
pub mod graph;
pub mod engine;
