//! Identity resolution, relationship inference and readiness classification
//! for a set of task documents that carry structured metadata.

pub mod status;
pub mod order;
pub mod ident;
pub mod extract;
pub mod graph;
pub mod record;
pub mod filter;
pub mod guard;
pub mod resolve;
pub mod links;
pub mod classify;
pub mod projects;
pub mod edges;
pub mod pipeline;
pub mod render;
