//! Heterogeneous configuration sources — an infrastructure-as-code file
//! set, an API-specification document, a filesystem tree — exposed as
//! uniform, typed, traversable graphs.
//!
//! The core is the infrastructure-as-code side: an extraction pipeline
//! that turns parsed configuration files into one immutable snapshot,
//! route inference over cloud integration strings, a template-variable
//! linker, and the four-operation resolution contract an external query
//! engine drives. Every operation carries a contract over the
//! mathematical model of its data.

pub mod adapter;
pub mod chars;
pub mod edges;
pub mod extract;
pub mod fsmodel;
pub mod laws;
pub mod model;
pub mod openapi;
pub mod parse;
pub mod properties;
pub mod routes;
pub mod template;
pub mod value;
pub mod vertex;
