//! Extraction of wire-shape schemas from data types and endpoints, and their
//! rendering as type declarations and a typed client.
pub mod builder;
pub mod endpoints;
pub mod impls;
pub mod kind;
pub mod outside;
pub mod targets;
pub mod text;
pub mod types;

pub use impls::TypedWrap;
pub use types::{DynTapi, Tapi, TapiDyn, Types};
