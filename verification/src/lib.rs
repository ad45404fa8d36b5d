//! Distributed HTTP route declaration and composition.
//!
//! Endpoints are declared independently (method, path template, typed
//! parameters, query/body shape, handler), collected into named groups in a
//! registry, and composed into one routing table.

pub mod composer;
pub mod extractor;
pub mod method;
pub mod param_type;
pub mod path_template;
pub mod registry;
pub mod route;
pub mod text;
