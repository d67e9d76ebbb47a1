//! Static translation of handler signatures and data definitions into
//! OpenAPI schemas and parameters, and planning of the bridge from data
//! models to schema types across foreign-key relations, with two-hop cycles
//! broken.
//!
//! Everything here works on plain-value models of the syntax: type
//! expressions (`types`), struct and enum definitions (`items`), handler
//! parameters (`params`) and data models (`relation`).

pub mod enum_schema;
pub mod files;
pub mod from_model;
pub mod http;
pub mod items;
pub mod metadata;
pub mod params;
pub mod relation;
pub mod rename;
pub mod route;
pub mod schema;
pub mod struct_schema;
pub mod text;
pub mod types;
