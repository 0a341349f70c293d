//! A schema-driven code generation engine: from the description of a record
//! type it synthesises a builder companion and a custom `Debug` rendering.
pub mod annotation;
pub mod builder;
pub mod companion;
pub mod debug;
pub mod schema;
pub mod text;
pub mod wrapper;
