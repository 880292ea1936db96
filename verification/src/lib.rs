pub mod primitives;
pub mod resolved;
pub mod resolved_items;
pub mod text;
pub mod types;
pub mod generators;
pub mod casing;
pub mod compat;
pub mod functions;
pub mod generics;
pub mod serializable;
pub mod support;
