//! Binding layer that exposes DOM element nodes as script-engine objects:
//! interface registry, ownership of per-object bundles, and native accessors.

pub mod element;
pub mod node;
pub mod realm;
pub mod registry;
pub mod scope;
pub mod text;
