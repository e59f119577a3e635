//! Assembly of Wavefront OBJ geometry into indexed meshes.
//!
//! Vertex attributes are carried as the raw IEEE-754 bit patterns of their
//! `f32` components, so that de-duplication compares points bit for bit.

pub mod face;
pub mod laws;
pub mod loader;
mod maps;
pub mod merge;
pub mod mesh;
pub mod multi;
pub mod reorder;
pub mod single;
pub mod options;

pub use options::{LoadError, LoadOptions};
