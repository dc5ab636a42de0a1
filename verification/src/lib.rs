//! Generates HTML documentation from specially formatted comment blocks
//! that precede single-line function declarations in source text.

pub mod scan;
pub mod extract;
pub mod signature;
pub mod markup;
pub mod render;
pub mod index;
pub mod pipeline;
