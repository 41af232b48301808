//! Render a structured data tree as an annotated, indented text listing,
//! overlaying optional free-text descriptions from a parallel description tree.

pub mod value;
pub mod number;
pub mod yaml;
pub mod render;
pub mod laws;
