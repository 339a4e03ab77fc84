//! The EBML layer: variable-length integers, element headers, element
//! content and the splitting of a master element into its children.

pub mod vint;
pub mod element;
pub mod reader;
