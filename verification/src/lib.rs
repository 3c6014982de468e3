//! Path-component normalization: decompose a path into components and fold
//! them into a normalized path by resolving `.` and `..` segments.

pub mod component;
pub mod normalize;
pub mod parse;
pub mod render;
pub mod resolve;
