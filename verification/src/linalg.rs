//! The geometry kernel: homogeneous 4-tuples and square matrices.

pub mod grid;
pub mod matrix;
pub mod tuple;
