//! The geometric primitives, dispatched through one closed sum type.

pub mod cube;
pub mod cylinder;
pub mod plane;
pub mod shape;
pub mod sphere;
pub mod triangle;
