//! A per-frame batching renderer: an ordered list of tessellated shapes,
//! each with its own clip rectangle, is concatenated into one shared
//! vertex array and one shared index array, and turned into a sequence of
//! scissor-clipped indexed draw calls against GPU-backed dynamic buffers.

pub mod geometry;
pub mod bytes;
pub mod batch;
pub mod gpu;
pub mod renderer;
