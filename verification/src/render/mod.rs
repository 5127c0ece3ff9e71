//! Frame bookkeeping of the renderer.
pub mod renderer;
