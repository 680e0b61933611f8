//! A verified core for painting an immediate-mode UI's output onto a
//! raster canvas: a texture cache applying incremental upload, patch
//! and free deltas, and a primitive renderer that turns clipped meshes
//! and paint callbacks into scoped draw commands for a 2D backend.

pub mod color;
pub mod fixed;
pub mod mesh;
pub mod painter;
pub mod renderer;
pub mod textures;
