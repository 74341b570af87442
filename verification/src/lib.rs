//! Mutation and traversal core of a retained-mode scene graph.
//!
//! The crate keeps a shared store of hierarchical nodes (cameras, groups,
//! lights, renderable meshes, bones, UI text) in a generational arena.
//! User-facing handles enqueue mutation requests; the hub applies them in
//! receipt order once per frame and then reclaims unreferenced nodes.  An
//! iterative tree walker computes cumulative world transform and world
//! visibility in a single depth-first pass.

pub mod arena;
pub mod hub;
pub mod laws;
pub mod mesh;
pub mod node;
pub mod texture;
pub mod transform;
pub mod walker;
