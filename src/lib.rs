//! A cloth engine using Verlet integration: mesh topology extraction into
//! points and sticks, point integration, anchoring, stick relaxation, the
//! collision port and the render data written back to the mesh.
//!
//! Positions, lengths and anchors are type parameters: the floating point
//! arithmetic is handed in as closures, and the library states what it does
//! with their results.

pub mod builder;
pub mod cloth;
pub mod error;
pub mod grid;
pub mod mesh;
pub mod prelude;
pub mod rendering;
pub mod stick;
