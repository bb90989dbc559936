//! An instanced 3D scene driven by Conway's Game of Life.
//!
//! The library holds the parts of the scene that carry real invariants:
//! the grid of cells and its synchronous generation step, the projection
//! of live cells into per-instance transform matrices, the camera state
//! with its input-driven mutations, and the fixed-timestep accumulator
//! that decouples the simulation cadence from the frame rate.
//! Floating-point view/projection math and the GPU plumbing around the
//! library live in the accompanying binary.

pub mod camera;
pub mod game;
pub mod model;
pub mod timing;
