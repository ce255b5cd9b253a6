//! A verified core for a small WebGL scene renderer: fixed-point transform
//! math, tangent-space generation, shader introspection bookkeeping, and the
//! camera-rotation state machine. The GPU and browser plumbing lives outside
//! this crate and only hands plain values in and out.
pub mod cube;
pub mod fixed;
pub mod mat4;
pub mod quat;
pub mod tangent;
pub mod mesh;
pub mod model;
pub mod object;
pub mod program;
pub mod renderer;
pub mod transition;
