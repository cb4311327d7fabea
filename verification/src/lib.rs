//! Verified planning core of a GPU-backed renderer for an immediate-mode GUI.
//!
//! Each frame the renderer receives an ordered list of clipped triangle
//! meshes together with a batch of incremental texture updates. This crate
//! holds the decision logic of that renderer: buffer growth, texture-cache
//! reconciliation, clip-to-scissor mapping, geometry staging and draw
//! submission order. The outcome of a frame is a [`frame::FramePlan`], a
//! plain-data description of the GPU work; an unverified shell executes the
//! plan against the graphics backend and feeds surface events back in.

pub mod buffer;
pub mod frame;
pub mod geom;
pub mod mesh;
pub mod surface;
pub mod texture;
