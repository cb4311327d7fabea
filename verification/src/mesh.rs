//! Frame input data: textured triangle meshes, clipped primitives and the
//! keys that tie a primitive to a cached texture.
//!
//! Vertex positions, texture coordinates and the scale factor reach the GPU
//! as 32-bit IEEE bit patterns. The planning core never does arithmetic on
//! them, it only stages them into byte buffers, so they are carried here as
//! raw `u32` bit patterns and stay exact.

use vstd::prelude::*;

verus! {

/// Key of a cached texture, as handed out by the GUI layer: either an id the
/// layer manages itself or a user-chosen id. Equality is all that matters;
/// there is no ordering significance.
#[derive(Clone, Copy, Debug, PartialEq, Eq, Hash, Structural)]
pub enum TextureId {
    /// Id allocated and recycled by the GUI layer.
    Managed(u64),
    /// Id chosen by the embedding application.
    User(u64),
}

/// One mesh vertex: position and texture coordinates as raw 32-bit float bit
/// patterns plus a packed 8-bit-per-channel color.
#[derive(Clone, Copy, Debug, PartialEq, Eq, Structural)]
pub struct Vertex {
    /// Bit pattern of the x position, in logical points.
    pub pos_x_bits: u32,
    /// Bit pattern of the y position, in logical points.
    pub pos_y_bits: u32,
    /// Bit pattern of the texture u coordinate.
    pub u_bits: u32,
    /// Bit pattern of the texture v coordinate.
    pub v_bits: u32,
    /// Packed RGBA color, one byte per channel.
    pub color: u32,
}

/// A textured triangle list: every three indices into `vertices` form one
/// triangle, all sampled from the texture named by `texture_id`.
pub struct Mesh {
    /// Vertices referenced by `indices`.
    pub vertices: Vec<Vertex>,
    /// Triangle list indices into `vertices`.
    pub indices: Vec<u32>,
    /// Texture the mesh samples from.
    pub texture_id: TextureId,
}

/// One drawable unit of a frame.
pub enum Primitive {
    /// A textured triangle mesh.
    Mesh(Mesh),
    /// A paint callback. Rendering callbacks is not supported: a frame that
    /// contains one fails with a named error instead of drawing.
    Callback,
}

/// A primitive together with the clip rectangle outside of which it must not
/// be visible. The order of clipped primitives in a frame's input sequence
/// is the required draw order: later primitives paint over earlier ones.
pub struct ClippedPrimitive {
    /// Clip rectangle in logical points (sub-point units, see [`crate::geom`]).
    pub clip_rect: crate::geom::Rect,
    /// The drawable content.
    pub primitive: Primitive,
}

} // verus!
