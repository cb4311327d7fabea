//! Growable GPU buffer management.
//!
//! The renderer keeps one vertex buffer and one index buffer. Each frame it
//! measures how many bytes the frame needs; an undersized buffer is replaced
//! by a fresh allocation of twice the required size (geometric growth, so
//! reallocation cost amortizes) and capacity never shrinks.

use vstd::prelude::*;
use crate::mesh::{ClippedPrimitive, Primitive, Vertex};

verus! {

/// Byte size of one staged vertex: four 32-bit fields of position and
/// texture coordinates plus the packed color.
pub const VERTEX_BYTE_LEN: u64 = 20;

/// Byte size of one staged triangle-list index.
pub const INDEX_BYTE_LEN: u64 = 4;

/// Largest byte size a buffer may be asked for: growth doubles the request,
/// and the doubled value must still fit in `u64`.
pub const MAX_REQUIRED_BYTES: u64 = 0x7fff_ffff_ffff_ffff;

/// Capacity after one `ensure_capacity(required)` call on a buffer holding
/// `capacity` bytes: an undersized (or exactly-sized) buffer is replaced by
/// one of twice the required size, otherwise it is reused in place.
pub open spec fn grown_capacity(capacity: int, required: int) -> int {
    if capacity <= required {
        2 * required
    } else {
        capacity
    }
}

/// Capacity model of one GPU-side buffer. The buffer's memory lives on the
/// device; this value tracks the one fact the planning logic depends on, the
/// allocated byte size.
pub struct GpuBuffer {
    /// Allocated size in bytes.
    pub capacity: u64,
}

impl GpuBuffer {
    /// A buffer model with `capacity` bytes allocated.
    pub fn with_capacity(capacity: u64) -> (r: GpuBuffer)
        ensures
            r.capacity == capacity,
    {
        GpuBuffer { capacity }
    }

    /// Make the buffer hold at least `required` bytes, replacing it by a
    /// fresh allocation of `2 * required` bytes if it is not strictly larger
    /// than the request. Returns the size of the new allocation when the
    /// buffer was replaced, `None` when it was reused in place.
    pub fn ensure_capacity(&mut self, required: u64) -> (realloc: Option<u64>)
        requires
            required <= MAX_REQUIRED_BYTES,
        ensures
            final(self).capacity == grown_capacity(old(self).capacity as int, required as int),
            final(self).capacity >= required,
            final(self).capacity >= old(self).capacity,
            realloc == (if old(self).capacity <= required {
                Some(final(self).capacity)
            } else {
                None::<u64>
            }),
    {
        if self.capacity <= required {
            self.capacity = 2 * required;
            Some(self.capacity)
        } else {
            None
        }
    }
}

/// Capacity after a session of `ensure_capacity` calls, one per element of
/// `required`, starting from `capacity`.
pub open spec fn capacity_after(capacity: int, required: Seq<u64>) -> int
    decreases required.len(),
{
    if required.len() == 0 {
        capacity
    } else {
        grown_capacity(capacity_after(capacity, required.drop_last()), required.last() as int)
    }
}

/// Buffer growth is monotonic and geometric: over any session of capacity
/// requests, the capacity after each call is at least the size just
/// requested, and capacity never decreases from one call to the next.
pub proof fn lemma_growth_monotonic(capacity: int, required: Seq<u64>)
    ensures
        forall|i: int|
            0 <= i < required.len() ==> capacity_after(capacity, #[trigger] required.take(i + 1))
                >= required[i],
        forall|i: int|
            0 <= i < required.len() ==> capacity_after(capacity, required.take(i))
                <= capacity_after(capacity, #[trigger] required.take(i + 1)),
    decreases required.len(),
{
    if required.len() > 0 {
        let prefix = required.drop_last();
        lemma_growth_monotonic(capacity, prefix);
        assert(required.take(required.len() as int) =~= required);
        assert forall|i: int| 0 <= i < required.len() implies {
            &&& capacity_after(capacity, #[trigger] required.take(i + 1)) >= required[i]
            &&& capacity_after(capacity, required.take(i)) <= capacity_after(
                capacity,
                required.take(i + 1),
            )
        } by {
            if i < required.len() - 1 {
                assert(required.take(i) =~= prefix.take(i));
                assert(required.take(i + 1) =~= prefix.take(i + 1));
            } else {
                assert(required.take(i) =~= prefix);
            }
        }
    }
}

/// Number of vertices a primitive contributes to the shared vertex buffer.
/// Callbacks stage no geometry.
pub open spec fn prim_vertex_count(p: ClippedPrimitive) -> nat {
    match p.primitive {
        Primitive::Mesh(m) => m.vertices@.len(),
        Primitive::Callback => 0,
    }
}

/// Number of indices a primitive contributes to the shared index buffer.
pub open spec fn prim_index_count(p: ClippedPrimitive) -> nat {
    match p.primitive {
        Primitive::Mesh(m) => m.indices@.len(),
        Primitive::Callback => 0,
    }
}

/// Total vertex count of a frame's primitives.
pub open spec fn total_vertex_count(ps: Seq<ClippedPrimitive>) -> nat
    decreases ps.len(),
{
    if ps.len() == 0 {
        0
    } else {
        total_vertex_count(ps.drop_last()) + prim_vertex_count(ps.last())
    }
}

/// Total index count of a frame's primitives.
pub open spec fn total_index_count(ps: Seq<ClippedPrimitive>) -> nat
    decreases ps.len(),
{
    if ps.len() == 0 {
        0
    } else {
        total_index_count(ps.drop_last()) + prim_index_count(ps.last())
    }
}

/// Extending a prefix by one primitive adds exactly that primitive's counts.
pub proof fn lemma_count_take_step(ps: Seq<ClippedPrimitive>, i: int)
    requires
        0 <= i < ps.len(),
    ensures
        total_vertex_count(ps.take(i + 1)) == total_vertex_count(ps.take(i))
            + prim_vertex_count(ps[i]),
        total_index_count(ps.take(i + 1)) == total_index_count(ps.take(i)) + prim_index_count(
            ps[i],
        ),
{
    assert(ps.take(i + 1).drop_last() =~= ps.take(i));
    assert(ps.take(i + 1).last() == ps[i]);
}

/// A prefix never stages more than the whole frame.
pub proof fn lemma_count_prefix_le(ps: Seq<ClippedPrimitive>, i: int)
    requires
        0 <= i <= ps.len(),
    ensures
        total_vertex_count(ps.take(i)) <= total_vertex_count(ps),
        total_index_count(ps.take(i)) <= total_index_count(ps),
    decreases ps.len(),
{
    if i == ps.len() {
        assert(ps.take(i) =~= ps);
    } else {
        assert(ps.drop_last().take(i) =~= ps.take(i));
        lemma_count_prefix_le(ps.drop_last(), i);
    }
}

/// Compute how many bytes of vertex data and of index data the frame's mesh
/// primitives need in the shared buffers: the concatenated sizes of every
/// mesh, in draw order, with callbacks contributing nothing.
pub fn measure_buffer_size(triangles: &Vec<ClippedPrimitive>) -> (r: (u64, u64))
    requires
        VERTEX_BYTE_LEN * total_vertex_count(triangles@) <= u64::MAX,
        INDEX_BYTE_LEN * total_index_count(triangles@) <= u64::MAX,
    ensures
        r.0 == VERTEX_BYTE_LEN * total_vertex_count(triangles@),
        r.1 == INDEX_BYTE_LEN * total_index_count(triangles@),
{
    let mut vbytes: u64 = 0;
    let mut ibytes: u64 = 0;
    let mut i: usize = 0;
    while i < triangles.len()
        invariant
            0 <= i <= triangles@.len(),
            vbytes == VERTEX_BYTE_LEN * total_vertex_count(triangles@.take(i as int)),
            ibytes == INDEX_BYTE_LEN * total_index_count(triangles@.take(i as int)),
            VERTEX_BYTE_LEN * total_vertex_count(triangles@) <= u64::MAX,
            INDEX_BYTE_LEN * total_index_count(triangles@) <= u64::MAX,
        decreases triangles@.len() - i,
    {
        proof {
            lemma_count_take_step(triangles@, i as int);
            lemma_count_prefix_le(triangles@, i + 1);
        }
        match &triangles[i].primitive {
            Primitive::Mesh(m) => {
                vbytes = vbytes + (m.vertices.len() as u64) * VERTEX_BYTE_LEN;
                ibytes = ibytes + (m.indices.len() as u64) * INDEX_BYTE_LEN;
            },
            Primitive::Callback => {},
        }
        i = i + 1;
    }
    proof {
        assert(triangles@.take(triangles@.len() as int) =~= triangles@);
    }
    (vbytes, ibytes)
}

/// The four bytes of a 32-bit value in little-endian order.
pub open spec fn u32_le_bytes(v: u32) -> Seq<u8> {
    seq![
        (v % 256) as u8,
        ((v / 256) % 256) as u8,
        ((v / 65536) % 256) as u8,
        ((v / 16777216) % 256) as u8,
    ]
}

/// The twenty staged bytes of one vertex: position, texture coordinates and
/// color, each field in little-endian order.
pub open spec fn vertex_bytes(v: Vertex) -> Seq<u8> {
    u32_le_bytes(v.pos_x_bits) + u32_le_bytes(v.pos_y_bits) + u32_le_bytes(v.u_bits) + u32_le_bytes(
        v.v_bits,
    ) + u32_le_bytes(v.color)
}

/// The staged bytes of a vertex sequence, concatenated in order.
pub open spec fn vertices_bytes(vs: Seq<Vertex>) -> Seq<u8>
    decreases vs.len(),
{
    if vs.len() == 0 {
        Seq::empty()
    } else {
        vertices_bytes(vs.drop_last()) + vertex_bytes(vs.last())
    }
}

/// The staged bytes of an index sequence, each index in little-endian order.
pub open spec fn indices_bytes(is: Seq<u32>) -> Seq<u8>
    decreases is.len(),
{
    if is.len() == 0 {
        Seq::empty()
    } else {
        indices_bytes(is.drop_last()) + u32_le_bytes(is.last())
    }
}

/// Vertex bytes a primitive stages: its mesh's vertices, or nothing.
pub open spec fn prim_vertex_bytes(p: ClippedPrimitive) -> Seq<u8> {
    match p.primitive {
        Primitive::Mesh(m) => vertices_bytes(m.vertices@),
        Primitive::Callback => Seq::empty(),
    }
}

/// Index bytes a primitive stages: its mesh's indices, or nothing.
pub open spec fn prim_index_bytes(p: ClippedPrimitive) -> Seq<u8> {
    match p.primitive {
        Primitive::Mesh(m) => indices_bytes(m.indices@),
        Primitive::Callback => Seq::empty(),
    }
}

/// The whole frame's vertex bytes: every primitive's vertex data
/// concatenated in draw order into one contiguous staging write.
pub open spec fn staged_vertex_bytes(ps: Seq<ClippedPrimitive>) -> Seq<u8>
    decreases ps.len(),
{
    if ps.len() == 0 {
        Seq::empty()
    } else {
        staged_vertex_bytes(ps.drop_last()) + prim_vertex_bytes(ps.last())
    }
}

/// The whole frame's index bytes, concatenated in draw order.
pub open spec fn staged_index_bytes(ps: Seq<ClippedPrimitive>) -> Seq<u8>
    decreases ps.len(),
{
    if ps.len() == 0 {
        Seq::empty()
    } else {
        staged_index_bytes(ps.drop_last()) + prim_index_bytes(ps.last())
    }
}

/// Every vertex stages exactly `VERTEX_BYTE_LEN` bytes.
pub proof fn lemma_vertices_bytes_len(vs: Seq<Vertex>)
    ensures
        vertices_bytes(vs).len() == VERTEX_BYTE_LEN * vs.len(),
    decreases vs.len(),
{
    if vs.len() > 0 {
        lemma_vertices_bytes_len(vs.drop_last());
    }
}

/// Every index stages exactly `INDEX_BYTE_LEN` bytes.
pub proof fn lemma_indices_bytes_len(is: Seq<u32>)
    ensures
        indices_bytes(is).len() == INDEX_BYTE_LEN * is.len(),
    decreases is.len(),
{
    if is.len() > 0 {
        lemma_indices_bytes_len(is.drop_last());
    }
}

/// The staged byte totals are exactly what `measure_buffer_size` reports.
pub proof fn lemma_staged_bytes_len(ps: Seq<ClippedPrimitive>)
    ensures
        staged_vertex_bytes(ps).len() == VERTEX_BYTE_LEN * total_vertex_count(ps),
        staged_index_bytes(ps).len() == INDEX_BYTE_LEN * total_index_count(ps),
    decreases ps.len(),
{
    if ps.len() > 0 {
        lemma_staged_bytes_len(ps.drop_last());
        match ps.last().primitive {
            Primitive::Mesh(m) => {
                lemma_vertices_bytes_len(m.vertices@);
                lemma_indices_bytes_len(m.indices@);
            },
            Primitive::Callback => {},
        }
    }
}

/// Append the little-endian bytes of `v` to `out`.
fn push_u32_le(out: &mut Vec<u8>, v: u32)
    ensures
        final(out)@ == old(out)@ + u32_le_bytes(v),
{
    out.push((v % 256) as u8);
    out.push(((v / 256) % 256) as u8);
    out.push(((v / 65536) % 256) as u8);
    out.push(((v / 16777216) % 256) as u8);
    proof {
        assert(out@ =~= old(out)@ + u32_le_bytes(v));
    }
}

/// Append the staged bytes of one vertex to `out`.
fn push_vertex(out: &mut Vec<u8>, v: &Vertex)
    ensures
        final(out)@ == old(out)@ + vertex_bytes(*v),
{
    push_u32_le(out, v.pos_x_bits);
    push_u32_le(out, v.pos_y_bits);
    push_u32_le(out, v.u_bits);
    push_u32_le(out, v.v_bits);
    push_u32_le(out, v.color);
    proof {
        assert(out@ =~= old(out)@ + vertex_bytes(*v));
    }
}

/// Append the staged bytes of a whole vertex list to `out`.
fn push_mesh_vertices(out: &mut Vec<u8>, vs: &Vec<Vertex>)
    ensures
        final(out)@ == old(out)@ + vertices_bytes(vs@),
{
    let mut j: usize = 0;
    while j < vs.len()
        invariant
            0 <= j <= vs@.len(),
            out@ == old(out)@ + vertices_bytes(vs@.take(j as int)),
        decreases vs@.len() - j,
    {
        push_vertex(out, &vs[j]);
        proof {
            assert(vs@.take(j + 1).drop_last() =~= vs@.take(j as int));
            assert(out@ =~= old(out)@ + vertices_bytes(vs@.take(j + 1)));
        }
        j = j + 1;
    }
    proof {
        assert(vs@.take(vs@.len() as int) =~= vs@);
    }
}

/// Append the staged bytes of a whole index list to `out`.
fn push_mesh_indices(out: &mut Vec<u8>, is: &Vec<u32>)
    ensures
        final(out)@ == old(out)@ + indices_bytes(is@),
{
    let mut j: usize = 0;
    while j < is.len()
        invariant
            0 <= j <= is@.len(),
            out@ == old(out)@ + indices_bytes(is@.take(j as int)),
        decreases is@.len() - j,
    {
        push_u32_le(out, is[j]);
        proof {
            assert(is@.take(j + 1).drop_last() =~= is@.take(j as int));
            assert(out@ =~= old(out)@ + indices_bytes(is@.take(j + 1)));
        }
        j = j + 1;
    }
    proof {
        assert(is@.take(is@.len() as int) =~= is@);
    }
}

/// Concatenate every mesh primitive's vertex data, in draw order, into one
/// staging buffer for a single contiguous upload.
pub fn stage_vertex_bytes(triangles: &Vec<ClippedPrimitive>) -> (out: Vec<u8>)
    ensures
        out@ == staged_vertex_bytes(triangles@),
{
    let mut out: Vec<u8> = Vec::new();
    let mut i: usize = 0;
    while i < triangles.len()
        invariant
            0 <= i <= triangles@.len(),
            out@ == staged_vertex_bytes(triangles@.take(i as int)),
        decreases triangles@.len() - i,
    {
        match &triangles[i].primitive {
            Primitive::Mesh(m) => {
                push_mesh_vertices(&mut out, &m.vertices);
            },
            Primitive::Callback => {},
        }
        proof {
            assert(triangles@.take(i + 1).drop_last() =~= triangles@.take(i as int));
            assert(out@ =~= staged_vertex_bytes(triangles@.take(i + 1)));
        }
        i = i + 1;
    }
    proof {
        assert(triangles@.take(triangles@.len() as int) =~= triangles@);
    }
    out
}

/// Concatenate every mesh primitive's index data, in draw order, into one
/// staging buffer for a single contiguous upload.
pub fn stage_index_bytes(triangles: &Vec<ClippedPrimitive>) -> (out: Vec<u8>)
    ensures
        out@ == staged_index_bytes(triangles@),
{
    let mut out: Vec<u8> = Vec::new();
    let mut i: usize = 0;
    while i < triangles.len()
        invariant
            0 <= i <= triangles@.len(),
            out@ == staged_index_bytes(triangles@.take(i as int)),
        decreases triangles@.len() - i,
    {
        match &triangles[i].primitive {
            Primitive::Mesh(m) => {
                push_mesh_indices(&mut out, &m.indices);
            },
            Primitive::Callback => {},
        }
        proof {
            assert(triangles@.take(i + 1).drop_last() =~= triangles@.take(i as int));
            assert(out@ =~= staged_index_bytes(triangles@.take(i + 1)));
        }
        i = i + 1;
    }
    proof {
        assert(triangles@.take(triangles@.len() as int) =~= triangles@);
    }
    out
}

} // verus!
