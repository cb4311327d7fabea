//! Frame planning: one tick's GPU work as plain data.
//!
//! A frame runs through the states idle, background pass, staging,
//! foreground pass, submitted. The planner consumes the tick's primitives
//! and texture updates, reconciles the caches, grows the buffers and lays
//! out every draw; the resulting [`FramePlan`] tells the unverified shell
//! exactly which backend calls to make, in which order.

use vstd::prelude::*;
use crate::buffer::{
    GpuBuffer, MAX_REQUIRED_BYTES, VERTEX_BYTE_LEN, INDEX_BYTE_LEN, grown_capacity,
    total_vertex_count, total_index_count, staged_vertex_bytes, staged_index_bytes,
    lemma_count_take_step, lemma_count_prefix_le, lemma_staged_bytes_len, measure_buffer_size,
    stage_vertex_bytes, stage_index_bytes,
};
use crate::geom::{ScissorRect, ScreenDescriptor, scissor_spec, to_scissor_rect};
use crate::mesh::{ClippedPrimitive, Primitive, TextureId};
use crate::surface::{SurfaceConfig, SurfaceFormat, negotiate_config, preferred_format};
use crate::texture::{
    SamplerCache, TextureCache, TextureDelta, TextureError, TextureModel, TextureOptions,
    TextureResource, patch_fits, patched_model,
};

verus! {

/// The texture a draw binds: a cached resource, or the built-in 1x1 opaque
/// fallback when the referenced id is not in the cache.
#[derive(Clone, Copy, Debug, PartialEq, Eq, Structural)]
pub enum TextureBinding {
    /// Bind the cached resource of this id.
    Texture(TextureId),
    /// Bind the fallback resource.
    Fallback,
}

/// One texture-cache reconciliation step the shell must perform on the
/// device, in list order. Upload and patch steps name the delta they stem
/// from by its index in the tick's delta list.
#[derive(Clone, Copy, Debug, PartialEq, Eq, Structural)]
pub enum TextureCommand {
    /// Create a device sampler for these sampling options; issued at most
    /// once per distinct key.
    CreateSampler {
        /// Sampling options the new sampler must implement.
        options: TextureOptions,
    },
    /// Allocate a texture sized to the delta's image, upload the full image
    /// and (re)bind it under the delta's id.
    Upload {
        /// Index into the tick's delta list.
        delta_index: usize,
    },
    /// Upload the delta's image block at its position offset into the
    /// existing texture of the delta's id.
    Patch {
        /// Index into the tick's delta list.
        delta_index: usize,
    },
    /// Destroy the resource this id names, if any.
    Free {
        /// Texture to evict.
        id: TextureId,
    },
}

/// Why a frame could not be planned.
#[derive(Clone, Copy, Debug, PartialEq, Eq, Structural)]
pub enum FrameError {
    /// The input sequence holds a callback primitive; rendering callbacks is
    /// not supported, and the failure is reported rather than skipped.
    CallbackUnsupported,
}

/// The mathematical state a brand-new delta puts in the cache.
pub open spec fn delta_model(d: TextureDelta) -> TextureModel {
    TextureModel {
        width: d.image.width,
        height: d.image.height,
        pixels: d.image.pixels@,
        options: d.options,
    }
}

/// Why one delta is rejected against a given cache state, if it is: patching
/// an unknown id, or patching outside the texture's extent.
pub open spec fn delta_error(
    m: Map<TextureId, TextureModel>,
    id: TextureId,
    d: TextureDelta,
) -> Option<TextureError> {
    match d.pos {
        None => None,
        Some(pos) => {
            if !m.dom().contains(id) {
                Some(TextureError::UnknownTexture)
            } else if !patch_fits(m[id], pos.0, pos.1, d.image.width, d.image.height) {
                Some(TextureError::PatchOutOfBounds)
            } else {
                None
            }
        },
    }
}

/// The cache after one delta: a new texture replaces whatever its id named,
/// a valid patch rewrites the patched block, a rejected delta changes
/// nothing.
pub open spec fn apply_delta(
    m: Map<TextureId, TextureModel>,
    id: TextureId,
    d: TextureDelta,
) -> Map<TextureId, TextureModel> {
    match d.pos {
        None => m.insert(id, delta_model(d)),
        Some(pos) => {
            if delta_error(m, id, d) is None {
                m.insert(
                    id,
                    patched_model(m[id], pos.0, pos.1, d.image.width, d.image.height,
                    d.image.pixels@),
                )
            } else {
                m
            }
        },
    }
}

/// The cache after a whole delta batch, applied in order.
pub open spec fn cache_after_deltas(
    m: Map<TextureId, TextureModel>,
    ds: Seq<(TextureId, TextureDelta)>,
) -> Map<TextureId, TextureModel>
    decreases ds.len(),
{
    if ds.len() == 0 {
        m
    } else {
        apply_delta(cache_after_deltas(m, ds.drop_last()), ds.last().0, ds.last().1)
    }
}

/// The sampler keys present after a delta batch: every new texture's
/// sampling options join the set.
pub open spec fn samplers_after_deltas(
    s: Set<TextureOptions>,
    ds: Seq<(TextureId, TextureDelta)>,
) -> Set<TextureOptions>
    decreases ds.len(),
{
    if ds.len() == 0 {
        s
    } else {
        let prev = samplers_after_deltas(s, ds.drop_last());
        if ds.last().1.pos is None {
            prev.insert(ds.last().1.options)
        } else {
            prev
        }
    }
}

/// The rejected entries of a delta batch, in batch order, each with the
/// reason it was rejected. A rejected entry is skipped; the rest of the
/// batch still applies.
pub open spec fn rejected_of(
    m: Map<TextureId, TextureModel>,
    ds: Seq<(TextureId, TextureDelta)>,
) -> Seq<(TextureId, TextureError)>
    decreases ds.len(),
{
    if ds.len() == 0 {
        Seq::empty()
    } else {
        let prev = rejected_of(m, ds.drop_last());
        match delta_error(cache_after_deltas(m, ds.drop_last()), ds.last().0, ds.last().1) {
            Some(e) => prev.push((ds.last().0, e)),
            None => prev,
        }
    }
}

/// The device work a delta batch requires, in order: a sampler creation
/// before the first upload that needs an unseen sampling key, an upload per
/// new texture, a patch per accepted patch delta.
pub open spec fn delta_commands_of(
    m: Map<TextureId, TextureModel>,
    s: Set<TextureOptions>,
    ds: Seq<(TextureId, TextureDelta)>,
) -> Seq<TextureCommand>
    decreases ds.len(),
{
    if ds.len() == 0 {
        Seq::empty()
    } else {
        let prev = delta_commands_of(m, s, ds.drop_last());
        let d = ds.last().1;
        let upload = TextureCommand::Upload { delta_index: (ds.len() - 1) as usize };
        match d.pos {
            None => {
                if samplers_after_deltas(s, ds.drop_last()).contains(d.options) {
                    prev.push(upload)
                } else {
                    prev.push(TextureCommand::CreateSampler { options: d.options }).push(upload)
                }
            },
            Some(_) => {
                if delta_error(cache_after_deltas(m, ds.drop_last()), ds.last().0, d) is None {
                    prev.push(TextureCommand::Patch { delta_index: (ds.len() - 1) as usize })
                } else {
                    prev
                }
            },
        }
    }
}

/// Copy a texel vector.
fn copy_pixels(src: &Vec<u32>) -> (out: Vec<u32>)
    ensures
        out@ == src@,
{
    let mut out: Vec<u32> = Vec::new();
    let mut i: usize = 0;
    while i < src.len()
        invariant
            0 <= i <= src@.len(),
            out@ == src@.take(i as int),
        decreases src@.len() - i,
    {
        out.push(src[i]);
        proof {
            assert(out@ =~= src@.take(i + 1));
        }
        i = i + 1;
    }
    proof {
        assert(src@.take(src@.len() as int) =~= src@);
    }
    out
}

/// Reconcile the texture and sampler caches against one tick's delta batch,
/// in order and wholesale, before any draw of the same tick depends on them.
/// Returns the device commands the shell must run and the rejected entries,
/// each with its reason; a rejected entry changes nothing and does not stop
/// the rest of the batch.
pub fn apply_texture_deltas(
    textures: &mut TextureCache,
    samplers: &mut SamplerCache,
    deltas: &Vec<(TextureId, TextureDelta)>,
) -> (r: (Vec<TextureCommand>, Vec<(TextureId, TextureError)>))
    requires
        old(textures).wf(),
        forall|i: int|
            0 <= i < deltas@.len() ==> (#[trigger] deltas@[i].1).image.wf(),
    ensures
        final(textures).wf(),
        final(textures)@ == cache_after_deltas(old(textures)@, deltas@),
        final(samplers)@ == samplers_after_deltas(old(samplers)@, deltas@),
        r.0@ == delta_commands_of(old(textures)@, old(samplers)@, deltas@),
        r.1@ == rejected_of(old(textures)@, deltas@),
{
    let mut commands: Vec<TextureCommand> = Vec::new();
    let mut rejected: Vec<(TextureId, TextureError)> = Vec::new();
    let mut i: usize = 0;
    proof {
        assert(deltas@.take(0) =~= Seq::<(TextureId, TextureDelta)>::empty());
    }
    while i < deltas.len()
        invariant
            0 <= i <= deltas@.len(),
            textures.wf(),
            forall|k: int|
                0 <= k < deltas@.len() ==> (#[trigger] deltas@[k].1).image.wf(),
            textures@ == cache_after_deltas(old(textures)@, deltas@.take(i as int)),
            samplers@ == samplers_after_deltas(old(samplers)@, deltas@.take(i as int)),
            commands@ == delta_commands_of(old(textures)@, old(samplers)@, deltas@.take(i as int)),
            rejected@ == rejected_of(old(textures)@, deltas@.take(i as int)),
        decreases deltas@.len() - i,
    {
        let ghost prefix = deltas@.take(i as int);
        let ghost step = deltas@.take(i + 1);
        proof {
            assert(step.drop_last() =~= prefix);
            assert(step.last() == deltas@[i as int]);
        }
        let id = deltas[i].0;
        let delta = &deltas[i].1;
        match &delta.pos {
            None => {
                let created = samplers.ensure(delta.options);
                if created {
                    commands.push(TextureCommand::CreateSampler { options: delta.options });
                }
                commands.push(TextureCommand::Upload { delta_index: i });
                let resource = TextureResource {
                    width: delta.image.width,
                    height: delta.image.height,
                    pixels: copy_pixels(&delta.image.pixels),
                    options: delta.options,
                };
                textures.insert(id, resource);
                proof {
                    assert(resource@ == delta_model(deltas@[i as int].1));
                }
            },
            Some(pos) => {
                let (x, y) = (pos.0, pos.1);
                match textures.patch(id, x, y, &delta.image) {
                    Ok(()) => {
                        commands.push(TextureCommand::Patch { delta_index: i });
                    },
                    Err(e) => {
                        rejected.push((id, e));
                    },
                }
            },
        }
        i = i + 1;
    }
    proof {
        assert(deltas@.take(deltas@.len() as int) =~= deltas@);
    }
    (commands, rejected)
}

/// One scoped draw of the foreground pass: its scissor rectangle, the
/// byte-range slices of the shared vertex and index buffers holding its
/// geometry, how many indices to draw, and the texture to bind.
#[derive(Clone, Copy, Debug, PartialEq, Eq, Structural)]
pub struct DrawCommand {
    /// Hardware clip rectangle of this draw.
    pub scissor: ScissorRect,
    /// First byte of this primitive's slice of the shared vertex buffer.
    pub vertex_start: u64,
    /// One past the last byte of the vertex slice.
    pub vertex_end: u64,
    /// First byte of this primitive's slice of the shared index buffer.
    pub index_start: u64,
    /// One past the last byte of the index slice.
    pub index_end: u64,
    /// Number of indices to draw.
    pub index_count: u32,
    /// Texture resource to bind, or the fallback.
    pub binding: TextureBinding,
}

/// Does the input sequence hold a callback primitive?
pub open spec fn has_callback(ps: Seq<ClippedPrimitive>) -> bool {
    exists|i: int| 0 <= i < ps.len() && (#[trigger] ps[i]).primitive is Callback
}

/// The binding a primitive referencing `id` draws with: the cached resource
/// when the cache holds the id, the fallback otherwise. An unknown id never
/// fails the frame.
pub open spec fn binding_of(m: Map<TextureId, TextureModel>, id: TextureId) -> TextureBinding {
    if m.dom().contains(id) {
        TextureBinding::Texture(id)
    } else {
        TextureBinding::Fallback
    }
}

/// A primitive produces a draw exactly when it is a mesh whose clip
/// rectangle covers at least one pixel on this screen.
pub open spec fn drawable(p: ClippedPrimitive, screen: ScreenDescriptor) -> bool {
    p.primitive is Mesh && scissor_spec(p.clip_rect, screen) is Some
}

/// Byte offset of primitive `i`'s vertex slice: all earlier primitives'
/// vertex data precedes it, whether or not they were drawn.
pub open spec fn vertex_offset(ps: Seq<ClippedPrimitive>, i: int) -> int {
    VERTEX_BYTE_LEN * total_vertex_count(ps.take(i))
}

/// Byte offset of primitive `i`'s index slice.
pub open spec fn index_offset(ps: Seq<ClippedPrimitive>, i: int) -> int {
    INDEX_BYTE_LEN * total_index_count(ps.take(i))
}

/// The draw command primitive `i` produces (meaningful when the primitive is
/// drawable; a callback yields a zeroed placeholder that never enters a
/// plan).
pub open spec fn prim_command(
    ps: Seq<ClippedPrimitive>,
    i: int,
    m: Map<TextureId, TextureModel>,
    screen: ScreenDescriptor,
) -> DrawCommand {
    match ps[i].primitive {
        Primitive::Mesh(mesh) => DrawCommand {
            scissor: scissor_spec(ps[i].clip_rect, screen)->0,
            vertex_start: vertex_offset(ps, i) as u64,
            vertex_end: vertex_offset(ps, i + 1) as u64,
            index_start: index_offset(ps, i) as u64,
            index_end: index_offset(ps, i + 1) as u64,
            index_count: mesh.indices@.len() as u32,
            binding: binding_of(m, mesh.texture_id),
        },
        Primitive::Callback => DrawCommand {
            scissor: ScissorRect { x: 0, y: 0, width: 0, height: 0 },
            vertex_start: 0,
            vertex_end: 0,
            index_start: 0,
            index_end: 0,
            index_count: 0,
            binding: TextureBinding::Fallback,
        },
    }
}

/// The foreground pass of a frame: one draw per drawable primitive, in input
/// order. Order is the paint order and must never be changed: later
/// primitives paint over earlier ones.
pub open spec fn draws_of(
    ps: Seq<ClippedPrimitive>,
    m: Map<TextureId, TextureModel>,
    screen: ScreenDescriptor,
) -> Seq<DrawCommand>
    decreases ps.len(),
{
    if ps.len() == 0 {
        Seq::empty()
    } else {
        let prev = draws_of(ps.drop_last(), m, screen);
        if drawable(ps.last(), screen) {
            prev.push(prim_command(ps, ps.len() - 1, m, screen))
        } else {
            prev
        }
    }
}

/// A primitive's command does not depend on the primitives after it.
proof fn lemma_prim_command_take(
    ps: Seq<ClippedPrimitive>,
    n: int,
    i: int,
    m: Map<TextureId, TextureModel>,
    screen: ScreenDescriptor,
)
    requires
        0 <= i < n <= ps.len(),
    ensures
        prim_command(ps.take(n), i, m, screen) == prim_command(ps, i, m, screen),
{
    assert(ps.take(n).take(i) =~= ps.take(i));
    assert(ps.take(n).take(i + 1) =~= ps.take(i + 1));
    assert(ps.take(n)[i] == ps[i]);
}

/// Extending the planned prefix by one primitive appends exactly that
/// primitive's draw, or nothing if it is skipped.
proof fn lemma_draws_take_step(
    ps: Seq<ClippedPrimitive>,
    i: int,
    m: Map<TextureId, TextureModel>,
    screen: ScreenDescriptor,
)
    requires
        0 <= i < ps.len(),
    ensures
        draws_of(ps.take(i + 1), m, screen) == if drawable(ps[i], screen) {
            draws_of(ps.take(i), m, screen).push(prim_command(ps, i, m, screen))
        } else {
            draws_of(ps.take(i), m, screen)
        },
{
    assert(ps.take(i + 1).drop_last() =~= ps.take(i));
    assert(ps.take(i + 1).last() == ps[i]);
    lemma_prim_command_take(ps, i + 1, i, m, screen);
}

/// Lay the foreground pass out: walk the primitives in input order, skip
/// what is fully clipped, and emit one draw per visible mesh over its own
/// byte-range slice of the shared buffers. Offsets advance for every mesh,
/// drawn or skipped, so each draw's slice is the one staged for it.
pub fn plan_draws(
    triangles: &Vec<ClippedPrimitive>,
    textures: &TextureCache,
    screen: &ScreenDescriptor,
) -> (draws: Vec<DrawCommand>)
    requires
        textures.wf(),
        screen.wf(),
        VERTEX_BYTE_LEN * total_vertex_count(triangles@) <= u64::MAX,
        INDEX_BYTE_LEN * total_index_count(triangles@) <= u64::MAX,
        forall|k: int|
            0 <= k < triangles@.len() ==> crate::buffer::prim_index_count(#[trigger] triangles@[k])
                <= u32::MAX,
    ensures
        draws@ == draws_of(triangles@, textures@, *screen),
{
    let mut draws: Vec<DrawCommand> = Vec::new();
    let mut voff: u64 = 0;
    let mut ioff: u64 = 0;
    let mut i: usize = 0;
    proof {
        assert(triangles@.take(0) =~= Seq::<ClippedPrimitive>::empty());
    }
    while i < triangles.len()
        invariant
            0 <= i <= triangles@.len(),
            textures.wf(),
            screen.wf(),
            VERTEX_BYTE_LEN * total_vertex_count(triangles@) <= u64::MAX,
            INDEX_BYTE_LEN * total_index_count(triangles@) <= u64::MAX,
            forall|k: int|
                0 <= k < triangles@.len() ==> crate::buffer::prim_index_count(
                    #[trigger] triangles@[k],
                ) <= u32::MAX,
            voff == vertex_offset(triangles@, i as int),
            ioff == index_offset(triangles@, i as int),
            draws@ == draws_of(triangles@.take(i as int), textures@, *screen),
        decreases triangles@.len() - i,
    {
        proof {
            lemma_count_take_step(triangles@, i as int);
            lemma_count_prefix_le(triangles@, i + 1);
            lemma_draws_take_step(triangles@, i as int, textures@, *screen);
        }
        match &triangles[i].primitive {
            Primitive::Mesh(mesh) => {
                let vend: u64 = voff + (mesh.vertices.len() as u64) * VERTEX_BYTE_LEN;
                let iend: u64 = ioff + (mesh.indices.len() as u64) * INDEX_BYTE_LEN;
                match to_scissor_rect(&triangles[i].clip_rect, screen) {
                    Some(scissor) => {
                        let binding = match textures.lookup(mesh.texture_id) {
                            Some(_) => TextureBinding::Texture(mesh.texture_id),
                            None => TextureBinding::Fallback,
                        };
                        draws.push(
                            DrawCommand {
                                scissor,
                                vertex_start: voff,
                                vertex_end: vend,
                                index_start: ioff,
                                index_end: iend,
                                index_count: mesh.indices.len() as u32,
                                binding,
                            },
                        );
                    },
                    None => {},
                }
                voff = vend;
                ioff = iend;
            },
            Primitive::Callback => {},
        }
        i = i + 1;
    }
    proof {
        assert(triangles@.take(triangles@.len() as int) =~= triangles@);
    }
    draws
}

/// Initial size of the shared vertex buffer: room for 1024 vertices.
pub const INITIAL_VERTEX_BUFFER_BYTES: u64 = 20 * 1024;

/// Initial size of the shared index buffer: room for 1024 triangles.
pub const INITIAL_INDEX_BUFFER_BYTES: u64 = 4 * 1024 * 3;

/// One tick's GPU work, laid out in submission order: reconcile textures,
/// replace undersized buffers, write the staged geometry, clear the
/// background, then run every draw. The unverified shell executes the plan
/// verbatim; nothing in it may be reordered.
pub struct FramePlan {
    /// The frame always starts with one background-clear pass, whether or
    /// not there is any content.
    pub background_pass: bool,
    /// Texture-cache reconciliation steps, in order; evictions come last.
    pub texture_commands: Vec<TextureCommand>,
    /// Delta entries that were rejected, each with its reason; the frame
    /// still renders.
    pub rejected_deltas: Vec<(TextureId, TextureError)>,
    /// Size of the fresh vertex buffer to allocate before writing, if the
    /// held one is undersized. The swap happens before any write or draw of
    /// this frame, never mid-frame.
    pub vertex_realloc: Option<u64>,
    /// Size of the fresh index buffer to allocate, if undersized.
    pub index_realloc: Option<u64>,
    /// The frame's whole vertex data, one contiguous write at offset zero.
    pub vertex_bytes: Vec<u8>,
    /// The frame's whole index data, one contiguous write at offset zero.
    pub index_bytes: Vec<u8>,
    /// The foreground pass: scoped draws in paint order.
    pub draws: Vec<DrawCommand>,
}

/// Scan the input sequence for a callback primitive.
fn find_callback(triangles: &Vec<ClippedPrimitive>) -> (r: bool)
    ensures
        r == has_callback(triangles@),
{
    let mut i: usize = 0;
    while i < triangles.len()
        invariant
            0 <= i <= triangles@.len(),
            forall|k: int| 0 <= k < i ==> !((#[trigger] triangles@[k]).primitive is Callback),
        decreases triangles@.len() - i,
    {
        match &triangles[i].primitive {
            Primitive::Callback => {
                return true;
            },
            Primitive::Mesh(_) => {},
        }
        i = i + 1;
    }
    false
}

/// The frame-streaming renderer: owns the surface configuration, the models
/// of the two shared geometry buffers, the texture cache and the sampler
/// cache, and plans one frame per tick.
pub struct FrameRenderer {
    /// Configuration of the presentable surface.
    pub config: SurfaceConfig,
    /// Capacity model of the shared vertex buffer.
    pub vertex_buffer: GpuBuffer,
    /// Capacity model of the shared index buffer.
    pub index_buffer: GpuBuffer,
    /// Texture id to GPU resource mapping.
    pub textures: TextureCache,
    /// Sampling-mode keys that already have a device sampler.
    pub samplers: SamplerCache,
}

impl FrameRenderer {
    /// The renderer's invariant: a positive-size surface and a consistent
    /// texture cache.
    pub open spec fn wf(self) -> bool {
        self.config.wf() && self.textures.wf()
    }

    /// Build a renderer for a window of `width` by `height` pixels from the
    /// adapter's advertised capabilities: negotiated surface configuration,
    /// fresh geometry buffers at their initial sizes, and empty caches.
    pub fn create(
        formats: &Vec<SurfaceFormat>,
        present_modes: &Vec<u32>,
        alpha_modes: &Vec<u32>,
        width: u32,
        height: u32,
    ) -> (r: FrameRenderer)
        requires
            formats@.len() > 0,
            present_modes@.len() > 0,
            alpha_modes@.len() > 0,
            width > 0,
            height > 0,
        ensures
            r.wf(),
            r.config.format == preferred_format(formats@),
            r.config.width == width,
            r.config.height == height,
            r.config.present_mode == present_modes@[0],
            r.config.alpha_mode == alpha_modes@[0],
            r.vertex_buffer.capacity == INITIAL_VERTEX_BUFFER_BYTES,
            r.index_buffer.capacity == INITIAL_INDEX_BUFFER_BYTES,
            r.textures@ == Map::<TextureId, TextureModel>::empty(),
            r.samplers@ == Set::<TextureOptions>::empty(),
    {
        FrameRenderer {
            config: negotiate_config(formats, present_modes, alpha_modes, width, height),
            vertex_buffer: GpuBuffer::with_capacity(INITIAL_VERTEX_BUFFER_BYTES),
            index_buffer: GpuBuffer::with_capacity(INITIAL_INDEX_BUFFER_BYTES),
            textures: TextureCache::new(),
            samplers: SamplerCache::new(),
        }
    }

    /// Re-apply the surface configuration for a new pixel size. Idempotent;
    /// must run before the first present and after every resize, and never
    /// with a zero dimension (a minimized window skips its whole tick
    /// instead). Touches nothing but the configured size.
    pub fn request_resize(&mut self, width: u32, height: u32)
        requires
            old(self).wf(),
            width > 0,
            height > 0,
        ensures
            final(self).wf(),
            final(self).config.width == width,
            final(self).config.height == height,
            final(self).config.format == old(self).config.format,
            final(self).config.present_mode == old(self).config.present_mode,
            final(self).config.alpha_mode == old(self).config.alpha_mode,
            final(self).vertex_buffer == old(self).vertex_buffer,
            final(self).index_buffer == old(self).index_buffer,
            final(self).textures@ == old(self).textures@,
            final(self).samplers@ == old(self).samplers@,
            final(self).textures.wf(),
    {
        self.config.width = width;
        self.config.height = height;
    }

    /// Plan one frame: reconcile the texture cache against the tick's delta
    /// batch (additions and patches in order, then evictions), grow the
    /// geometry buffers to the frame's measured needs, stage all mesh
    /// geometry in draw order, and lay out one scissored draw per visible
    /// primitive. A callback primitive fails the frame with a named error
    /// before anything changes; a rejected delta entry is reported in the
    /// plan and skipped. An empty primitive list yields a clear-only frame.
    pub fn render_frame(
        &mut self,
        screen: &ScreenDescriptor,
        triangles: &Vec<ClippedPrimitive>,
        delta_set: &Vec<(TextureId, TextureDelta)>,
        delta_free: &Vec<TextureId>,
    ) -> (r: Result<FramePlan, FrameError>)
        requires
            old(self).wf(),
            screen.wf(),
            forall|i: int|
                0 <= i < delta_set@.len() ==> (#[trigger] delta_set@[i].1).image.wf(),
            VERTEX_BYTE_LEN * total_vertex_count(triangles@) <= MAX_REQUIRED_BYTES,
            INDEX_BYTE_LEN * total_index_count(triangles@) <= MAX_REQUIRED_BYTES,
            forall|k: int|
                0 <= k < triangles@.len() ==> crate::buffer::prim_index_count(
                    #[trigger] triangles@[k],
                ) <= u32::MAX,
        ensures
            final(self).wf(),
            final(self).config == old(self).config,
            r is Err <==> has_callback(triangles@),
            r matches Err(e) ==> e == FrameError::CallbackUnsupported && *final(self) == *old(self),
            r matches Ok(plan) ==> {
                let vbytes = VERTEX_BYTE_LEN * total_vertex_count(triangles@);
                let ibytes = INDEX_BYTE_LEN * total_index_count(triangles@);
                &&& final(self).textures@ == cache_after_deltas(
                    old(self).textures@,
                    delta_set@,
                ).remove_keys(delta_free@.to_set())
                &&& final(self).samplers@ == samplers_after_deltas(old(self).samplers@, delta_set@)
                &&& plan.background_pass
                &&& plan.texture_commands@ == delta_commands_of(
                    old(self).textures@,
                    old(self).samplers@,
                    delta_set@,
                ) + delta_free@.map_values(|id: TextureId| TextureCommand::Free { id })
                &&& plan.rejected_deltas@ == rejected_of(old(self).textures@, delta_set@)
                &&& if vbytes > 0 && ibytes > 0 {
                    &&& final(self).vertex_buffer.capacity == grown_capacity(
                        old(self).vertex_buffer.capacity as int,
                        vbytes as int,
                    )
                    &&& final(self).index_buffer.capacity == grown_capacity(
                        old(self).index_buffer.capacity as int,
                        ibytes as int,
                    )
                    &&& final(self).vertex_buffer.capacity >= vbytes
                    &&& final(self).index_buffer.capacity >= ibytes
                    &&& plan.vertex_realloc == (if old(self).vertex_buffer.capacity <= vbytes {
                        Some(final(self).vertex_buffer.capacity)
                    } else {
                        None::<u64>
                    })
                    &&& plan.index_realloc == (if old(self).index_buffer.capacity <= ibytes {
                        Some(final(self).index_buffer.capacity)
                    } else {
                        None::<u64>
                    })
                    &&& plan.vertex_bytes@ == staged_vertex_bytes(triangles@)
                    &&& plan.index_bytes@ == staged_index_bytes(triangles@)
                    &&& plan.vertex_bytes@.len() == vbytes
                    &&& plan.index_bytes@.len() == ibytes
                    &&& plan.draws@ == draws_of(triangles@, final(self).textures@, *screen)
                } else {
                    &&& final(self).vertex_buffer == old(self).vertex_buffer
                    &&& final(self).index_buffer == old(self).index_buffer
                    &&& plan.vertex_realloc is None
                    &&& plan.index_realloc is None
                    &&& plan.vertex_bytes@ == Seq::<u8>::empty()
                    &&& plan.index_bytes@ == Seq::<u8>::empty()
                    &&& plan.draws@ == Seq::<DrawCommand>::empty()
                }
            },
            // A frame over an empty primitive list always succeeds and
            // produces exactly one background-clear pass with no draws.
            triangles@.len() == 0 ==> (r matches Ok(plan) && plan.draws@.len() == 0
                && plan.background_pass),
    {
        if find_callback(triangles) {
            return Err(FrameError::CallbackUnsupported);
        }
        let (mut texture_commands, rejected_deltas) = apply_texture_deltas(
            &mut self.textures,
            &mut self.samplers,
            delta_set,
        );
        let ghost delta_commands = texture_commands@;
        let mut i: usize = 0;
        while i < delta_free.len()
            invariant
                0 <= i <= delta_free@.len(),
                texture_commands@ == delta_commands + delta_free@.take(i as int).map_values(
                    |id: TextureId| TextureCommand::Free { id },
                ),
            decreases delta_free@.len() - i,
        {
            texture_commands.push(TextureCommand::Free { id: delta_free[i] });
            proof {
                assert(texture_commands@ =~= delta_commands + delta_free@.take(i + 1).map_values(
                    |id: TextureId| TextureCommand::Free { id },
                ));
            }
            i = i + 1;
        }
        proof {
            assert(delta_free@.take(delta_free@.len() as int) =~= delta_free@);
        }
        self.textures.release_textures(delta_free);
        let (vbytes, ibytes) = measure_buffer_size(triangles);
        if vbytes > 0 && ibytes > 0 {
            let vertex_realloc = self.vertex_buffer.ensure_capacity(vbytes);
            let index_realloc = self.index_buffer.ensure_capacity(ibytes);
            let vertex_bytes = stage_vertex_bytes(triangles);
            let index_bytes = stage_index_bytes(triangles);
            proof {
                lemma_staged_bytes_len(triangles@);
            }
            let draws = plan_draws(triangles, &self.textures, screen);
            Ok(
                FramePlan {
                    background_pass: true,
                    texture_commands,
                    rejected_deltas,
                    vertex_realloc,
                    index_realloc,
                    vertex_bytes,
                    index_bytes,
                    draws,
                },
            )
        } else {
            Ok(
                FramePlan {
                    background_pass: true,
                    texture_commands,
                    rejected_deltas,
                    vertex_realloc: None,
                    index_realloc: None,
                    vertex_bytes: Vec::new(),
                    index_bytes: Vec::new(),
                    draws: Vec::new(),
                },
            )
        }
    }
}

/// A planned prefix of the primitives yields a prefix of the frame's draws.
proof fn lemma_draws_prefix(
    ps: Seq<ClippedPrimitive>,
    n: int,
    m: Map<TextureId, TextureModel>,
    screen: ScreenDescriptor,
)
    requires
        0 <= n <= ps.len(),
    ensures
        draws_of(ps.take(n), m, screen).is_prefix_of(draws_of(ps, m, screen)),
    decreases ps.len(),
{
    let part = draws_of(ps.take(n), m, screen);
    let whole = draws_of(ps, m, screen);
    if n == ps.len() {
        assert(ps.take(n) =~= ps);
        assert(part =~= whole.subrange(0, part.len() as int));
    } else {
        assert(ps.drop_last().take(n) =~= ps.take(n));
        lemma_draws_prefix(ps.drop_last(), n, m, screen);
        let prev = draws_of(ps.drop_last(), m, screen);
        assert(part =~= prev.subrange(0, part.len() as int));
        assert(part =~= whole.subrange(0, part.len() as int));
    }
}

/// Planning more primitives never plans fewer draws.
proof fn lemma_draws_len_monotone(
    ps: Seq<ClippedPrimitive>,
    n1: int,
    n2: int,
    m: Map<TextureId, TextureModel>,
    screen: ScreenDescriptor,
)
    requires
        0 <= n1 <= n2 <= ps.len(),
    ensures
        draws_of(ps.take(n1), m, screen).len() <= draws_of(ps.take(n2), m, screen).len(),
{
    assert(ps.take(n2).take(n1) =~= ps.take(n1));
    lemma_draws_prefix(ps.take(n2), n1, m, screen);
}

/// Every drawable primitive's command sits in the frame's draw list at the
/// position given by the number of draws its predecessors produced.
pub proof fn lemma_draw_position(
    ps: Seq<ClippedPrimitive>,
    m: Map<TextureId, TextureModel>,
    screen: ScreenDescriptor,
    i: int,
)
    requires
        0 <= i < ps.len(),
        drawable(ps[i], screen),
    ensures
        ({
            let pos = draws_of(ps.take(i), m, screen).len();
            &&& pos < draws_of(ps, m, screen).len()
            &&& draws_of(ps, m, screen)[pos as int] == prim_command(ps, i, m, screen)
        }),
{
    let pos = draws_of(ps.take(i), m, screen).len();
    lemma_draws_take_step(ps, i, m, screen);
    lemma_draws_prefix(ps, i + 1, m, screen);
    let step = draws_of(ps.take(i + 1), m, screen);
    let whole = draws_of(ps, m, screen);
    assert(step =~= whole.subrange(0, step.len() as int));
    assert(whole[pos as int] == step[pos as int]);
}

/// Draw order is paint order: of two overlapping drawable primitives, the
/// later one's draw is submitted after the earlier one's, so with opaque
/// blending the later primitive's color wins in the overlap. The input
/// order is never reordered.
pub proof fn lemma_draw_order(
    ps: Seq<ClippedPrimitive>,
    m: Map<TextureId, TextureModel>,
    screen: ScreenDescriptor,
    i: int,
    j: int,
)
    requires
        0 <= i < j < ps.len(),
        drawable(ps[i], screen),
        drawable(ps[j], screen),
    ensures
        ({
            let pos_i = draws_of(ps.take(i), m, screen).len();
            let pos_j = draws_of(ps.take(j), m, screen).len();
            &&& pos_i < pos_j < draws_of(ps, m, screen).len()
            &&& draws_of(ps, m, screen)[pos_i as int] == prim_command(ps, i, m, screen)
            &&& draws_of(ps, m, screen)[pos_j as int] == prim_command(ps, j, m, screen)
        }),
{
    lemma_draw_position(ps, m, screen, i);
    lemma_draw_position(ps, m, screen, j);
    lemma_draws_take_step(ps, i, m, screen);
    lemma_draws_len_monotone(ps, i + 1, j, m, screen);
}

/// Every planned draw references a byte-range slice that lies inside the
/// frame's staged vertex and index data, so a draw never reads past what the
/// single contiguous staging write put in the shared buffers.
pub proof fn lemma_draw_ranges_bounded(
    ps: Seq<ClippedPrimitive>,
    m: Map<TextureId, TextureModel>,
    screen: ScreenDescriptor,
)
    requires
        VERTEX_BYTE_LEN * total_vertex_count(ps) <= u64::MAX,
        INDEX_BYTE_LEN * total_index_count(ps) <= u64::MAX,
    ensures
        forall|k: int|
            0 <= k < draws_of(ps, m, screen).len() ==> {
                let c = #[trigger] draws_of(ps, m, screen)[k];
                &&& c.vertex_start <= c.vertex_end <= VERTEX_BYTE_LEN * total_vertex_count(ps)
                &&& c.index_start <= c.index_end <= INDEX_BYTE_LEN * total_index_count(ps)
            },
    decreases ps.len(),
{
    if ps.len() > 0 {
        let n = ps.len() as int;
        let prev_ps = ps.drop_last();
        lemma_draw_ranges_bounded(prev_ps, m, screen);
        let whole = draws_of(ps, m, screen);
        let prev = draws_of(prev_ps, m, screen);
        assert forall|k: int| 0 <= k < whole.len() implies {
            let c = #[trigger] whole[k];
            &&& c.vertex_start <= c.vertex_end <= VERTEX_BYTE_LEN * total_vertex_count(ps)
            &&& c.index_start <= c.index_end <= INDEX_BYTE_LEN * total_index_count(ps)
        } by {
            if k < prev.len() {
                assert(whole[k] == prev[k]);
            } else {
                let c = prim_command(ps, n - 1, m, screen);
                assert(whole[k] == c);
                assert(ps.take(n - 1) =~= prev_ps);
                assert(ps.take(n) =~= ps);
            }
        }
    }
}

/// Evicting a texture id and then referencing it in a primitive renders
/// that primitive with the fallback resource: its planned draw binds the
/// fallback, and (by `render_frame`'s contract) the frame still succeeds.
pub proof fn lemma_evicted_texture_uses_fallback(
    ps: Seq<ClippedPrimitive>,
    m: Map<TextureId, TextureModel>,
    free: Seq<TextureId>,
    screen: ScreenDescriptor,
    i: int,
)
    requires
        0 <= i < ps.len(),
        drawable(ps[i], screen),
        ps[i].primitive matches Primitive::Mesh(mesh) && free.contains(mesh.texture_id),
    ensures
        ({
            let evicted = m.remove_keys(free.to_set());
            let pos = draws_of(ps.take(i), evicted, screen).len();
            draws_of(ps, evicted, screen)[pos as int].binding == TextureBinding::Fallback
        }),
{
    let evicted = m.remove_keys(free.to_set());
    lemma_draw_position(ps, evicted, screen, i);
}

/// Texture round trip: uploading a new texture for an id and then patching
/// a block of it in the same batch leaves, byte for byte, the patch's
/// texels inside the patched block and the original upload's texels
/// everywhere else.
pub proof fn lemma_texture_round_trip(
    m: Map<TextureId, TextureModel>,
    id: TextureId,
    fresh: TextureDelta,
    patch: TextureDelta,
    x: u32,
    y: u32,
)
    requires
        fresh.image.wf(),
        patch.image.wf(),
        fresh.pos is None,
        patch.pos == Some((x, y)),
        x + patch.image.width <= fresh.image.width,
        y + patch.image.height <= fresh.image.height,
    ensures
        ({
            let t = cache_after_deltas(m, seq![(id, fresh), (id, patch)])[id];
            &&& t.width == fresh.image.width
            &&& t.height == fresh.image.height
            &&& t.pixels.len() == fresh.image.pixels@.len()
            &&& forall|row: int, col: int|
                y <= row < y + patch.image.height && x <= col < x + patch.image.width
                    ==> #[trigger] t.pixels[row * fresh.image.width + col]
                    == patch.image.pixels@[(row - y) * patch.image.width + (col - x)]
            &&& forall|k: int|
                0 <= k < t.pixels.len() && !(y <= k / (fresh.image.width as int) < y
                    + patch.image.height && x <= k % (fresh.image.width as int) < x
                    + patch.image.width) ==> t.pixels[k] == fresh.image.pixels@[k]
        }),
{
    let ds = seq![(id, fresh), (id, patch)];
    assert(ds.drop_last() =~= seq![(id, fresh)]);
    let d1 = ds.drop_last();
    assert(d1.drop_last() =~= Seq::<(TextureId, TextureDelta)>::empty());
    let m1 = cache_after_deltas(m, d1);
    assert(cache_after_deltas(m, d1.drop_last()) == m);
    assert(d1.last() == (id, fresh));
    assert(m1 == apply_delta(m, id, fresh));
    assert(m1 == m.insert(id, delta_model(fresh)));
    assert(m1[id] == delta_model(fresh));
    let t = cache_after_deltas(m, ds)[id];
    let w = fresh.image.width as int;
    assert(t == patched_model(
        m1[id],
        x,
        y,
        patch.image.width,
        patch.image.height,
        patch.image.pixels@,
    ));
    assert forall|row: int, col: int|
        y <= row < y + patch.image.height && x <= col < x
            + patch.image.width implies #[trigger] t.pixels[row * w + col]
        == patch.image.pixels@[(row - y) * patch.image.width + (col - x)] by {
        let k = row * w + col;
        assert(0 <= k < fresh.image.width * fresh.image.height && k / w == row && k % w == col) by {
            assert(0 <= col < w);
            vstd::arithmetic::div_mod::lemma_fundamental_div_mod_converse(k, w, row, col);
            assert(row + 1 <= fresh.image.height);
            assert((row + 1) * w <= fresh.image.height * w) by (nonlinear_arith)
                requires
                    row + 1 <= fresh.image.height,
                    w >= 0,
            ;
            assert(k < (row + 1) * w) by (nonlinear_arith)
                requires
                    col < w,
                    k == row * w + col,
            ;
            assert(fresh.image.height * w == fresh.image.width * fresh.image.height)
                by (nonlinear_arith)
                requires
                    w == fresh.image.width,
            ;
            assert(k >= 0) by (nonlinear_arith)
                requires
                    row >= 0,
                    w >= 0,
                    col >= 0,
                    k == row * w + col,
            ;
        }
    }
}

} // verus!
