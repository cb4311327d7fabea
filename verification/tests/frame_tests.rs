use frame_stream::frame::{
    FrameError, FrameRenderer, INITIAL_INDEX_BUFFER_BYTES, INITIAL_VERTEX_BUFFER_BYTES,
    TextureBinding, TextureCommand,
};
use frame_stream::geom::{Rect, ScreenDescriptor};
use frame_stream::mesh::{ClippedPrimitive, Mesh, Primitive, TextureId, Vertex};
use frame_stream::surface::SurfaceFormat;
use frame_stream::texture::{
    Image, TextureDelta, TextureFilter, TextureOptions, TextureWrapMode,
};

fn renderer(width: u32, height: u32) -> FrameRenderer {
    let formats = vec![SurfaceFormat { code: 0, srgb: false }, SurfaceFormat { code: 1, srgb: true }];
    FrameRenderer::create(&formats, &vec![0], &vec![0], width, height)
}

fn screen(width: u32, height: u32) -> ScreenDescriptor {
    ScreenDescriptor { pixel_per_point: 256, screen_width: width, screen_height: height }
}

fn full_rect() -> Rect {
    Rect { left: 0, top: 0, right: 256 * 4000, bottom: 256 * 4000 }
}

fn vertex() -> Vertex {
    Vertex { pos_x_bits: 0, pos_y_bits: 0, u_bits: 0, v_bits: 0, color: 0xff0000ff }
}

fn mesh(vertex_count: usize, indices: Vec<u32>, texture_id: TextureId) -> ClippedPrimitive {
    ClippedPrimitive {
        clip_rect: full_rect(),
        primitive: Primitive::Mesh(Mesh {
            vertices: vec![vertex(); vertex_count],
            indices,
            texture_id,
        }),
    }
}

fn options() -> TextureOptions {
    TextureOptions {
        magnification: TextureFilter::Linear,
        minification: TextureFilter::Linear,
        wrap_mode: TextureWrapMode::ClampToEdge,
    }
}

fn upload_delta(id: TextureId) -> (TextureId, TextureDelta) {
    (
        id,
        TextureDelta {
            image: Image::new(1, 1, vec![0xffffffff]).unwrap(),
            pos: None,
            options: options(),
        },
    )
}

#[test]
fn empty_frame_is_clear_only() {
    let mut r = renderer(800, 600);
    r.request_resize(640, 480);
    let plan = r.render_frame(&screen(640, 480), &vec![], &vec![], &vec![]).unwrap();
    assert!(plan.background_pass);
    assert!(plan.draws.is_empty());
    assert!(plan.vertex_bytes.is_empty());
    assert!(plan.index_bytes.is_empty());
    assert_eq!(plan.vertex_realloc, None);
    assert_eq!(plan.index_realloc, None);
    assert!(plan.texture_commands.is_empty());
}

#[test]
fn resize_applies_only_the_new_size() {
    let mut r = renderer(800, 600);
    let format = r.config.format;
    r.request_resize(1024, 768);
    assert_eq!((r.config.width, r.config.height), (1024, 768));
    assert_eq!(r.config.format, format);
    // Idempotent: applying the same size again changes nothing.
    r.request_resize(1024, 768);
    assert_eq!((r.config.width, r.config.height), (1024, 768));
}

#[test]
fn callback_fails_with_named_error() {
    let mut r = renderer(800, 600);
    let prims = vec![
        mesh(3, vec![0, 1, 2], TextureId::Managed(0)),
        ClippedPrimitive { clip_rect: full_rect(), primitive: Primitive::Callback },
    ];
    let result = r.render_frame(&screen(800, 600), &prims, &vec![], &vec![]);
    assert_eq!(result.err(), Some(FrameError::CallbackUnsupported));
}

#[test]
fn draws_follow_input_order() {
    let mut r = renderer(800, 600);
    let a = mesh(3, vec![0, 1, 2], TextureId::Managed(0));
    let b = mesh(4, vec![0, 1, 2, 3, 2, 1], TextureId::Managed(0));
    let plan = r.render_frame(&screen(800, 600), &vec![a, b], &vec![], &vec![]).unwrap();
    assert_eq!(plan.draws.len(), 2);
    // A's draw is submitted before B's, so B paints over A in the overlap.
    assert_eq!((plan.draws[0].vertex_start, plan.draws[0].vertex_end), (0, 60));
    assert_eq!((plan.draws[0].index_start, plan.draws[0].index_end), (0, 12));
    assert_eq!(plan.draws[0].index_count, 3);
    assert_eq!((plan.draws[1].vertex_start, plan.draws[1].vertex_end), (60, 140));
    assert_eq!((plan.draws[1].index_start, plan.draws[1].index_end), (12, 36));
    assert_eq!(plan.draws[1].index_count, 6);
}

#[test]
fn skipped_primitive_keeps_its_byte_range() {
    let mut r = renderer(800, 600);
    let offscreen = ClippedPrimitive {
        clip_rect: Rect { left: 256 * 900, top: 0, right: 256 * 950, bottom: 256 * 100 },
        primitive: Primitive::Mesh(Mesh {
            vertices: vec![vertex(); 5],
            indices: vec![0, 1, 2],
            texture_id: TextureId::Managed(0),
        }),
    };
    let visible = mesh(3, vec![0, 1, 2], TextureId::Managed(0));
    let plan = r.render_frame(&screen(800, 600), &vec![offscreen, visible], &vec![], &vec![])
        .unwrap();
    // The clipped primitive stages its geometry but draws nothing; the
    // visible one still references its own slice.
    assert_eq!(plan.draws.len(), 1);
    assert_eq!((plan.draws[0].vertex_start, plan.draws[0].vertex_end), (100, 160));
    assert_eq!((plan.draws[0].index_start, plan.draws[0].index_end), (12, 24));
    assert_eq!(plan.vertex_bytes.len(), 160);
    assert_eq!(plan.index_bytes.len(), 24);
}

#[test]
fn zero_size_mesh_draws_without_error() {
    let mut r = renderer(800, 600);
    let empty_mesh = mesh(0, vec![], TextureId::Managed(0));
    let real_mesh = mesh(3, vec![0, 1, 2], TextureId::Managed(0));
    let plan = r.render_frame(&screen(800, 600), &vec![empty_mesh, real_mesh], &vec![], &vec![])
        .unwrap();
    assert_eq!(plan.draws.len(), 2);
    assert_eq!((plan.draws[0].vertex_start, plan.draws[0].vertex_end), (0, 0));
    assert_eq!(plan.draws[0].index_count, 0);
}

#[test]
fn buffers_grow_once_undersized() {
    let mut r = renderer(800, 600);
    assert_eq!(r.vertex_buffer.capacity, INITIAL_VERTEX_BUFFER_BYTES);
    assert_eq!(r.index_buffer.capacity, INITIAL_INDEX_BUFFER_BYTES);
    // 2048 vertices of 20 bytes exceed the initial 20480-byte buffer.
    let big = mesh(2048, (0..2048).collect(), TextureId::Managed(0));
    let plan = r.render_frame(&screen(800, 600), &vec![big], &vec![], &vec![]).unwrap();
    assert_eq!(plan.vertex_realloc, Some(2 * 2048 * 20));
    assert_eq!(r.vertex_buffer.capacity, 2 * 2048 * 20);
    assert_eq!(plan.index_realloc, None);
    assert_eq!(r.index_buffer.capacity, INITIAL_INDEX_BUFFER_BYTES);
}

#[test]
fn uploaded_texture_is_bound_same_frame() {
    let mut r = renderer(800, 600);
    let id = TextureId::User(3);
    let prims = vec![mesh(3, vec![0, 1, 2], id)];
    let plan = r.render_frame(&screen(800, 600), &prims, &vec![upload_delta(id)], &vec![])
        .unwrap();
    assert_eq!(plan.draws[0].binding, TextureBinding::Texture(id));
    assert_eq!(
        plan.texture_commands,
        vec![
            TextureCommand::CreateSampler { options: options() },
            TextureCommand::Upload { delta_index: 0 },
        ]
    );
}

#[test]
fn unknown_texture_uses_fallback_not_error() {
    let mut r = renderer(800, 600);
    let prims = vec![mesh(3, vec![0, 1, 2], TextureId::Managed(42))];
    let plan = r.render_frame(&screen(800, 600), &prims, &vec![], &vec![]).unwrap();
    assert_eq!(plan.draws[0].binding, TextureBinding::Fallback);
}

#[test]
fn evicted_texture_falls_back_without_error() {
    let mut r = renderer(800, 600);
    let id = TextureId::Managed(5);
    r.render_frame(&screen(800, 600), &vec![], &vec![upload_delta(id)], &vec![]).unwrap();

    // Next tick evicts the id and still references it in a primitive.
    let prims = vec![mesh(3, vec![0, 1, 2], id)];
    let plan = r.render_frame(&screen(800, 600), &prims, &vec![], &vec![id]).unwrap();
    assert_eq!(plan.draws[0].binding, TextureBinding::Fallback);
    assert_eq!(plan.texture_commands, vec![TextureCommand::Free { id }]);
}

#[test]
fn mesh_without_indices_stages_nothing() {
    let mut r = renderer(800, 600);
    // Vertices but no indices anywhere: the foreground pass is skipped.
    let prims = vec![mesh(3, vec![], TextureId::Managed(0))];
    let plan = r.render_frame(&screen(800, 600), &prims, &vec![], &vec![]).unwrap();
    assert!(plan.draws.is_empty());
    assert!(plan.vertex_bytes.is_empty());
    assert_eq!(plan.vertex_realloc, None);
}
