use frame_stream::buffer::{GpuBuffer, measure_buffer_size, stage_index_bytes, stage_vertex_bytes};
use frame_stream::geom::Rect;
use frame_stream::mesh::{ClippedPrimitive, Mesh, Primitive, TextureId, Vertex};

fn vertex(pos_x_bits: u32, color: u32) -> Vertex {
    Vertex { pos_x_bits, pos_y_bits: 0, u_bits: 0, v_bits: 0, color }
}

fn mesh_prim(vertices: Vec<Vertex>, indices: Vec<u32>) -> ClippedPrimitive {
    ClippedPrimitive {
        clip_rect: Rect { left: 0, top: 0, right: 256 * 100, bottom: 256 * 100 },
        primitive: Primitive::Mesh(Mesh { vertices, indices, texture_id: TextureId::Managed(0) }),
    }
}

#[test]
fn capacity_grows_to_twice_the_request() {
    let mut buffer = GpuBuffer::with_capacity(100);
    assert_eq!(buffer.ensure_capacity(100), Some(200));
    assert_eq!(buffer.capacity, 200);
    assert_eq!(buffer.ensure_capacity(500), Some(1000));
    assert_eq!(buffer.capacity, 1000);
}

#[test]
fn capacity_reused_when_strictly_larger() {
    let mut buffer = GpuBuffer::with_capacity(1000);
    assert_eq!(buffer.ensure_capacity(999), None);
    assert_eq!(buffer.capacity, 1000);
}

#[test]
fn capacity_never_decreases() {
    let mut buffer = GpuBuffer::with_capacity(0);
    let requests: [u64; 6] = [10, 500, 20, 20, 499, 1200];
    let mut last: u64 = 0;
    for r in requests {
        buffer.ensure_capacity(r);
        assert!(buffer.capacity >= r);
        assert!(buffer.capacity >= last);
        last = buffer.capacity;
    }
    assert_eq!(buffer.capacity, 2400);
}

#[test]
fn measure_sums_mesh_bytes_in_order() {
    let prims = vec![
        mesh_prim(vec![vertex(0, 0); 3], vec![0, 1, 2]),
        ClippedPrimitive {
            clip_rect: Rect { left: 0, top: 0, right: 256, bottom: 256 },
            primitive: Primitive::Callback,
        },
        mesh_prim(vec![vertex(0, 0); 4], vec![0, 1, 2, 2, 1, 3]),
    ];
    let (vbytes, ibytes) = measure_buffer_size(&prims);
    assert_eq!(vbytes, (3 + 4) * 20);
    assert_eq!(ibytes, (3 + 6) * 4);
}

#[test]
fn measure_empty_is_zero() {
    let prims: Vec<ClippedPrimitive> = Vec::new();
    assert_eq!(measure_buffer_size(&prims), (0, 0));
}

#[test]
fn staged_vertex_bytes_are_little_endian_fields() {
    let prims = vec![mesh_prim(
        vec![Vertex {
            pos_x_bits: 0x3f800000,
            pos_y_bits: 0x40000000,
            u_bits: 0x01020304,
            v_bits: 0,
            color: 0xaabbccdd,
        }],
        vec![0],
    )];
    let bytes = stage_vertex_bytes(&prims);
    assert_eq!(
        bytes,
        vec![
            0x00, 0x00, 0x80, 0x3f, // position x
            0x00, 0x00, 0x00, 0x40, // position y
            0x04, 0x03, 0x02, 0x01, // texture u
            0x00, 0x00, 0x00, 0x00, // texture v
            0xdd, 0xcc, 0xbb, 0xaa, // color
        ]
    );
}

#[test]
fn staged_index_bytes_concatenate_in_draw_order() {
    let prims = vec![
        mesh_prim(vec![vertex(0, 0); 3], vec![0, 1, 2]),
        mesh_prim(vec![vertex(0, 0); 3], vec![2, 0x01000001, 0]),
    ];
    let bytes = stage_index_bytes(&prims);
    assert_eq!(
        bytes,
        vec![
            0, 0, 0, 0, 1, 0, 0, 0, 2, 0, 0, 0, // first mesh
            2, 0, 0, 0, 1, 0, 0, 1, 0, 0, 0, 0, // second mesh
        ]
    );
}

#[test]
fn callback_stages_no_bytes() {
    let prims = vec![ClippedPrimitive {
        clip_rect: Rect { left: 0, top: 0, right: 256, bottom: 256 },
        primitive: Primitive::Callback,
    }];
    assert!(stage_vertex_bytes(&prims).is_empty());
    assert!(stage_index_bytes(&prims).is_empty());
}
