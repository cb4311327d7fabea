use frame_stream::frame::{TextureCommand, apply_texture_deltas};
use frame_stream::mesh::TextureId;
use frame_stream::texture::{
    Image, SamplerCache, TextureCache, TextureDelta, TextureError, TextureFilter, TextureOptions,
    TextureWrapMode,
};

fn linear_options() -> TextureOptions {
    TextureOptions {
        magnification: TextureFilter::Linear,
        minification: TextureFilter::Linear,
        wrap_mode: TextureWrapMode::ClampToEdge,
    }
}

fn nearest_options() -> TextureOptions {
    TextureOptions {
        magnification: TextureFilter::Nearest,
        minification: TextureFilter::Nearest,
        wrap_mode: TextureWrapMode::Repeat,
    }
}

fn image(width: u32, height: u32, pixels: Vec<u32>) -> Image {
    Image::new(width, height, pixels).unwrap()
}

fn new_delta(width: u32, height: u32, pixels: Vec<u32>) -> TextureDelta {
    TextureDelta { image: image(width, height, pixels), pos: None, options: linear_options() }
}

fn patch_delta(x: u32, y: u32, width: u32, height: u32, pixels: Vec<u32>) -> TextureDelta {
    TextureDelta {
        image: image(width, height, pixels),
        pos: Some((x, y)),
        options: linear_options(),
    }
}

#[test]
fn image_rejects_mismatched_pixel_count() {
    assert!(Image::new(2, 2, vec![1, 2, 3]).is_none());
    assert!(Image::new(2, 2, vec![1, 2, 3, 4]).is_some());
}

#[test]
fn new_then_patch_round_trip_is_byte_exact() {
    let id = TextureId::Managed(7);
    let mut textures = TextureCache::new();
    let mut samplers = SamplerCache::new();
    let original: Vec<u32> = (0..16).collect();
    let patch: Vec<u32> = vec![100, 101, 110, 111];
    let deltas = vec![
        (id, new_delta(4, 4, original.clone())),
        (id, patch_delta(0, 0, 2, 2, patch.clone())),
    ];
    let (_, rejected) = apply_texture_deltas(&mut textures, &mut samplers, &deltas);
    assert!(rejected.is_empty());
    let resource = textures.lookup(id).unwrap();
    assert_eq!(resource.width, 4);
    assert_eq!(resource.height, 4);
    for row in 0..4usize {
        for col in 0..4usize {
            let expected = if row < 2 && col < 2 {
                patch[row * 2 + col]
            } else {
                original[row * 4 + col]
            };
            assert_eq!(resource.pixels[row * 4 + col], expected);
        }
    }
}

#[test]
fn patch_at_offset_leaves_surroundings_untouched() {
    let id = TextureId::User(1);
    let mut cache = TextureCache::new();
    let mut samplers = SamplerCache::new();
    let deltas = vec![(id, new_delta(3, 3, vec![0; 9]))];
    apply_texture_deltas(&mut cache, &mut samplers, &deltas);
    let r = cache.patch(id, 1, 1, &image(2, 2, vec![5, 6, 7, 8]));
    assert_eq!(r, Ok(()));
    let resource = cache.lookup(id).unwrap();
    assert_eq!(resource.pixels, vec![0, 0, 0, 0, 5, 6, 0, 7, 8]);
}

#[test]
fn patch_unknown_id_is_rejected() {
    let mut cache = TextureCache::new();
    let r = cache.patch(TextureId::Managed(9), 0, 0, &image(1, 1, vec![1]));
    assert_eq!(r, Err(TextureError::UnknownTexture));
}

#[test]
fn patch_out_of_bounds_is_rejected_outright() {
    let id = TextureId::Managed(2);
    let mut cache = TextureCache::new();
    let mut samplers = SamplerCache::new();
    let deltas = vec![(id, new_delta(2, 2, vec![9, 9, 9, 9]))];
    apply_texture_deltas(&mut cache, &mut samplers, &deltas);
    let r = cache.patch(id, 1, 1, &image(2, 2, vec![1, 2, 3, 4]));
    assert_eq!(r, Err(TextureError::PatchOutOfBounds));
    // The texture is unchanged.
    assert_eq!(cache.lookup(id).unwrap().pixels, vec![9, 9, 9, 9]);
}

#[test]
fn rejected_delta_does_not_stop_the_batch() {
    let known = TextureId::Managed(1);
    let ghost_id = TextureId::Managed(2);
    let mut cache = TextureCache::new();
    let mut samplers = SamplerCache::new();
    let deltas = vec![
        (known, new_delta(1, 1, vec![1])),
        (ghost_id, patch_delta(0, 0, 1, 1, vec![2])),
        (known, patch_delta(0, 0, 1, 1, vec![3])),
    ];
    let (_, rejected) = apply_texture_deltas(&mut cache, &mut samplers, &deltas);
    assert_eq!(rejected, vec![(ghost_id, TextureError::UnknownTexture)]);
    assert_eq!(cache.lookup(known).unwrap().pixels, vec![3]);
    assert!(cache.lookup(ghost_id).is_none());
}

#[test]
fn new_delta_overwrites_existing_id() {
    let id = TextureId::Managed(4);
    let mut cache = TextureCache::new();
    let mut samplers = SamplerCache::new();
    let deltas = vec![
        (id, new_delta(1, 1, vec![1])),
        (id, new_delta(2, 1, vec![2, 3])),
    ];
    apply_texture_deltas(&mut cache, &mut samplers, &deltas);
    let resource = cache.lookup(id).unwrap();
    assert_eq!((resource.width, resource.height), (2, 1));
    assert_eq!(resource.pixels, vec![2, 3]);
}

#[test]
fn release_evicts_every_named_id() {
    let a = TextureId::Managed(1);
    let b = TextureId::User(1);
    let mut cache = TextureCache::new();
    let mut samplers = SamplerCache::new();
    let deltas = vec![(a, new_delta(1, 1, vec![1])), (b, new_delta(1, 1, vec![2]))];
    apply_texture_deltas(&mut cache, &mut samplers, &deltas);
    cache.release_textures(&vec![a, TextureId::Managed(99)]);
    assert!(cache.lookup(a).is_none());
    assert!(cache.lookup(b).is_some());
}

#[test]
fn samplers_are_created_once_per_key() {
    let mut cache = TextureCache::new();
    let mut samplers = SamplerCache::new();
    let deltas = vec![
        (TextureId::Managed(1), new_delta(1, 1, vec![1])),
        (TextureId::Managed(2), new_delta(1, 1, vec![2])),
        (
            TextureId::Managed(3),
            TextureDelta {
                image: image(1, 1, vec![3]),
                pos: None,
                options: nearest_options(),
            },
        ),
    ];
    let (commands, _) = apply_texture_deltas(&mut cache, &mut samplers, &deltas);
    assert_eq!(
        commands,
        vec![
            TextureCommand::CreateSampler { options: linear_options() },
            TextureCommand::Upload { delta_index: 0 },
            TextureCommand::Upload { delta_index: 1 },
            TextureCommand::CreateSampler { options: nearest_options() },
            TextureCommand::Upload { delta_index: 2 },
        ]
    );
}

#[test]
fn sampler_cache_reports_new_keys_only() {
    let mut samplers = SamplerCache::new();
    assert!(samplers.ensure(linear_options()));
    assert!(!samplers.ensure(linear_options()));
    assert!(samplers.ensure(nearest_options()));
    assert!(!samplers.ensure(nearest_options()));
}
