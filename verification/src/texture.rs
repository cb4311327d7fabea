//! Texture cache synchronization.
//!
//! The GUI layer streams incremental texture updates: brand-new images,
//! partial patches onto existing images, and evictions. The cache keeps, per
//! texture id, the full pixel state the GPU copy must have, together with
//! the sampling options the texture was created with. A separate sampler
//! cache amortizes sampler creation by remembering which sampling-mode keys
//! already have a sampler on the device.

use vstd::prelude::*;
use crate::mesh::TextureId;

verus! {

/// Texel magnification/minification filter of a sampler.
#[derive(Clone, Copy, Debug, PartialEq, Eq, Hash, Structural)]
pub enum TextureFilter {
    /// Nearest-neighbour sampling.
    Nearest,
    /// Linear interpolation.
    Linear,
}

/// How a sampler treats texture coordinates outside `[0, 1]`.
#[derive(Clone, Copy, Debug, PartialEq, Eq, Hash, Structural)]
pub enum TextureWrapMode {
    /// Stretch the edge texels outward.
    ClampToEdge,
    /// Tile the texture.
    Repeat,
    /// Tile the texture, mirroring every other repetition.
    MirroredRepeat,
}

/// Sampling options of a texture; doubles as the key of the sampler cache,
/// since many textures share identical sampling settings.
#[derive(Clone, Copy, Debug, PartialEq, Eq, Hash, Structural)]
pub struct TextureOptions {
    /// Filter used when a texel covers many pixels.
    pub magnification: TextureFilter,
    /// Filter used when many texels fall on one pixel.
    pub minification: TextureFilter,
    /// Wrap mode for both texture axes.
    pub wrap_mode: TextureWrapMode,
}

/// A rectangular block of RGBA texels, one packed 32-bit value per texel, in
/// row-major order.
pub struct Image {
    /// Width in texels.
    pub width: u32,
    /// Height in texels.
    pub height: u32,
    /// `width * height` packed texels, row-major.
    pub pixels: Vec<u32>,
}

impl Image {
    /// An image is well-formed when it holds exactly one texel per cell.
    pub open spec fn wf(self) -> bool {
        self.pixels@.len() == self.width * self.height
    }

    /// Build an image, rejecting pixel data that does not match the claimed
    /// size: a mismatch is a caller error and fails fast here rather than
    /// corrupting a texture later.
    pub fn new(width: u32, height: u32, pixels: Vec<u32>) -> (r: Option<Image>)
        ensures
            match r {
                Some(img) => img.wf() && img.width == width && img.height == height
                    && img.pixels@ == pixels@,
                None => pixels@.len() != width * height,
            },
    {
        proof {
            assert((width as int) * (height as int) < 0x10000000000000000) by (nonlinear_arith)
                requires
                    0 <= width < 0x100000000,
                    0 <= height < 0x100000000,
            ;
        }
        let expected: u64 = width as u64 * height as u64;
        if pixels.len() as u64 == expected {
            Some(Image { width, height, pixels })
        } else {
            None
        }
    }
}

/// One incremental texture update from the GUI layer: a brand-new texture
/// when `pos` is absent, an in-place patch at `pos` when it is present.
pub struct TextureDelta {
    /// Full image of a new texture, or the patch block.
    pub image: Image,
    /// Texel offset (left, top) of a patch inside the existing texture;
    /// `None` allocates a new texture.
    pub pos: Option<(u32, u32)>,
    /// Sampling options the texture should be bound with.
    pub options: TextureOptions,
}

/// Mathematical state of one cached texture.
pub struct TextureModel {
    /// Width in texels.
    pub width: u32,
    /// Height in texels.
    pub height: u32,
    /// The texels the GPU copy holds, row-major.
    pub pixels: Seq<u32>,
    /// Sampling options the resource was created with.
    pub options: TextureOptions,
}

/// One cached texture resource: the pixel state the GPU copy must hold plus
/// the sampling options its descriptor set was built with.
pub struct TextureResource {
    /// Width in texels.
    pub width: u32,
    /// Height in texels.
    pub height: u32,
    /// `width * height` packed texels, row-major.
    pub pixels: Vec<u32>,
    /// Sampling options of the bound sampler.
    pub options: TextureOptions,
}

impl TextureResource {
    /// A resource holds exactly one texel per cell.
    pub open spec fn wf(self) -> bool {
        self.pixels@.len() == self.width * self.height
    }
}

impl View for TextureResource {
    type V = TextureModel;

    open spec fn view(&self) -> TextureModel {
        TextureModel {
            width: self.width,
            height: self.height,
            pixels: self.pixels@,
            options: self.options,
        }
    }
}

/// Why a single texture delta was rejected. A rejected delta is reported
/// and skipped; the rest of the batch still applies.
#[derive(Clone, Copy, Debug, PartialEq, Eq, Structural)]
pub enum TextureError {
    /// A patch named an id the cache has never seen (or has evicted):
    /// patching a texture that was never created is a protocol violation by
    /// the caller.
    UnknownTexture,
    /// A patch would write outside the existing texture's extent; clipping
    /// it could corrupt adjacent texels, so it is rejected outright.
    PatchOutOfBounds,
}

/// Does a `width * height` patch at texel offset `(x, y)` lie inside the
/// texture's extent?
pub open spec fn patch_fits(t: TextureModel, x: u32, y: u32, width: u32, height: u32) -> bool {
    x + width <= t.width && y + height <= t.height
}

/// The texels of a texture of width `tex_w` after writing a `w * h` patch
/// at offset `(x, y)`: inside the patched block the patch's texel, outside
/// it the original one.
pub open spec fn patched_pixels(
    base: Seq<u32>,
    tex_w: int,
    x: int,
    y: int,
    w: int,
    h: int,
    patch: Seq<u32>,
) -> Seq<u32> {
    Seq::new(
        base.len(),
        |k: int|
            {
                let row = k / tex_w;
                let col = k % tex_w;
                if y <= row < y + h && x <= col < x + w {
                    patch[(row - y) * w + (col - x)]
                } else {
                    base[k]
                }
            },
    )
}

/// The model of a texture after an in-place patch.
pub open spec fn patched_model(
    t: TextureModel,
    x: u32,
    y: u32,
    w: u32,
    h: u32,
    patch: Seq<u32>,
) -> TextureModel {
    TextureModel {
        width: t.width,
        height: t.height,
        pixels: patched_pixels(t.pixels, t.width as int, x as int, y as int, w as int, h as int, patch),
        options: t.options,
    }
}

/// Keyed mapping from texture id to its GPU-resident resource. Keys are
/// unique; insertion order carries no meaning.
pub struct TextureCache {
    entries: Vec<(TextureId, TextureResource)>,
}

/// No id occurs twice in the entry list.
pub open spec fn distinct_keys(s: Seq<(TextureId, TextureResource)>) -> bool {
    forall|i: int, j: int| 0 <= i < j < s.len() ==> s[i].0 != s[j].0
}

/// The mapping an entry list denotes.
pub open spec fn entries_map(s: Seq<(TextureId, TextureResource)>) -> Map<TextureId, TextureModel>
    decreases s.len(),
{
    if s.len() == 0 {
        Map::empty()
    } else {
        entries_map(s.drop_last()).insert(s.last().0, s.last().1@)
    }
}

/// An id is in the denoted mapping exactly when some entry carries it.
proof fn lemma_entries_map_contains(s: Seq<(TextureId, TextureResource)>, id: TextureId)
    ensures
        entries_map(s).dom().contains(id) <==> exists|j: int| 0 <= j < s.len() && s[j].0 == id,
    decreases s.len(),
{
    if s.len() > 0 {
        lemma_entries_map_contains(s.drop_last(), id);
        if entries_map(s).dom().contains(id) {
            if s.last().0 == id {
                assert(s[s.len() - 1].0 == id);
            } else {
                let j = choose|j: int| 0 <= j < s.drop_last().len() && s.drop_last()[j].0 == id;
                assert(s[j].0 == id);
            }
        }
        if exists|j: int| 0 <= j < s.len() && s[j].0 == id {
            let j = choose|j: int| 0 <= j < s.len() && s[j].0 == id;
            if j < s.len() - 1 {
                assert(s.drop_last()[j].0 == id);
            }
        }
    }
}

/// With unique keys, the denoted mapping sends each entry's id to that
/// entry's model.
proof fn lemma_entries_map_get(s: Seq<(TextureId, TextureResource)>, j: int)
    requires
        distinct_keys(s),
        0 <= j < s.len(),
    ensures
        entries_map(s).dom().contains(s[j].0),
        entries_map(s)[s[j].0] == s[j].1@,
    decreases s.len(),
{
    if j == s.len() - 1 {
    } else {
        assert(distinct_keys(s.drop_last()));
        assert(s.drop_last()[j] == s[j]);
        lemma_entries_map_get(s.drop_last(), j);
        assert(s[j].0 != s.last().0);
    }
}

/// Replacing the entry at `j` by one with the same id updates the mapping
/// at that id only.
proof fn lemma_entries_map_update(
    s: Seq<(TextureId, TextureResource)>,
    j: int,
    e: TextureResource,
)
    requires
        distinct_keys(s),
        0 <= j < s.len(),
    ensures
        entries_map(s.update(j, (s[j].0, e))) =~= entries_map(s).insert(s[j].0, e@),
    decreases s.len(),
{
    let t = s.update(j, (s[j].0, e));
    if j == s.len() - 1 {
        assert(t.drop_last() =~= s.drop_last());
    } else {
        assert(t.drop_last() =~= s.drop_last().update(j, (s[j].0, e)));
        assert(distinct_keys(s.drop_last()));
        lemma_entries_map_update(s.drop_last(), j, e);
        assert(s[j].0 != s.last().0);
    }
}

/// Removing the entry at `j` removes exactly its id from the mapping.
proof fn lemma_entries_map_remove(s: Seq<(TextureId, TextureResource)>, j: int)
    requires
        distinct_keys(s),
        0 <= j < s.len(),
    ensures
        entries_map(s.remove(j)) =~= entries_map(s).remove(s[j].0),
    decreases s.len(),
{
    if j == s.len() - 1 {
        assert(s.remove(j) =~= s.drop_last());
        lemma_entries_map_contains(s.drop_last(), s[j].0);
        assert(forall|k: int|
            0 <= k < s.drop_last().len() ==> s.drop_last()[k].0 != s[j].0);
        assert(!entries_map(s.drop_last()).dom().contains(s[j].0));
        assert(entries_map(s.drop_last()).remove(s[j].0) =~= entries_map(s.drop_last()));
    } else {
        assert(s.remove(j).drop_last() =~= s.drop_last().remove(j));
        assert(s.remove(j).last() == s.last());
        assert(distinct_keys(s.drop_last()));
        lemma_entries_map_remove(s.drop_last(), j);
        assert(s[j].0 != s.last().0);
    }
}

impl View for TextureCache {
    type V = Map<TextureId, TextureModel>;

    closed spec fn view(&self) -> Map<TextureId, TextureModel> {
        entries_map(self.entries@)
    }
}

impl TextureCache {
    /// The cache's keys are unique and every held resource is well-formed.
    pub closed spec fn wf(self) -> bool {
        &&& distinct_keys(self.entries@)
        &&& forall|j: int| 0 <= j < self.entries@.len() ==> (#[trigger] self.entries@[j].1).wf()
    }

    /// An empty cache.
    pub fn new() -> (r: TextureCache)
        ensures
            r.wf(),
            r@ == Map::<TextureId, TextureModel>::empty(),
    {
        TextureCache { entries: Vec::new() }
    }

    /// Index of the entry holding `id`, if any.
    fn position(&self, id: TextureId) -> (r: Option<usize>)
        ensures
            match r {
                Some(j) => j < self.entries@.len() && self.entries@[j as int].0 == id,
                None => forall|k: int| 0 <= k < self.entries@.len() ==> self.entries@[k].0 != id,
            },
    {
        let mut i: usize = 0;
        while i < self.entries.len()
            invariant
                0 <= i <= self.entries@.len(),
                forall|k: int| 0 <= k < i ==> self.entries@[k].0 != id,
            decreases self.entries@.len() - i,
        {
            if self.entries[i].0 == id {
                return Some(i);
            }
            i = i + 1;
        }
        None
    }

    /// Look a texture up by id. `None` is not an error at this level: a
    /// primitive that references a missing id is drawn with the fallback
    /// resource instead.
    pub fn lookup(&self, id: TextureId) -> (r: Option<&TextureResource>)
        requires
            self.wf(),
        ensures
            match r {
                Some(e) => self@.dom().contains(id) && e@ == self@[id] && e.wf(),
                None => !self@.dom().contains(id),
            },
    {
        proof {
            lemma_entries_map_contains(self.entries@, id);
        }
        match self.position(id) {
            Some(j) => {
                proof {
                    lemma_entries_map_get(self.entries@, j as int);
                }
                Some(&self.entries[j].1)
            },
            None => None,
        }
    }

    /// Insert a texture under `id`, overwriting whatever the id previously
    /// named.
    pub fn insert(&mut self, id: TextureId, resource: TextureResource)
        requires
            old(self).wf(),
            resource.wf(),
        ensures
            final(self).wf(),
            final(self)@ == old(self)@.insert(id, resource@),
    {
        proof {
            lemma_entries_map_contains(self.entries@, id);
        }
        match self.position(id) {
            Some(j) => {
                proof {
                    lemma_entries_map_update(self.entries@, j as int, resource);
                }
                self.entries[j] = (id, resource);
                proof {
                    assert forall|a: int, b: int|
                        0 <= a < b < self.entries@.len() implies self.entries@[a].0
                        != self.entries@[b].0 by {
                        assert(old(self).entries@[a].0 == self.entries@[a].0 || a == j);
                        assert(old(self).entries@[b].0 == self.entries@[b].0 || b == j);
                    }
                }
            },
            None => {
                self.entries.push((id, resource));
                proof {
                    assert(self.entries@.drop_last() =~= old(self).entries@);
                }
            },
        }
    }

    /// Remove the texture `id` names, if any; removing an absent id is a
    /// no-op.
    pub fn remove(&mut self, id: TextureId)
        requires
            old(self).wf(),
        ensures
            final(self).wf(),
            final(self)@ == old(self)@.remove(id),
    {
        proof {
            lemma_entries_map_contains(self.entries@, id);
        }
        match self.position(id) {
            Some(j) => {
                proof {
                    lemma_entries_map_remove(self.entries@, j as int);
                }
                self.entries.remove(j);
            },
            None => {
                proof {
                    assert(!old(self)@.dom().contains(id));
                    assert(old(self)@.remove(id) =~= old(self)@);
                }
            },
        }
    }

    /// Remove every texture named in `ids`. Referencing an evicted id in a
    /// later primitive is a caller error that downgrades that primitive to
    /// the fallback resource; it never fails the frame.
    pub fn release_textures(&mut self, ids: &Vec<TextureId>)
        requires
            old(self).wf(),
        ensures
            final(self).wf(),
            final(self)@ == old(self)@.remove_keys(ids@.to_set()),
    {
        let mut i: usize = 0;
        proof {
            assert(old(self)@.remove_keys(ids@.take(0).to_set()) =~= old(self)@);
        }
        while i < ids.len()
            invariant
                0 <= i <= ids@.len(),
                self.wf(),
                self@ == old(self)@.remove_keys(ids@.take(i as int).to_set()),
            decreases ids@.len() - i,
        {
            self.remove(ids[i]);
            proof {
                assert(ids@.take(i + 1).to_set() =~= ids@.take(i as int).to_set().insert(
                    ids@[i as int],
                )) by {
                    assert forall|x: TextureId| #[trigger] ids@.take(i + 1).to_set().contains(x)
                        implies ids@.take(i as int).to_set().insert(ids@[i as int]).contains(x) by {
                        let k = choose|k: int|
                            0 <= k < ids@.take(i + 1).len() && #[trigger] ids@.take(i + 1)[k] == x;
                        if k < i {
                            assert(ids@.take(i as int)[k] == x);
                            assert(ids@.take(i as int).to_set().contains(x));
                        }
                    }
                    assert forall|x: TextureId|
                        ids@.take(i as int).to_set().insert(ids@[i as int]).contains(x)
                        implies #[trigger] ids@.take(i + 1).to_set().contains(x) by {
                        if x == ids@[i as int] {
                            assert(ids@.take(i + 1)[i as int] == x);
                        } else {
                            let k = choose|k: int|
                                0 <= k < ids@.take(i as int).len() && ids@.take(i as int)[k] == x;
                            assert(ids@.take(i + 1)[k] == x);
                        }
                    }
                }
                assert(old(self)@.remove_keys(ids@.take(i as int).to_set()).remove(ids@[i as int])
                    =~= old(self)@.remove_keys(ids@.take(i + 1).to_set()));
            }
            i = i + 1;
        }
        proof {
            assert(ids@.take(ids@.len() as int) =~= ids@);
        }
    }

    /// Write the block `patch` into the texture `id` names, at texel offset
    /// `(x, y)`. Fails with `UnknownTexture` when the id was never created
    /// (or was evicted) and with `PatchOutOfBounds` when the block would
    /// not lie inside the texture; a failed patch changes nothing.
    pub fn patch(&mut self, id: TextureId, x: u32, y: u32, patch: &Image) -> (r: Result<
        (),
        TextureError,
    >)
        requires
            old(self).wf(),
            patch.wf(),
        ensures
            final(self).wf(),
            match r {
                Ok(()) => old(self)@.dom().contains(id) && patch_fits(
                    old(self)@[id],
                    x,
                    y,
                    patch.width,
                    patch.height,
                ) && final(self)@ == old(self)@.insert(
                    id,
                    patched_model(old(self)@[id], x, y, patch.width, patch.height, patch.pixels@),
                ),
                Err(TextureError::UnknownTexture) => !old(self)@.dom().contains(id) && final(self)@
                    == old(self)@,
                Err(TextureError::PatchOutOfBounds) => old(self)@.dom().contains(id) && !patch_fits(
                    old(self)@[id],
                    x,
                    y,
                    patch.width,
                    patch.height,
                ) && final(self)@ == old(self)@,
            },
    {
        proof {
            lemma_entries_map_contains(self.entries@, id);
        }
        let j = match self.position(id) {
            Some(j) => j,
            None => {
                return Err(TextureError::UnknownTexture);
            },
        };
        proof {
            lemma_entries_map_get(self.entries@, j as int);
        }
        let tex_w: u32 = self.entries[j].1.width;
        let tex_h: u32 = self.entries[j].1.height;
        if x as u64 + patch.width as u64 > tex_w as u64 || y as u64 + patch.height as u64
            > tex_h as u64 {
            return Err(TextureError::PatchOutOfBounds);
        }
        let patch_len: usize = patch.pixels.len();
        let ghost target = patched_pixels(
            self.entries@[j as int].1.pixels@,
            tex_w as int,
            x as int,
            y as int,
            patch.width as int,
            patch.height as int,
            patch.pixels@,
        );
        let base = &self.entries[j].1.pixels;
        let mut out: Vec<u32> = Vec::new();
        let mut k: usize = 0;
        while k < base.len()
            invariant
                0 <= k <= base@.len(),
                base@.len() == tex_w * tex_h,
                patch.wf(),
                patch_len == patch.pixels@.len(),
                x + patch.width <= tex_w,
                y + patch.height <= tex_h,
                out@.len() == k,
                target == patched_pixels(
                    base@,
                    tex_w as int,
                    x as int,
                    y as int,
                    patch.width as int,
                    patch.height as int,
                    patch.pixels@,
                ),
                forall|t: int| 0 <= t < k ==> out@[t] == target[t],
            decreases base@.len() - k,
        {
            proof {
                if tex_w == 0 {
                    assert(base@.len() == 0);
                }
            }
            let row: usize = k / (tex_w as usize);
            let col: usize = k % (tex_w as usize);
            let value: u32 = if y as usize <= row && row < y as usize + patch.height as usize
                && x as usize <= col && col < x as usize + patch.width as usize {
                proof {
                    assert((row - y) * patch.width + (col - x) < patch.height * patch.width)
                        by (nonlinear_arith)
                        requires
                            0 <= row - y < patch.height,
                            0 <= col - x < patch.width,
                    ;
                    assert(patch.pixels@.len() == patch.width * patch.height);
                    assert(patch.width * patch.height == patch.height * patch.width)
                        by (nonlinear_arith);
                    assert((row - y) * patch.width + (col - x) < patch_len);
                }
                let p64: u64 = (row as u64 - y as u64) * (patch.width as u64) + (col as u64
                    - x as u64);
                let p: usize = p64 as usize;
                patch.pixels[p]
            } else {
                base[k]
            };
            out.push(value);
            k = k + 1;
        }
        proof {
            assert(out@ =~= target);
        }
        let resource = TextureResource {
            width: tex_w,
            height: tex_h,
            pixels: out,
            options: self.entries[j].1.options,
        };
        proof {
            assert(resource.wf());
            lemma_entries_map_update(self.entries@, j as int, resource);
        }
        self.entries[j] = (id, resource);
        proof {
            assert forall|a: int, b: int|
                0 <= a < b < self.entries@.len() implies self.entries@[a].0
                != self.entries@[b].0 by {
                assert(old(self).entries@[a].0 == self.entries@[a].0 || a == j);
                assert(old(self).entries@[b].0 == self.entries@[b].0 || b == j);
            }
        }
        Ok(())
    }
}

/// Cache of the sampling-mode keys that already have a device sampler, so
/// equivalent samplers are created once and reused.
pub struct SamplerCache {
    keys: Vec<TextureOptions>,
}

impl View for SamplerCache {
    type V = Set<TextureOptions>;

    closed spec fn view(&self) -> Set<TextureOptions> {
        self.keys@.to_set()
    }
}

impl SamplerCache {
    /// An empty sampler cache.
    pub fn new() -> (r: SamplerCache)
        ensures
            r@ == Set::<TextureOptions>::empty(),
    {
        let keys: Vec<TextureOptions> = Vec::new();
        proof {
            assert(keys@.to_set() =~= Set::<TextureOptions>::empty());
        }
        SamplerCache { keys }
    }

    /// Record that a sampler for `options` exists, reporting whether one
    /// still has to be created on the device (true exactly when the key was
    /// new).
    pub fn ensure(&mut self, options: TextureOptions) -> (created: bool)
        ensures
            final(self)@ == old(self)@.insert(options),
            created <==> !old(self)@.contains(options),
    {
        let mut i: usize = 0;
        while i < self.keys.len()
            invariant
                0 <= i <= self.keys@.len(),
                forall|k: int| 0 <= k < i ==> self.keys@[k] != options,
                self == old(self),
            decreases self.keys@.len() - i,
        {
            if self.keys[i] == options {
                proof {
                    assert(self.keys@.to_set().contains(options));
                    assert(old(self)@.insert(options) =~= old(self)@);
                }
                return false;
            }
            i = i + 1;
        }
        proof {
            if old(self)@.contains(options) {
                let k = choose|k: int| 0 <= k < self.keys@.len() && self.keys@[k] == options;
                assert(false);
            }
        }
        self.keys.push(options);
        proof {
            assert(self.keys@.to_set() =~= old(self)@.insert(options)) by {
                assert forall|o: TextureOptions| #[trigger] self.keys@.to_set().contains(o)
                    implies old(self)@.insert(options).contains(o) by {
                    let k = choose|k: int| 0 <= k < self.keys@.len() && self.keys@[k] == o;
                    if k < self.keys@.len() - 1 {
                        assert(old(self).keys@[k] == o);
                    }
                }
                assert forall|o: TextureOptions| old(self)@.insert(options).contains(o)
                    implies #[trigger] self.keys@.to_set().contains(o) by {
                    if o == options {
                        assert(self.keys@[self.keys@.len() - 1] == o);
                    } else {
                        let k = choose|k: int|
                            0 <= k < old(self).keys@.len() && old(self).keys@[k] == o;
                        assert(self.keys@[k] == o);
                    }
                }
            }
        }
        true
    }
}

} // verus!
