//! The texture atlas: content keys, tiles, atlas textures and the atlas
//! manager that packs rasterized content into shared textures, deduplicates
//! it by key, and queues texture uploads for the GPU layer to flush.

use vstd::prelude::*;

use crate::geometry::{Bounds, DevicePixels, GridRect, Point, Size};
use crate::packer::{
    entry_in_grid, entry_rect, packer_allocate, packer_grid, packer_new, packer_rects,
    packer_untouched,
};
use std::collections::HashMap;

verus! {

broadcast use vstd::std_specs::hash::group_hash_axioms;

/// The side of the texture a freshly created atlas texture gets at least.
pub const DEFAULT_ATLAS_SIDE: i32 = 1024;

/// Which partition a piece of content lives in: single-channel or RGBA.
#[derive(Clone, Copy, Debug, PartialEq, Eq, Hash, Structural)]
pub enum AtlasTextureKind {
    Monochrome,
    Polychrome,
}

/// Bytes per pixel of a texture of the given kind.
pub open spec fn kind_bytes_per_pixel(kind: AtlasTextureKind) -> int {
    match kind {
        AtlasTextureKind::Monochrome => 1,
        AtlasTextureKind::Polychrome => 4,
    }
}

/// Identifies one physical atlas texture: its slot within its kind's
/// partition, and the kind.
#[derive(Clone, Copy, Debug, PartialEq, Eq, Hash, Structural)]
pub struct AtlasTextureId {
    pub index: u32,
    pub kind: AtlasTextureKind,
}

/// The rectangle allocator's identifier for a tile's allocation.
#[derive(Clone, Copy, Debug, PartialEq, Eq, Hash, Structural)]
pub struct TileId(pub u32);

/// A value uniquely identifying a piece of rasterized content. Equal keys
/// always resolve to the same tile while the tile is live. The caller owns
/// the identifier space; the kind selects the texture partition.
#[derive(Clone, Copy, Debug, PartialEq, Eq, Hash, Structural)]
pub struct AtlasKey {
    pub id: u64,
    pub kind: AtlasTextureKind,
}

impl AtlasKey {
    /// The texture partition this key's content lives in.
    pub fn texture_kind(&self) -> (k: AtlasTextureKind)
        ensures
            k == self.kind,
    {
        self.kind
    }
}

/// An allocated sub-rectangle of an atlas texture holding one piece of
/// content.
#[derive(Clone, Copy, Debug, PartialEq, Eq, Hash, Structural)]
pub struct AtlasTile {
    pub texture_id: AtlasTextureId,
    pub tile_id: TileId,
    pub padding: u32,
    pub bounds: Bounds,
}

/// A queued texture upload: the destination texture and rectangle, and the
/// pixel bytes to copy there.
pub struct PendingUpload {
    pub id: AtlasTextureId,
    pub bounds: Bounds,
    pub data: Vec<u8>,
}

/// The spec-level content of a pending upload.
pub ghost struct UploadModel {
    pub id: AtlasTextureId,
    pub bounds: Bounds,
    pub data: Seq<u8>,
}

impl View for PendingUpload {
    type V = UploadModel;

    open spec fn view(&self) -> UploadModel {
        UploadModel { id: self.id, bounds: self.bounds, data: self.data@ }
    }
}

/// The spec-level state of one atlas texture: its identity, its fixed size,
/// its pixel width, how many live keys reference it, and the rectangles of
/// the tiles carved out of it, in order of creation.
pub ghost struct TextureModel {
    pub id: AtlasTextureId,
    pub width: int,
    pub height: int,
    pub bytes_per_pixel: int,
    pub live: int,
    pub tiles: Seq<GridRect>,
}

impl TextureModel {
    /// True when the rectangle lies inside this texture and covers at least
    /// one pixel.
    pub open spec fn holds_rect(self, r: GridRect) -> bool {
        &&& 0 <= r.x0 < r.x1 <= self.width
        &&& 0 <= r.y0 < r.y1 <= self.height
    }
}

/// One atlas texture: its identity, the rectangle allocator that packs it,
/// its fixed size, pixel format width, and a live-tile count for
/// whole-texture lifecycle decisions.
pub struct AtlasTexture {
    pub id: AtlasTextureId,
    pub allocator: etagere::BucketedAtlasAllocator,
    pub size: Size,
    pub bytes_per_pixel: u8,
    pub live_atlas_keys: u32,
    pub tile_rects: Ghost<Seq<GridRect>>,
}

impl View for AtlasTexture {
    type V = TextureModel;

    open spec fn view(&self) -> TextureModel {
        TextureModel {
            id: self.id,
            width: self.size.width.0 as int,
            height: self.size.height.0 as int,
            bytes_per_pixel: self.bytes_per_pixel as int,
            live: self.live_atlas_keys as int,
            tiles: self.tile_rects@,
        }
    }
}

impl AtlasTexture {
    /// Internal consistency: the allocator was made for this texture's grid,
    /// every tile rectangle sits inside its own live allocation, and the live
    /// allocations are pairwise disjoint and inside the grid.
    pub open spec fn wf(self) -> bool {
        let rects = packer_rects(self.allocator);
        let grid = (self.size.width.0 as int, self.size.height.0 as int);
        &&& 1 <= self.size.width.0 < 65535
        &&& 1 <= self.size.height.0 < 65535
        &&& self.size.width.0 * self.size.height.0 <= 0x7fff_ffff
        &&& packer_grid(self.allocator) == grid
        &&& self.bytes_per_pixel as int == kind_bytes_per_pixel(self.id.kind)
        &&& self.tile_rects@.len() == rects.len()
        &&& forall|i: int| 0 <= i < rects.len() ==> entry_in_grid(#[trigger] rects[i], grid)
        &&& forall|i: int|
            0 <= i < rects.len() ==> (#[trigger] self.tile_rects@[i]).inside(entry_rect(rects[i]))
                && self.tile_rects@[i].nonempty()
        &&& forall|i: int, j: int|
            0 <= i < j < rects.len() ==> !entry_rect(#[trigger] rects[i]).overlaps(
                entry_rect(#[trigger] rects[j]),
            )
    }

    /// The live tile rectangles of a well-formed atlas texture never overlap.
    pub proof fn lemma_live_tiles_disjoint(self)
        requires
            self.wf(),
        ensures
            forall|i: int, j: int|
                0 <= i < j < self@.tiles.len() ==> !(#[trigger] self@.tiles[i]).overlaps(
                    #[trigger] self@.tiles[j],
                ),
    {
        let rects = packer_rects(self.allocator);
        assert forall|i: int, j: int|
            0 <= i < j < self@.tiles.len() implies !(#[trigger] self@.tiles[i]).overlaps(
            #[trigger] self@.tiles[j],
        ) by {
            crate::geometry::lemma_inside_preserves_disjoint(
                self@.tiles[i],
                self@.tiles[j],
                entry_rect(rects[i]),
                entry_rect(rects[j]),
            );
        }
    }

    /// Create a texture of the given size for the given slot and kind, with
    /// no tiles yet and a fresh, untouched allocator.
    pub fn new(id: AtlasTextureId, size: Size, bytes_per_pixel: u8) -> (r: AtlasTexture)
        requires
            1 <= size.width.0 < 65535,
            1 <= size.height.0 < 65535,
            size.width.0 * size.height.0 <= 0x7fff_ffff,
            bytes_per_pixel as int == kind_bytes_per_pixel(id.kind),
        ensures
            r.wf(),
            packer_untouched(r.allocator),
            r@ == (TextureModel {
                id,
                width: size.width.0 as int,
                height: size.height.0 as int,
                bytes_per_pixel: bytes_per_pixel as int,
                live: 0,
                tiles: Seq::<GridRect>::empty(),
            }),
    {
        AtlasTexture {
            id,
            allocator: packer_new(size.width.0, size.height.0),
            size,
            bytes_per_pixel,
            live_atlas_keys: 0,
            tile_rects: Ghost(Seq::empty()),
        }
    }

    /// Allocate space for a tile of exactly `size` pixels. On success the
    /// tile's rectangle lies inside this texture and is disjoint from every
    /// tile handed out before; on failure (texture full) nothing changes. A
    /// fitting request on a texture whose allocator is still untouched cannot
    /// fail. The height cap is the allocator's shelf rounding limit.
    pub fn allocate(&mut self, size: Size) -> (r: Option<AtlasTile>)
        requires
            old(self).wf(),
            1 <= size.width.0,
            1 <= size.height.0 <= 65472,
        ensures
            final(self).wf(),
            packer_untouched(old(self).allocator) && size.width.0 <= old(self)@.width
                && size.height.0 <= old(self)@.height ==> r is Some,
            match r {
                Some(tile) => {
                    &&& tile.texture_id == old(self)@.id
                    &&& tile.bounds.size == size
                    &&& old(self)@.holds_rect(tile.bounds.rect())
                    &&& final(self)@ == (TextureModel {
                        live: final(self)@.live,
                        tiles: old(self)@.tiles.push(tile.bounds.rect()),
                        ..old(self)@
                    })
                    &&& final(self)@.live == if old(self)@.live == u32::MAX as int {
                        old(self)@.live
                    } else {
                        old(self)@.live + 1
                    }
                    &&& forall|i: int|
                        0 <= i < old(self)@.tiles.len() ==> !tile.bounds.rect().overlaps(
                            #[trigger] old(self)@.tiles[i],
                        )
                },
                None => final(self)@ == old(self)@,
            },
    {
        let packed = packer_allocate(&mut self.allocator, size.width.0, size.height.0)?;
        let bounds = Bounds {
            origin: Point { x: DevicePixels(packed.min_x), y: DevicePixels(packed.min_y) },
            size,
        };
        proof {
            self.tile_rects@ = self.tile_rects@.push(bounds.rect());
        }
        self.live_atlas_keys = self.live_atlas_keys.saturating_add(1);
        let ghost prev = old(self)@.tiles;
        assert forall|i: int| 0 <= i < prev.len() implies !bounds.rect().overlaps(
            #[trigger] prev[i],
        ) by {
            crate::geometry::lemma_inside_preserves_disjoint(
                bounds.rect(),
                prev[i],
                entry_rect(packed.entry()),
                entry_rect(packer_rects(old(self).allocator)[i]),
            );
        }
        Some(
            AtlasTile {
                texture_id: self.id,
                tile_id: TileId(packed.id),
                padding: 0,
                bounds,
            },
        )
    }

    /// One live key stopped referencing this texture.
    pub fn decrement_ref_count(&mut self)
        ensures
            final(self)@ == (TextureModel { live: final(self)@.live, ..old(self)@ }),
            final(self)@.live == if old(self)@.live == 0 {
                0int
            } else {
                old(self)@.live - 1
            },
            old(self).wf() ==> final(self).wf(),
    {
        self.live_atlas_keys = self.live_atlas_keys.saturating_sub(1);
    }
}

/// The texture models of a texture list, in slot order.
pub open spec fn tex_models(ts: Seq<AtlasTexture>) -> Seq<TextureModel> {
    ts.map_values(|t: AtlasTexture| t@)
}

/// Every texture in the list is well formed and sits in the slot its
/// identifier names.
pub open spec fn list_wf(ts: Seq<AtlasTexture>, kind: AtlasTextureKind) -> bool {
    &&& ts.len() <= u32::MAX
    &&& forall|i: int|
        0 <= i < ts.len() ==> (#[trigger] ts[i]).wf() && ts[i].id == (AtlasTextureId {
            index: i as u32,
            kind,
        })
}

/// Content a caller may insert: a positive width below the allocator's 65535
/// per-side limit, a positive height at most 65472 (the allocator rounds a
/// requested height up to a 64-pixel multiple inside a `u16`), an area within
/// its `i32` space accounting, and exactly
/// `width * height * bytes_per_pixel` pixel bytes.
pub open spec fn content_legal(kind: AtlasTextureKind, size: Size, data: Seq<u8>) -> bool {
    &&& 1 <= size.width.0 < 65535
    &&& 1 <= size.height.0 <= 65472
    &&& size.width.0 * size.height.0 <= 0x7fff_ffff
    &&& data.len() == size.width.0 * size.height.0 * kind_bytes_per_pixel(kind)
}

/// A 32-bit counter bumped by one, staying put at its maximum.
pub open spec fn bump32(x: int) -> int {
    if x >= u32::MAX {
        x
    } else {
        x + 1
    }
}

/// A texture took on one more tile with the given rectangle: the rectangle
/// lies inside the texture, does not overlap any tile handed out before, and
/// everything but the tile list and the live count is unchanged.
pub open spec fn texture_gained_tile(before: TextureModel, after: TextureModel, r: GridRect) -> bool {
    &&& after == (TextureModel { live: after.live, tiles: before.tiles.push(r), ..before })
    &&& after.live == bump32(before.live)
    &&& before.holds_rect(r)
    &&& forall|i: int| 0 <= i < before.tiles.len() ==> !r.overlaps(#[trigger] before.tiles[i])
}

/// A texture list took on one tile of exactly `size` pixels for the given
/// kind: either an existing texture gained it, or a fresh texture was
/// appended, sized to at least the default side or the request if larger,
/// holding the one tile.
pub open spec fn allocated_in(
    before: Seq<TextureModel>,
    after: Seq<TextureModel>,
    kind: AtlasTextureKind,
    size: Size,
    tile: AtlasTile,
) -> bool {
    let idx = tile.texture_id.index as int;
    &&& tile.texture_id.kind == kind
    &&& tile.bounds.size == size
    &&& 0 <= idx < after.len()
    &&& if idx < before.len() {
        &&& after == before.update(idx, after[idx])
        &&& texture_gained_tile(before[idx], after[idx], tile.bounds.rect())
    } else {
        &&& idx == before.len()
        &&& after == before.push(after[idx])
        &&& after[idx].id == tile.texture_id
        &&& after[idx].width == if size.width.0 >= DEFAULT_ATLAS_SIDE {
            size.width.0 as int
        } else {
            DEFAULT_ATLAS_SIDE as int
        }
        &&& after[idx].height == if size.height.0 >= DEFAULT_ATLAS_SIDE {
            size.height.0 as int
        } else {
            DEFAULT_ATLAS_SIDE as int
        }
        &&& after[idx].bytes_per_pixel == kind_bytes_per_pixel(kind)
        &&& after[idx].live == 1
        &&& after[idx].tiles == seq![tile.bounds.rect()]
        &&& after[idx].holds_rect(tile.bounds.rect())
    }
}

/// The spec-level state of the whole atlas.
pub ghost struct AtlasModel {
    pub tiles: Map<u64, AtlasTile>,
    pub monochrome: Seq<TextureModel>,
    pub polychrome: Seq<TextureModel>,
    pub uploads: Seq<UploadModel>,
    pub hits: int,
    pub misses: int,
}

impl AtlasModel {
    /// The texture partition of the given kind.
    pub open spec fn textures(self, kind: AtlasTextureKind) -> Seq<TextureModel> {
        match kind {
            AtlasTextureKind::Monochrome => self.monochrome,
            AtlasTextureKind::Polychrome => self.polychrome,
        }
    }

    /// The tile points at an existing texture slot of its kind.
    pub open spec fn tile_registered(self, tile: AtlasTile) -> bool {
        tile.texture_id.index < self.textures(tile.texture_id.kind).len()
    }
}

/// The atlas changed only by counting one more miss.
pub open spec fn atlas_unchanged_miss(before: AtlasModel, after: AtlasModel) -> bool {
    &&& after == (AtlasModel { misses: after.misses, ..before })
    &&& after.misses == bump32(before.misses)
}

/// The atlas cached a new tile for `key` holding content of the given size
/// and bytes: some texture of the key's kind gained the tile, the key now
/// maps to it, an upload of the bytes to the tile's rectangle was queued, and
/// one more miss was counted.
pub open spec fn atlas_inserted(
    before: AtlasModel,
    after: AtlasModel,
    key: AtlasKey,
    size: Size,
    data: Seq<u8>,
    tile: AtlasTile,
) -> bool {
    &&& allocated_in(before.textures(key.kind), after.textures(key.kind), key.kind, size, tile)
    &&& match key.kind {
        AtlasTextureKind::Monochrome => after.polychrome == before.polychrome,
        AtlasTextureKind::Polychrome => after.monochrome == before.monochrome,
    }
    &&& after.tiles == before.tiles.insert(key.id, tile)
    &&& after.uploads == before.uploads.push(
        UploadModel { id: tile.texture_id, bounds: tile.bounds, data },
    )
    &&& after.hits == before.hits
    &&& after.misses == bump32(before.misses)
}

/// What one cache miss did to the atlas, given what the content builder
/// returned: nothing was cached if the builder produced no content or if the
/// content was not legal; legal content was cached under a fresh tile. The
/// one refusal of legal content is the texture-slot index space (a `u32`)
/// being exhausted, on which nothing is cached.
pub open spec fn miss_outcome(
    before: AtlasModel,
    after: AtlasModel,
    key: AtlasKey,
    built: Option<(Size, Vec<u8>)>,
    r: Option<AtlasTile>,
) -> bool {
    match built {
        None => r is None && atlas_unchanged_miss(before, after),
        Some((size, data)) => {
            if !content_legal(key.kind, size, data@) {
                r is None && atlas_unchanged_miss(before, after)
            } else {
                match r {
                    Some(tile) => atlas_inserted(before, after, key, size, data@, tile),
                    None => atlas_unchanged_miss(before, after) && before.textures(key.kind).len()
                        >= u32::MAX,
                }
            }
        },
    }
}

/// Information about one atlas texture, enough for the GPU layer to create
/// and bind the real texture.
#[derive(Clone, Copy, Debug, PartialEq, Eq, Structural)]
pub struct WebAtlasTextureInfo {
    pub id: AtlasTextureId,
    pub size: Size,
    pub bytes_per_pixel: u8,
}

/// The atlas manager: a growable collection of atlas textures partitioned by
/// kind, a cache from content keys to live tiles, the pending-upload queue,
/// and per-frame hit/miss counters.
pub struct WebGpuAtlas {
    pub monochrome_textures: Vec<AtlasTexture>,
    pub polychrome_textures: Vec<AtlasTexture>,
    pub tiles_by_key: HashMap<u64, AtlasTile>,
    pub uploads: Vec<PendingUpload>,
    pub hits: u32,
    pub misses: u32,
}

impl View for WebGpuAtlas {
    type V = AtlasModel;

    open spec fn view(&self) -> AtlasModel {
        AtlasModel {
            tiles: self.tiles_by_key@,
            monochrome: tex_models(self.monochrome_textures@),
            polychrome: tex_models(self.polychrome_textures@),
            uploads: self.uploads@.map_values(|u: PendingUpload| u@),
            hits: self.hits as int,
            misses: self.misses as int,
        }
    }
}

impl WebGpuAtlas {
    /// Internal consistency: both texture partitions are well formed and
    /// every cached tile points at an existing texture of its kind.
    pub open spec fn wf(self) -> bool {
        &&& list_wf(self.monochrome_textures@, AtlasTextureKind::Monochrome)
        &&& list_wf(self.polychrome_textures@, AtlasTextureKind::Polychrome)
        &&& forall|k: u64|
            self.tiles_by_key@.contains_key(k) ==> self@.tile_registered(
                #[trigger] self.tiles_by_key@[k],
            )
    }

    /// A fresh atlas: no textures, no cached tiles, no pending uploads.
    pub fn new() -> (r: WebGpuAtlas)
        ensures
            r.wf(),
            r@ == (AtlasModel {
                tiles: Map::<u64, AtlasTile>::empty(),
                monochrome: Seq::<TextureModel>::empty(),
                polychrome: Seq::<TextureModel>::empty(),
                uploads: Seq::<UploadModel>::empty(),
                hits: 0,
                misses: 0,
            }),
    {
        let r = WebGpuAtlas {
            monochrome_textures: Vec::new(),
            polychrome_textures: Vec::new(),
            tiles_by_key: HashMap::new(),
            uploads: Vec::new(),
            hits: 0,
            misses: 0,
        };
        proof {
            assert(r@.monochrome =~= Seq::<TextureModel>::empty());
            assert(r@.polychrome =~= Seq::<TextureModel>::empty());
            assert(r@.uploads =~= Seq::<UploadModel>::empty());
        }
        r
    }
}

/// A fresh texture sized up to the default side keeps its area within the
/// allocator's `i32` space accounting.
proof fn lemma_fresh_area(w: int, h: int)
    requires
        1 <= w < 65535,
        1 <= h < 65535,
        w * h <= 0x7fff_ffff,
    ensures
        (if w >= DEFAULT_ATLAS_SIDE {
            w
        } else {
            DEFAULT_ATLAS_SIDE as int
        }) * (if h >= DEFAULT_ATLAS_SIDE {
            h
        } else {
            DEFAULT_ATLAS_SIDE as int
        }) <= 0x7fff_ffff,
{
    let side = DEFAULT_ATLAS_SIDE as int;
    let fw = if w >= side {
        w
    } else {
        side
    };
    let fh = if h >= side {
        h
    } else {
        side
    };
    if w >= side && h >= side {
        assert(fw * fh <= 0x7fff_ffff);
    } else if w < side && h < side {
        assert(fw * fh == side * side) by (nonlinear_arith)
            requires
                fw == side && fh == side,
        ;
    } else if w < side {
        assert(fw * fh <= 1024 * 65534) by (nonlinear_arith)
            requires
                fw == 1024 && fh == h && 1 <= h < 65535,
        ;
    } else {
        assert(fw * fh <= 65534 * 1024) by (nonlinear_arith)
            requires
                fh == 1024 && fw == w && 1 <= w < 65535,
        ;
    }
}

/// Try every texture of the list, most recently created first; if none has
/// room, append a fresh texture sized to at least the default side (or the
/// request if larger) and allocate there, which cannot fail: the only refusal
/// is the slot index space (a `u32`) being exhausted.
fn allocate_in_list(list: &mut Vec<AtlasTexture>, size: Size, kind: AtlasTextureKind) -> (r: Option<
    AtlasTile,
>)
    requires
        list_wf(old(list)@, kind),
        1 <= size.width.0 < 65535,
        1 <= size.height.0 <= 65472,
        size.width.0 * size.height.0 <= 0x7fff_ffff,
    ensures
        list_wf(final(list)@, kind),
        match r {
            Some(tile) => allocated_in(
                tex_models(old(list)@),
                tex_models(final(list)@),
                kind,
                size,
                tile,
            ),
            None => tex_models(final(list)@) == tex_models(old(list)@),
        },
        r is None ==> old(list)@.len() >= u32::MAX,
{
    let mut i: usize = list.len();
    while i > 0
        invariant
            list_wf(list@, kind),
            i <= list@.len(),
            list@.len() == old(list)@.len(),
            tex_models(list@) == tex_models(old(list)@),
            1 <= size.width.0 < 65535,
            1 <= size.height.0 <= 65472,
        decreases i,
    {
        i -= 1;
        let ghost pre = list@;
        let t = &mut list[i];
        let got = t.allocate(size);
        match got {
            Some(tile) => {
                proof {
                    assert(pre[i as int].id == AtlasTextureId { index: i as u32, kind });
                    assert(tile.texture_id == pre[i as int]@.id);
                    assert(tile.texture_id.index as int == i as int);
                    assert(tex_models(pre)[i as int] == pre[i as int]@);
                    assert(tex_models(list@)[i as int] == list@[i as int]@);
                    assert(tex_models(list@) =~= tex_models(pre).update(i as int, list@[i as int]@));
                    assert(tex_models(pre) == tex_models(old(list)@));
                    assert(texture_gained_tile(
                        tex_models(old(list)@)[i as int],
                        list@[i as int]@,
                        tile.bounds.rect(),
                    ));
                    assert(allocated_in(
                        tex_models(old(list)@),
                        tex_models(list@),
                        kind,
                        size,
                        tile,
                    ));
                }
                return Some(tile);
            },
            None => {
                proof {
                    assert(tex_models(list@) =~= tex_models(pre));
                }
            },
        }
    }
    if list.len() >= 0xffff_ffffusize {
        return None;
    }
    let index: u32 = list.len() as u32;
    let default_size = Size {
        width: DevicePixels(DEFAULT_ATLAS_SIDE),
        height: DevicePixels(DEFAULT_ATLAS_SIDE),
    };
    let tex_size = size.max(&default_size);
    proof {
        lemma_fresh_area(size.width.0 as int, size.height.0 as int);
    }
    let bpp: u8 = match kind {
        AtlasTextureKind::Monochrome => 1u8,
        AtlasTextureKind::Polychrome => 4u8,
    };
    let mut tex = AtlasTexture::new(AtlasTextureId { index, kind }, tex_size, bpp);
    let got = tex.allocate(size);
    match got {
        Some(tile) => {
            let ghost fresh = tex@;
            list.push(tex);
            proof {
                assert(tex_models(list@) =~= tex_models(old(list)@).push(fresh));
                assert(fresh.tiles =~= seq![tile.bounds.rect()]);
                assert(allocated_in(tex_models(old(list)@), tex_models(list@), kind, size, tile));
            }
            Some(tile)
        },
        None => None,
    }
}

/// Bytes per pixel of content of the given kind.
pub fn bytes_per_pixel_of(kind: AtlasTextureKind) -> (r: u8)
    ensures
        r as int == kind_bytes_per_pixel(kind),
{
    match kind {
        AtlasTextureKind::Monochrome => 1u8,
        AtlasTextureKind::Polychrome => 4u8,
    }
}

/// A tile of exactly `size` pixels was carved out of some texture of the
/// given kind; nothing else about the atlas changed.
pub open spec fn atlas_allocated(
    before: AtlasModel,
    after: AtlasModel,
    kind: AtlasTextureKind,
    size: Size,
    tile: AtlasTile,
) -> bool {
    &&& allocated_in(before.textures(kind), after.textures(kind), kind, size, tile)
    &&& match kind {
        AtlasTextureKind::Monochrome => after.polychrome == before.polychrome,
        AtlasTextureKind::Polychrome => after.monochrome == before.monochrome,
    }
    &&& after.tiles == before.tiles
    &&& after.uploads == before.uploads
    &&& after.hits == before.hits
    &&& after.misses == before.misses
}

/// What a tile removal does to the owning texture partition: the key is gone
/// from the cache and the owning texture's live count drops by one; the tile's
/// rectangle is not returned to the allocator (conservative reuse policy).
pub open spec fn atlas_removed(before: AtlasModel, after: AtlasModel, id: u64) -> bool {
    let tile = before.tiles[id];
    let kind = tile.texture_id.kind;
    let idx = tile.texture_id.index as int;
    &&& after.tiles == before.tiles.remove(id)
    &&& after.uploads == before.uploads
    &&& after.hits == before.hits
    &&& after.misses == before.misses
    &&& match kind {
        AtlasTextureKind::Monochrome => after.polychrome == before.polychrome,
        AtlasTextureKind::Polychrome => after.monochrome == before.monochrome,
    }
    &&& 0 <= idx < before.textures(kind).len()
    &&& after.textures(kind) == before.textures(kind).update(idx, after.textures(kind)[idx])
    &&& after.textures(kind)[idx] == (TextureModel {
        live: after.textures(kind)[idx].live,
        ..before.textures(kind)[idx]
    })
    &&& after.textures(kind)[idx].live == if before.textures(kind)[idx].live == 0 {
        0int
    } else {
        before.textures(kind)[idx].live - 1
    }
}

impl WebGpuAtlas {
    /// Allocate a tile of exactly `size` pixels in the partition of the given
    /// kind: the most recently created texture is tried first, older ones in
    /// reverse creation order, and on total failure a fresh texture is
    /// created and used, which cannot fail; the only refusal is the slot
    /// index space (a `u32`) being exhausted.
    fn allocate(&mut self, size: Size, kind: AtlasTextureKind) -> (r: Option<AtlasTile>)
        requires
            old(self).wf(),
            1 <= size.width.0 < 65535,
            1 <= size.height.0 <= 65472,
            size.width.0 * size.height.0 <= 0x7fff_ffff,
        ensures
            final(self).wf(),
            match r {
                Some(tile) => atlas_allocated(old(self)@, final(self)@, kind, size, tile),
                None => final(self)@ == old(self)@,
            },
            r is None ==> old(self)@.textures(kind).len() >= u32::MAX,
    {
        let r = match kind {
            AtlasTextureKind::Monochrome => allocate_in_list(
                &mut self.monochrome_textures,
                size,
                kind,
            ),
            AtlasTextureKind::Polychrome => allocate_in_list(
                &mut self.polychrome_textures,
                size,
                kind,
            ),
        };
        proof {
            if r is Some {
                let tile = r->Some_0;
                assert(self@.textures(kind).len() >= old(self)@.textures(kind).len());
                assert forall|k: u64| self.tiles_by_key@.contains_key(k) implies self@.tile_registered(
                    #[trigger] self.tiles_by_key@[k],
                ) by {
                    assert(old(self)@.tile_registered(self.tiles_by_key@[k]));
                }
            }
        }
        r
    }

    /// Look the key up; on a miss, call `build` exactly once, and if it
    /// yields legal content, allocate a tile, queue the upload, and cache the
    /// tile under the key. Legal content is always given a tile: capacity
    /// exhaustion creates a new texture rather than failing the caller, and
    /// the contract's one refusal is the texture-slot index space (a `u32`)
    /// being exhausted. Two calls with an equal key between a
    /// cache-populating call and a removal of that key return the identical
    /// tile. `build` is taken by value as `FnOnce`, so the type itself admits
    /// at most one invocation; the body invokes it exactly once on a miss and
    /// never on a hit.
    pub fn get_or_insert_with<F: FnOnce() -> Option<(Size, Vec<u8>)>>(
        &mut self,
        key: &AtlasKey,
        build: F,
    ) -> (r: Option<AtlasTile>)
        requires
            old(self).wf(),
            call_requires(build, ()),
        ensures
            final(self).wf(),
            old(self)@.tiles.contains_key(key.id) ==> {
                &&& r == Some(old(self)@.tiles[key.id])
                &&& final(self)@ == (AtlasModel { hits: final(self)@.hits, ..old(self)@ })
                &&& final(self)@.hits == bump32(old(self)@.hits)
            },
            !old(self)@.tiles.contains_key(key.id) ==> exists|b: Option<(Size, Vec<u8>)>|
                #[trigger] call_ensures(build, (), b) && miss_outcome(
                    old(self)@,
                    final(self)@,
                    *key,
                    b,
                    r,
                ),
    {
        let cached = self.tiles_by_key.get(&key.id);
        if let Some(tile) = cached {
            let t = *tile;
            self.hits = self.hits.saturating_add(1);
            return Some(t);
        }
        self.misses = self.misses.saturating_add(1);
        let built = build();
        match built {
            None => {
                proof {
                    assert(call_ensures(build, (), built));
                    assert(miss_outcome(old(self)@, self@, *key, built, None::<AtlasTile>));
                }
                None
            },
            Some((size, data)) => {
                let ghost built_snapshot: Option<(Size, Vec<u8>)> = Some((size, data));
                let w = size.width.0;
                let h = size.height.0;
                if w < 1 || w >= 65535 || h < 1 || h > 65472 {
                    proof {
                        assert(call_ensures(build, (), built_snapshot));
                        assert(miss_outcome(
                            old(self)@,
                            self@,
                            *key,
                            built_snapshot,
                            None::<AtlasTile>,
                        ));
                    }
                    return None;
                }
                proof {
                    assert((w as int) * (h as int) <= 65534 * 65534) by (nonlinear_arith)
                        requires
                            1 <= w as int <= 65534,
                            1 <= h as int <= 65534,
                    ;
                }
                let area: u64 = (w as u64) * (h as u64);
                let bpp: u64 = bytes_per_pixel_of(key.texture_kind()) as u64;
                proof {
                    assert((area as int) * (bpp as int) <= 65534 * 65534 * 4) by (nonlinear_arith)
                        requires
                            0 <= area as int <= 65534 * 65534,
                            0 <= bpp as int <= 4,
                    ;
                }
                let need: u64 = area * bpp;
                if area > 0x7fff_ffff || (data.len() as u64) != need {
                    proof {
                        assert(call_ensures(build, (), built_snapshot));
                        assert(miss_outcome(
                            old(self)@,
                            self@,
                            *key,
                            built_snapshot,
                            None::<AtlasTile>,
                        ));
                    }
                    return None;
                }
                let ghost data_view = data@;
                let tile_opt = self.allocate(size, key.texture_kind());
                match tile_opt {
                    None => {
                        proof {
                            assert(call_ensures(build, (), built_snapshot));
                            assert(miss_outcome(
                                old(self)@,
                                self@,
                                *key,
                                built_snapshot,
                                None::<AtlasTile>,
                            ));
                        }
                        None
                    },
                    Some(tile) => {
                        let ghost mid = self@;
                        self.uploads.push(
                            PendingUpload { id: tile.texture_id, bounds: tile.bounds, data },
                        );
                        self.tiles_by_key.insert(key.id, tile);
                        proof {
                            assert(self@.uploads =~= mid.uploads.push(
                                UploadModel { id: tile.texture_id, bounds: tile.bounds, data: data_view },
                            ));
                            assert(call_ensures(build, (), built_snapshot));
                            assert(atlas_inserted(
                                old(self)@,
                                self@,
                                *key,
                                size,
                                data_view,
                                tile,
                            ));
                            assert forall|k: u64| self.tiles_by_key@.contains_key(k)
                                implies self@.tile_registered(#[trigger] self.tiles_by_key@[k]) by {
                                if k != key.id {
                                    assert(mid.tile_registered(self.tiles_by_key@[k]));
                                }
                            }
                        }
                        Some(tile)
                    },
                }
            },
        }
    }

    /// Evict the key's cache entry and drop the owning texture's live-tile
    /// count by one. Removing a key that was never inserted changes nothing.
    pub fn remove(&mut self, key: &AtlasKey)
        requires
            old(self).wf(),
        ensures
            final(self).wf(),
            !old(self)@.tiles.contains_key(key.id) ==> final(self)@ == old(self)@,
            old(self)@.tiles.contains_key(key.id) ==> atlas_removed(
                old(self)@,
                final(self)@,
                key.id,
            ),
    {
        let removed = self.tiles_by_key.remove(&key.id);
        match removed {
            None => {
                proof {
                    assert(self.tiles_by_key@ =~= old(self).tiles_by_key@);
                }
            },
            Some(tile) => {
                let ghost mid = self@;
                let idx = tile.texture_id.index as usize;
                match tile.texture_id.kind {
                    AtlasTextureKind::Monochrome => {
                        let ghost pre = self.monochrome_textures@;
                        let t = &mut self.monochrome_textures[idx];
                        t.decrement_ref_count();
                        proof {
                            assert(tex_models(self.monochrome_textures@) =~= tex_models(pre).update(
                                idx as int,
                                self.monochrome_textures@[idx as int]@,
                            ));
                        }
                    },
                    AtlasTextureKind::Polychrome => {
                        let ghost pre = self.polychrome_textures@;
                        let t = &mut self.polychrome_textures[idx];
                        t.decrement_ref_count();
                        proof {
                            assert(tex_models(self.polychrome_textures@) =~= tex_models(pre).update(
                                idx as int,
                                self.polychrome_textures@[idx as int]@,
                            ));
                        }
                    },
                }
                proof {
                    assert forall|k: u64| self.tiles_by_key@.contains_key(k)
                        implies self@.tile_registered(#[trigger] self.tiles_by_key@[k]) by {
                        assert(old(self)@.tile_registered(self.tiles_by_key@[k]));
                    }
                }
            },
        }
    }

    /// Drain the pending-upload queue for the GPU layer to copy into the
    /// textures, and reset the per-frame hit/miss counters. After the call
    /// the queue is empty.
    pub fn flush_uploads(&mut self) -> (r: Vec<PendingUpload>)
        ensures
            r@ == old(self).uploads@,
            final(self)@ == (AtlasModel {
                uploads: Seq::<UploadModel>::empty(),
                hits: 0,
                misses: 0,
                ..old(self)@
            }),
            old(self).wf() ==> final(self).wf(),
    {
        let mut out: Vec<PendingUpload> = Vec::new();
        core::mem::swap(&mut out, &mut self.uploads);
        self.hits = 0;
        self.misses = 0;
        proof {
            assert(self@.uploads =~= Seq::<UploadModel>::empty());
        }
        out
    }

    /// Information about the texture the identifier names, if it exists.
    pub fn get_texture_info(&self, id: AtlasTextureId) -> (r: Option<WebAtlasTextureInfo>)
        requires
            self.wf(),
        ensures
            match r {
                Some(info) => {
                    &&& id.index < self@.textures(id.kind).len()
                    &&& info.id == id
                    &&& info.size.width.0 as int == self@.textures(id.kind)[id.index as int].width
                    &&& info.size.height.0 as int == self@.textures(id.kind)[id.index as int].height
                    &&& info.bytes_per_pixel as int == self@.textures(id.kind)[
                        id.index as int
                    ].bytes_per_pixel
                },
                None => id.index >= self@.textures(id.kind).len(),
            },
    {
        let list = match id.kind {
            AtlasTextureKind::Monochrome => &self.monochrome_textures,
            AtlasTextureKind::Polychrome => &self.polychrome_textures,
        };
        if (id.index as usize) < list.len() {
            let t = &list[id.index as usize];
            Some(WebAtlasTextureInfo { id: t.id, size: t.size, bytes_per_pixel: t.bytes_per_pixel })
        } else {
            None
        }
    }
}

impl WebGpuAtlas {
    /// Information about every monochrome texture, in slot order.
    pub fn monochrome_textures(&self) -> (r: Vec<WebAtlasTextureInfo>)
        requires
            self.wf(),
        ensures
            r@.len() == self@.monochrome.len(),
            forall|i: int|
                0 <= i < r@.len() ==> info_matches(#[trigger] r@[i], self@.monochrome[i]),
    {
        infos_of(&self.monochrome_textures)
    }

    /// Information about every polychrome texture, in slot order.
    pub fn polychrome_textures(&self) -> (r: Vec<WebAtlasTextureInfo>)
        requires
            self.wf(),
        ensures
            r@.len() == self@.polychrome.len(),
            forall|i: int|
                0 <= i < r@.len() ==> info_matches(#[trigger] r@[i], self@.polychrome[i]),
    {
        infos_of(&self.polychrome_textures)
    }

    /// Tear the whole atlas down: drop every texture, cached tile and queued
    /// upload, and reset the counters. The GPU layer releases the real
    /// textures it created for the slots.
    pub fn destroy(&mut self)
        ensures
            final(self).wf(),
            final(self)@ == (AtlasModel {
                tiles: Map::<u64, AtlasTile>::empty(),
                monochrome: Seq::<TextureModel>::empty(),
                polychrome: Seq::<TextureModel>::empty(),
                uploads: Seq::<UploadModel>::empty(),
                hits: 0,
                misses: 0,
            }),
    {
        self.monochrome_textures.clear();
        self.polychrome_textures.clear();
        self.tiles_by_key.clear();
        self.uploads.clear();
        self.hits = 0;
        self.misses = 0;
        proof {
            assert(self@.monochrome =~= Seq::<TextureModel>::empty());
            assert(self@.polychrome =~= Seq::<TextureModel>::empty());
            assert(self@.uploads =~= Seq::<UploadModel>::empty());
        }
    }
}

/// The info record describes the texture model.
pub open spec fn info_matches(info: WebAtlasTextureInfo, t: TextureModel) -> bool {
    &&& info.id == t.id
    &&& info.size.width.0 as int == t.width
    &&& info.size.height.0 as int == t.height
    &&& info.bytes_per_pixel as int == t.bytes_per_pixel
}

/// The info records of a texture list, in slot order.
fn infos_of(list: &Vec<AtlasTexture>) -> (r: Vec<WebAtlasTextureInfo>)
    ensures
        r@.len() == list@.len(),
        forall|i: int| 0 <= i < r@.len() ==> info_matches(#[trigger] r@[i], list@[i]@),
{
    let mut r: Vec<WebAtlasTextureInfo> = Vec::new();
    let mut i: usize = 0;
    while i < list.len()
        invariant
            i <= list@.len(),
            r@.len() == i,
            forall|j: int| 0 <= j < i ==> info_matches(#[trigger] r@[j], list@[j]@),
        decreases list@.len() - i,
    {
        let t = &list[i];
        r.push(WebAtlasTextureInfo { id: t.id, size: t.size, bytes_per_pixel: t.bytes_per_pixel });
        i += 1;
    }
    r
}

/// Law: equal keys resolve to the same tile while the tile is live. A call
/// that cached `tile` for `key` leaves the cache mapping `key` to `tile`, and
/// every later lookup of `key`, until a removal of `key`, finds exactly that
/// entry and returns it unchanged (a hit changes only the hit counter).
pub proof fn lemma_get_or_insert_stable(
    before: AtlasModel,
    after: AtlasModel,
    key: AtlasKey,
    size: Size,
    data: Seq<u8>,
    tile: AtlasTile,
)
    requires
        atlas_inserted(before, after, key, size, data, tile),
    ensures
        after.tiles.contains_key(key.id),
        after.tiles[key.id] == tile,
{
}

/// Law: within one texture of a well-formed atlas, the live tile rectangles
/// are pairwise non-overlapping at every point in time.
pub proof fn lemma_atlas_tiles_disjoint(a: WebGpuAtlas, kind: AtlasTextureKind, i: int)
    requires
        a.wf(),
        0 <= i < a@.textures(kind).len(),
    ensures
        forall|p: int, q: int|
            0 <= p < q < a@.textures(kind)[i].tiles.len() ==> !(#[trigger] a@.textures(
                kind,
            )[i].tiles[p]).overlaps(#[trigger] a@.textures(kind)[i].tiles[q]),
{
    match kind {
        AtlasTextureKind::Monochrome => {
            a.monochrome_textures@[i].lemma_live_tiles_disjoint();
        },
        AtlasTextureKind::Polychrome => {
            a.polychrome_textures@[i].lemma_live_tiles_disjoint();
        },
    }
}

/// Law: a rectangle is retained by its texture for the whole frame even after
/// its key is removed (`remove` never returns rectangles to the allocator),
/// and every newly carved rectangle is disjoint from all rectangles its
/// texture already holds; so a tile cached after the removal never resolves
/// to the removed tile's texture and rectangle. The hypotheses are what the
/// retained tile's own insertion established and what removals and later
/// insertions preserve: its rectangle stands at some index of its texture's
/// tile list.
pub proof fn lemma_removed_tile_not_reused(
    before: AtlasModel,
    after: AtlasModel,
    retained: AtlasTile,
    j: int,
    key: AtlasKey,
    size: Size,
    data: Seq<u8>,
    tile: AtlasTile,
)
    requires
        atlas_inserted(before, after, key, size, data, tile),
        retained.texture_id.index < before.textures(retained.texture_id.kind).len(),
        0 <= j < before.textures(retained.texture_id.kind)[
            retained.texture_id.index as int
        ].tiles.len(),
        before.textures(retained.texture_id.kind)[retained.texture_id.index as int].tiles[j]
            == retained.bounds.rect(),
        retained.bounds.rect().nonempty(),
    ensures
        tile.texture_id != retained.texture_id || tile.bounds != retained.bounds,
{
    if tile.texture_id == retained.texture_id {
        let kind = tile.texture_id.kind;
        let idx = tile.texture_id.index as int;
        let owner = before.textures(kind)[idx];
        assert(texture_gained_tile(owner, after.textures(kind)[idx], tile.bounds.rect()));
        assert(!tile.bounds.rect().overlaps(owner.tiles[j]));
        if tile.bounds == retained.bounds {
            assert(tile.bounds.rect().overlaps(tile.bounds.rect()));
        }
    }
}

} // verus!
