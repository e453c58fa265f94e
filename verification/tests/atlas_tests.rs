use std::cell::Cell;

use atlas_render::atlas::{AtlasKey, AtlasTextureId, AtlasTextureKind, WebGpuAtlas};
use atlas_render::geometry::{DevicePixels, Size};

fn size(w: i32, h: i32) -> Size {
    Size { width: DevicePixels(w), height: DevicePixels(h) }
}

fn mono_key(id: u64) -> AtlasKey {
    AtlasKey { id, kind: AtlasTextureKind::Monochrome }
}

fn poly_key(id: u64) -> AtlasKey {
    AtlasKey { id, kind: AtlasTextureKind::Polychrome }
}

#[test]
fn insert_glyph_then_hit_returns_identical_tile() {
    let mut atlas = WebGpuAtlas::new();
    let key = mono_key(65);

    let tile = atlas
        .get_or_insert_with(&key, || Some((size(8, 8), vec![255u8; 64])))
        .expect("insert must yield a tile");
    assert_eq!(tile.texture_id.kind, AtlasTextureKind::Monochrome);
    assert_eq!(tile.bounds.size.width.0, 8);
    assert_eq!(tile.bounds.size.height.0, 8);
    assert_eq!(atlas.uploads.len(), 1);

    let called = Cell::new(false);
    let again = atlas
        .get_or_insert_with(&key, || {
            called.set(true);
            Some((size(8, 8), vec![0u8; 64]))
        })
        .expect("hit must yield the tile");
    assert!(!called.get(), "the builder must not run on a cache hit");
    assert_eq!(again, tile);
    assert_eq!(atlas.uploads.len(), 1, "a hit must not queue an upload");
    assert_eq!(atlas.hits, 1);
    assert_eq!(atlas.misses, 1);
}

#[test]
fn removed_rectangle_is_not_reused_within_the_frame() {
    let mut atlas = WebGpuAtlas::new();
    let a = mono_key(65);
    let b = mono_key(66);

    let tile_a = atlas
        .get_or_insert_with(&a, || Some((size(8, 8), vec![255u8; 64])))
        .expect("insert of the first key must yield a tile");
    atlas.remove(&a);
    let tile_b = atlas
        .get_or_insert_with(&b, || Some((size(8, 8), vec![7u8; 64])))
        .expect("insert of the second key must yield a tile");

    // Conservative reuse policy: the freed slot is not handed out again
    // while its rectangle is retained.
    assert!(
        tile_b.texture_id != tile_a.texture_id || tile_b.bounds != tile_a.bounds,
        "the second key must not land on the removed key's rectangle"
    );
}

#[test]
fn remove_of_unknown_key_changes_nothing() {
    let mut atlas = WebGpuAtlas::new();
    let key = mono_key(1);
    atlas
        .get_or_insert_with(&key, || Some((size(4, 4), vec![1u8; 16])))
        .expect("insert must yield a tile");

    let before_textures = atlas.monochrome_textures();
    let before_uploads = atlas.uploads.len();
    let before_cache = atlas.tiles_by_key.len();

    atlas.remove(&mono_key(999));

    assert_eq!(atlas.monochrome_textures(), before_textures);
    assert_eq!(atlas.uploads.len(), before_uploads);
    assert_eq!(atlas.tiles_by_key.len(), before_cache);
}

#[test]
fn remove_decrements_live_count_and_evicts() {
    let mut atlas = WebGpuAtlas::new();
    let key = mono_key(10);
    atlas
        .get_or_insert_with(&key, || Some((size(4, 4), vec![0u8; 16])))
        .expect("insert must yield a tile");
    assert_eq!(atlas.monochrome_textures[0].live_atlas_keys, 1);

    atlas.remove(&key);
    assert_eq!(atlas.monochrome_textures[0].live_atlas_keys, 0);
    assert_eq!(atlas.tiles_by_key.len(), 0);

    // Removing again is a no-op, not an underflow.
    atlas.remove(&key);
    assert_eq!(atlas.monochrome_textures[0].live_atlas_keys, 0);
}

#[test]
fn exhausted_texture_triggers_new_texture_not_failure() {
    let mut atlas = WebGpuAtlas::new();

    // Two 1024x512 tiles fill the default 1024x1024 texture.
    for id in 0..2u64 {
        let tile = atlas
            .get_or_insert_with(&mono_key(id), || {
                Some((size(1024, 512), vec![0u8; 1024 * 512]))
            })
            .expect("insert must yield a tile");
        assert_eq!(tile.texture_id.index, 0);
    }

    // The third does not fit; a new texture is created rather than a
    // failure returned.
    let tile = atlas
        .get_or_insert_with(&mono_key(2), || Some((size(1024, 512), vec![0u8; 1024 * 512])))
        .expect("a full texture must lead to a new texture, not a failure");
    assert_eq!(tile.texture_id.index, 1);
    assert_eq!(atlas.monochrome_textures().len(), 2);
}

#[test]
fn oversized_request_creates_texture_of_request_size() {
    let mut atlas = WebGpuAtlas::new();
    let tile = atlas
        .get_or_insert_with(&mono_key(3), || Some((size(2000, 100), vec![0u8; 200000])))
        .expect("a request above the default side must still get a tile");
    let infos = atlas.monochrome_textures();
    assert_eq!(infos.len(), 1);
    assert_eq!(infos[0].size.width.0, 2000);
    assert_eq!(infos[0].size.height.0, 1024);
    assert_eq!(tile.bounds.size.width.0, 2000);
}

#[test]
fn live_tiles_never_overlap() {
    let mut atlas = WebGpuAtlas::new();
    let mut tiles = Vec::new();
    for id in 0..12u64 {
        let w = 5 + (id as i32 % 4) * 7;
        let h = 4 + (id as i32 % 3) * 9;
        let bytes = vec![1u8; (w * h) as usize];
        let tile = atlas
            .get_or_insert_with(&mono_key(id), move || Some((size(w, h), bytes)))
            .expect("insert must yield a tile");
        assert_eq!(tile.texture_id.index, 0);
        tiles.push(tile);
    }
    for i in 0..tiles.len() {
        for j in (i + 1)..tiles.len() {
            let a = tiles[i].bounds;
            let b = tiles[j].bounds;
            let disjoint = a.origin.x.0 + a.size.width.0 <= b.origin.x.0
                || b.origin.x.0 + b.size.width.0 <= a.origin.x.0
                || a.origin.y.0 + a.size.height.0 <= b.origin.y.0
                || b.origin.y.0 + b.size.height.0 <= a.origin.y.0;
            assert!(disjoint, "tiles {} and {} overlap", i, j);
        }
    }
}

#[test]
fn builder_returning_nothing_caches_nothing() {
    let mut atlas = WebGpuAtlas::new();
    let key = mono_key(5);
    let r = atlas.get_or_insert_with(&key, || None);
    assert!(r.is_none());
    assert_eq!(atlas.tiles_by_key.len(), 0);
    assert_eq!(atlas.uploads.len(), 0);
    assert_eq!(atlas.monochrome_textures().len(), 0);
}

#[test]
fn mismatched_byte_length_is_rejected() {
    let mut atlas = WebGpuAtlas::new();
    // 4x4 monochrome needs 16 bytes; 15 are handed over.
    let r = atlas.get_or_insert_with(&mono_key(6), || Some((size(4, 4), vec![0u8; 15])));
    assert!(r.is_none());
    assert_eq!(atlas.tiles_by_key.len(), 0);
    assert_eq!(atlas.uploads.len(), 0);

    // The same key can be inserted afterwards with legal content.
    let r = atlas.get_or_insert_with(&mono_key(6), || Some((size(4, 4), vec![0u8; 16])));
    assert!(r.is_some());
}

#[test]
fn polychrome_content_needs_four_bytes_per_pixel() {
    let mut atlas = WebGpuAtlas::new();
    let r = atlas.get_or_insert_with(&poly_key(7), || Some((size(2, 2), vec![0u8; 4])));
    assert!(r.is_none(), "2x2 RGBA needs 16 bytes, not 4");

    let tile = atlas
        .get_or_insert_with(&poly_key(7), || Some((size(2, 2), vec![9u8; 16])))
        .expect("legal RGBA content must yield a tile");
    assert_eq!(tile.texture_id.kind, AtlasTextureKind::Polychrome);
    assert_eq!(atlas.polychrome_textures().len(), 1);
    assert_eq!(atlas.polychrome_textures()[0].bytes_per_pixel, 4);
}

#[test]
fn illegal_sizes_are_rejected() {
    let mut atlas = WebGpuAtlas::new();
    assert!(atlas.get_or_insert_with(&mono_key(8), || Some((size(0, 4), vec![]))).is_none());
    assert!(atlas.get_or_insert_with(&mono_key(8), || Some((size(4, -1), vec![]))).is_none());
    assert!(
        atlas
            .get_or_insert_with(&mono_key(8), || Some((size(65535, 1), vec![0u8; 65535])))
            .is_none()
    );
    // Heights above 65472 would overflow the allocator's shelf rounding and
    // are rejected up front, byte length notwithstanding.
    assert!(
        atlas
            .get_or_insert_with(&mono_key(8), || Some((size(1, 65533), vec![0u8; 65533])))
            .is_none()
    );
    assert!(
        atlas
            .get_or_insert_with(&mono_key(8), || Some((size(1, 65473), vec![0u8; 65473])))
            .is_none()
    );
    assert_eq!(atlas.tiles_by_key.len(), 0);
}

#[test]
fn tallest_legal_content_gets_a_tile() {
    let mut atlas = WebGpuAtlas::new();
    let tile = atlas
        .get_or_insert_with(&mono_key(9), || Some((size(1, 65472), vec![0u8; 65472])))
        .expect("legal content is always given a tile");
    assert_eq!(tile.bounds.size.height.0, 65472);
    let infos = atlas.monochrome_textures();
    assert_eq!(infos.len(), 1);
    assert_eq!(infos[0].size.height.0, 65472);
}

#[test]
fn flush_returns_uploads_in_order_and_resets_counters() {
    let mut atlas = WebGpuAtlas::new();
    let t1 = atlas
        .get_or_insert_with(&mono_key(1), || Some((size(2, 2), vec![11u8; 4])))
        .unwrap();
    let t2 = atlas
        .get_or_insert_with(&mono_key(2), || Some((size(3, 1), vec![22u8; 3])))
        .unwrap();
    atlas.get_or_insert_with(&mono_key(1), || None).unwrap();
    assert_eq!(atlas.hits, 1);
    assert_eq!(atlas.misses, 2);

    let uploads = atlas.flush_uploads();
    assert_eq!(uploads.len(), 2);
    assert_eq!(uploads[0].id, t1.texture_id);
    assert_eq!(uploads[0].bounds, t1.bounds);
    assert_eq!(uploads[0].data, vec![11u8; 4]);
    assert_eq!(uploads[1].id, t2.texture_id);
    assert_eq!(uploads[1].bounds, t2.bounds);
    assert_eq!(uploads[1].data, vec![22u8; 3]);

    assert_eq!(atlas.uploads.len(), 0);
    assert_eq!(atlas.hits, 0);
    assert_eq!(atlas.misses, 0);

    // A second flush hands back nothing.
    assert_eq!(atlas.flush_uploads().len(), 0);
}

#[test]
fn texture_info_lookup() {
    let mut atlas = WebGpuAtlas::new();
    let tile = atlas
        .get_or_insert_with(&mono_key(1), || Some((size(8, 8), vec![0u8; 64])))
        .unwrap();

    let info = atlas.get_texture_info(tile.texture_id).expect("the tile's texture exists");
    assert_eq!(info.id, tile.texture_id);
    assert_eq!(info.size.width.0, 1024);
    assert_eq!(info.size.height.0, 1024);
    assert_eq!(info.bytes_per_pixel, 1);

    let unknown = AtlasTextureId { index: 9, kind: AtlasTextureKind::Polychrome };
    assert!(atlas.get_texture_info(unknown).is_none());
}

#[test]
fn destroy_drops_everything() {
    let mut atlas = WebGpuAtlas::new();
    atlas.get_or_insert_with(&mono_key(1), || Some((size(4, 4), vec![0u8; 16]))).unwrap();
    atlas.get_or_insert_with(&poly_key(2), || Some((size(4, 4), vec![0u8; 64]))).unwrap();
    atlas.destroy();
    assert_eq!(atlas.monochrome_textures().len(), 0);
    assert_eq!(atlas.polychrome_textures().len(), 0);
    assert_eq!(atlas.tiles_by_key.len(), 0);
    assert_eq!(atlas.uploads.len(), 0);
}
