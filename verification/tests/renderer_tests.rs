use atlas_render::atlas::{AtlasKey, AtlasTextureId, AtlasTextureKind, WebGpuAtlas};
use atlas_render::geometry::{DevicePixels, Size};
use atlas_render::renderer::{plan_frame, InstanceSizes, PrimitiveKind};
use atlas_render::scene::{PrimitiveBatch, Scene};

fn sizes() -> InstanceSizes {
    InstanceSizes {
        quad: 64,
        shadow: 48,
        underline: 32,
        path_vertex: 96,
        mono_sprite: 80,
        poly_sprite: 88,
    }
}

fn empty_atlas() -> WebGpuAtlas {
    WebGpuAtlas::new()
}

#[test]
fn oversized_quad_batch_draws_exactly_the_buffer_capacity() {
    let scene = Scene { batches: vec![PrimitiveBatch::Quads { count: 5000 }] };
    let plan = plan_frame(&scene, &empty_atlas(), &sizes());
    assert_eq!(plan.len(), 1);
    assert_eq!(plan[0].kind, PrimitiveKind::Quads);
    assert_eq!(plan[0].offset, 0);
    assert_eq!(plan[0].instances, 4096);
    assert_eq!(plan[0].vertices, 4);
    assert_eq!(plan[0].data_size, 4096 * 64);
}

#[test]
fn identical_scenes_give_identical_plans_with_offsets_reset() {
    let make_scene = || Scene {
        batches: vec![
            PrimitiveBatch::Quads { count: 10 },
            PrimitiveBatch::Shadows { count: 4 },
            PrimitiveBatch::Quads { count: 7 },
        ],
    };
    let atlas = empty_atlas();
    let first = plan_frame(&make_scene(), &atlas, &sizes());
    let second = plan_frame(&make_scene(), &atlas, &sizes());
    assert_eq!(first, second, "two frames of the same scene plan identically");
    assert_eq!(first[0].offset, 0, "each frame starts at offset zero");
    assert_eq!(first[1].offset, 0);
}

#[test]
fn successive_offsets_are_aligned_and_non_decreasing() {
    let scene = Scene {
        batches: vec![
            PrimitiveBatch::Quads { count: 10 },
            PrimitiveBatch::Quads { count: 3 },
            PrimitiveBatch::Quads { count: 1 },
        ],
    };
    let plan = plan_frame(&scene, &empty_atlas(), &sizes());
    assert_eq!(plan.len(), 3);
    assert_eq!(plan[0].offset, 0);
    // 10 quads of 64 bytes end at 640; the next aligned offset is 768.
    assert_eq!(plan[1].offset, 768);
    // 3 more end at 768 + 192 = 960; aligned up to 1024.
    assert_eq!(plan[2].offset, 1024);
    for w in plan.windows(2) {
        assert!(w[0].offset + w[0].data_size <= w[1].offset);
    }
    for c in &plan {
        assert_eq!(c.offset % 256, 0);
    }
}

#[test]
fn writes_never_pass_the_buffer_capacity() {
    let scene = Scene {
        batches: vec![
            PrimitiveBatch::Quads { count: 4000 },
            PrimitiveBatch::Quads { count: 200 },
            PrimitiveBatch::Quads { count: 200 },
        ],
    };
    let plan = plan_frame(&scene, &empty_atlas(), &sizes());
    let capacity = 4096u64 * 64;
    // 4000 drawn at 0, ending at 256000 (aligned). 96 more fit exactly.
    assert_eq!(plan.len(), 2);
    assert_eq!(plan[0].instances, 4000);
    assert_eq!(plan[1].offset, 256000);
    assert_eq!(plan[1].instances, 96);
    assert_eq!(plan[1].offset + plan[1].data_size, capacity);
    for c in &plan {
        assert!(c.offset + c.data_size <= capacity);
    }
}

#[test]
fn underlines_split_into_straight_and_wavy_commands() {
    let scene = Scene { batches: vec![PrimitiveBatch::Underlines { straight: 3, wavy: 2 }] };
    let plan = plan_frame(&scene, &empty_atlas(), &sizes());
    assert_eq!(plan.len(), 2);
    assert_eq!(plan[0].kind, PrimitiveKind::Underlines);
    assert!(!plan[0].wavy);
    assert_eq!(plan[0].instances, 3);
    assert_eq!(plan[0].offset, 0);
    assert_eq!(plan[1].kind, PrimitiveKind::Underlines);
    assert!(plan[1].wavy);
    assert_eq!(plan[1].instances, 2);
    // 3 underlines of 32 bytes end at 96; the wavy run starts at 256.
    assert_eq!(plan[1].offset, 256);
}

#[test]
fn empty_batches_are_skipped_without_state_change() {
    let scene = Scene {
        batches: vec![
            PrimitiveBatch::Quads { count: 0 },
            PrimitiveBatch::Underlines { straight: 0, wavy: 0 },
            PrimitiveBatch::Paths { vertex_counts: vec![] },
            PrimitiveBatch::Quads { count: 2 },
        ],
    };
    let plan = plan_frame(&scene, &empty_atlas(), &sizes());
    assert_eq!(plan.len(), 1);
    assert_eq!(plan[0].offset, 0, "empty batches must not advance the offset");
    assert_eq!(plan[0].instances, 2);
}

#[test]
fn path_batches_draw_one_triangle_list_of_all_vertices() {
    let scene = Scene { batches: vec![PrimitiveBatch::Paths { vertex_counts: vec![3, 6, 9] }] };
    let plan = plan_frame(&scene, &empty_atlas(), &sizes());
    assert_eq!(plan.len(), 1);
    assert_eq!(plan[0].kind, PrimitiveKind::Paths);
    assert_eq!(plan[0].vertices, 18);
    assert_eq!(plan[0].instances, 1);
    assert_eq!(plan[0].data_size, 18 * 96);
}

#[test]
fn path_vertices_clamp_to_the_vertex_buffer() {
    let scene = Scene { batches: vec![PrimitiveBatch::Paths { vertex_counts: vec![40000, 40000] }] };
    let plan = plan_frame(&scene, &empty_atlas(), &sizes());
    assert_eq!(plan.len(), 1);
    assert_eq!(plan[0].vertices, 65536);
}

#[test]
fn sprite_batch_with_unknown_texture_is_skipped() {
    let atlas = empty_atlas();
    let stale = AtlasTextureId { index: 3, kind: AtlasTextureKind::Monochrome };
    let scene = Scene {
        batches: vec![
            PrimitiveBatch::MonochromeSprites { texture_id: stale, count: 5 },
            PrimitiveBatch::Quads { count: 1 },
        ],
    };
    let plan = plan_frame(&scene, &atlas, &sizes());
    assert_eq!(plan.len(), 1, "the stale sprite batch is skipped, the frame goes on");
    assert_eq!(plan[0].kind, PrimitiveKind::Quads);
}

#[test]
fn sprite_batch_with_known_texture_binds_it() {
    let mut atlas = WebGpuAtlas::new();
    let key = AtlasKey { id: 1, kind: AtlasTextureKind::Monochrome };
    let tile = atlas
        .get_or_insert_with(&key, || {
            Some((Size { width: DevicePixels(8), height: DevicePixels(8) }, vec![255u8; 64]))
        })
        .unwrap();
    let scene = Scene {
        batches: vec![PrimitiveBatch::MonochromeSprites { texture_id: tile.texture_id, count: 2 }],
    };
    let plan = plan_frame(&scene, &atlas, &sizes());
    assert_eq!(plan.len(), 1);
    assert_eq!(plan[0].kind, PrimitiveKind::MonochromeSprites);
    assert_eq!(plan[0].texture_id, Some(tile.texture_id));
    assert_eq!(plan[0].instances, 2);
}

#[test]
fn batch_order_is_paint_order() {
    let scene = Scene {
        batches: vec![
            PrimitiveBatch::Shadows { count: 1 },
            PrimitiveBatch::Quads { count: 1 },
            PrimitiveBatch::Underlines { straight: 1, wavy: 0 },
            PrimitiveBatch::Quads { count: 1 },
        ],
    };
    let plan = plan_frame(&scene, &empty_atlas(), &sizes());
    let kinds: Vec<PrimitiveKind> = plan.iter().map(|c| c.kind).collect();
    assert_eq!(
        kinds,
        vec![
            PrimitiveKind::Shadows,
            PrimitiveKind::Quads,
            PrimitiveKind::Underlines,
            PrimitiveKind::Quads,
        ]
    );
}

#[test]
fn separate_kinds_keep_separate_offsets() {
    let scene = Scene {
        batches: vec![
            PrimitiveBatch::Quads { count: 8 },
            PrimitiveBatch::Shadows { count: 8 },
            PrimitiveBatch::Quads { count: 8 },
            PrimitiveBatch::Shadows { count: 8 },
        ],
    };
    let plan = plan_frame(&scene, &empty_atlas(), &sizes());
    assert_eq!(plan.len(), 4);
    assert_eq!(plan[0].offset, 0);
    assert_eq!(plan[1].offset, 0);
    // 8 quads of 64 bytes end at 512, already aligned.
    assert_eq!(plan[2].offset, 512);
    // 8 shadows of 48 bytes end at 384, aligned up to 512.
    assert_eq!(plan[3].offset, 512);
}
