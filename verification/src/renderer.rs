//! Per-frame batched draw planning: one running byte offset per primitive
//! kind into that kind's fixed instance buffer, aligned to the GPU's storage
//! buffer offset alignment, with the drawn instance count clamped so that no
//! write ever passes the buffer's capacity.

use vstd::arithmetic::div_mod::{
    lemma_div_is_ordered, lemma_div_multiples_vanish, lemma_fundamental_div_mod,
    lemma_fundamental_div_mod_converse, lemma_mod_bound,
};
use vstd::prelude::*;

use crate::atlas::{AtlasTextureId, WebGpuAtlas};
use crate::scene::{PrimitiveBatch, Scene};

verus! {

/// Storage buffer offsets handed to the GPU must be multiples of this.
pub const STORAGE_BUFFER_ALIGNMENT: u64 = 256;

/// Maximum number of quads per instance buffer.
pub const MAX_QUADS_PER_BATCH: usize = 4096;

/// Maximum number of sprites per instance buffer.
pub const MAX_SPRITES_PER_BATCH: usize = 4096;

/// Maximum number of shadows per instance buffer.
pub const MAX_SHADOWS_PER_BATCH: usize = 4096;

/// Maximum number of path vertices per vertex buffer.
pub const MAX_PATH_VERTICES_PER_BATCH: usize = 65536;

/// Maximum number of underlines per instance buffer.
pub const MAX_UNDERLINES_PER_BATCH: usize = 4096;

/// The primitive kinds, each with its own pipeline family and its own
/// instance buffer.
#[derive(Clone, Copy, Debug, PartialEq, Eq, Hash, Structural)]
pub enum PrimitiveKind {
    Quads,
    Shadows,
    Underlines,
    Paths,
    MonochromeSprites,
    PolychromeSprites,
}

/// The per-instance byte sizes of the GPU-side primitive records, as the
/// shader layouts fix them. The GPU layer supplies them.
#[derive(Clone, Copy, Debug, PartialEq, Eq, Structural)]
pub struct InstanceSizes {
    pub quad: usize,
    pub shadow: usize,
    pub underline: usize,
    pub path_vertex: usize,
    pub mono_sprite: usize,
    pub poly_sprite: usize,
}

impl InstanceSizes {
    /// Strides a GPU record can actually have: positive, at most 64 KiB.
    pub open spec fn wf(self) -> bool {
        &&& 1 <= self.quad <= 65536
        &&& 1 <= self.shadow <= 65536
        &&& 1 <= self.underline <= 65536
        &&& 1 <= self.path_vertex <= 65536
        &&& 1 <= self.mono_sprite <= 65536
        &&& 1 <= self.poly_sprite <= 65536
    }

    /// The stride of the given kind.
    pub open spec fn spec_stride(self, kind: PrimitiveKind) -> int {
        match kind {
            PrimitiveKind::Quads => self.quad as int,
            PrimitiveKind::Shadows => self.shadow as int,
            PrimitiveKind::Underlines => self.underline as int,
            PrimitiveKind::Paths => self.path_vertex as int,
            PrimitiveKind::MonochromeSprites => self.mono_sprite as int,
            PrimitiveKind::PolychromeSprites => self.poly_sprite as int,
        }
    }

    /// The stride of the given kind.
    pub fn stride(&self, kind: PrimitiveKind) -> (r: usize)
        ensures
            r as int == self.spec_stride(kind),
    {
        match kind {
            PrimitiveKind::Quads => self.quad,
            PrimitiveKind::Shadows => self.shadow,
            PrimitiveKind::Underlines => self.underline,
            PrimitiveKind::Paths => self.path_vertex,
            PrimitiveKind::MonochromeSprites => self.mono_sprite,
            PrimitiveKind::PolychromeSprites => self.poly_sprite,
        }
    }
}

/// The fixed instance capacity of the given kind's buffer, in instances.
pub open spec fn spec_max_instances(kind: PrimitiveKind) -> int {
    match kind {
        PrimitiveKind::Quads => MAX_QUADS_PER_BATCH as int,
        PrimitiveKind::Shadows => MAX_SHADOWS_PER_BATCH as int,
        PrimitiveKind::Underlines => MAX_UNDERLINES_PER_BATCH as int,
        PrimitiveKind::Paths => MAX_PATH_VERTICES_PER_BATCH as int,
        PrimitiveKind::MonochromeSprites => MAX_SPRITES_PER_BATCH as int,
        PrimitiveKind::PolychromeSprites => MAX_SPRITES_PER_BATCH as int,
    }
}

/// The fixed instance capacity of the given kind's buffer, in instances.
pub fn max_instances(kind: PrimitiveKind) -> (r: usize)
    ensures
        r as int == spec_max_instances(kind),
{
    match kind {
        PrimitiveKind::Quads => MAX_QUADS_PER_BATCH,
        PrimitiveKind::Shadows => MAX_SHADOWS_PER_BATCH,
        PrimitiveKind::Underlines => MAX_UNDERLINES_PER_BATCH,
        PrimitiveKind::Paths => MAX_PATH_VERTICES_PER_BATCH,
        PrimitiveKind::MonochromeSprites => MAX_SPRITES_PER_BATCH,
        PrimitiveKind::PolychromeSprites => MAX_SPRITES_PER_BATCH,
    }
}

/// The byte capacity of the given kind's buffer.
pub open spec fn spec_capacity(kind: PrimitiveKind, sizes: InstanceSizes) -> int {
    spec_max_instances(kind) * sizes.spec_stride(kind)
}

/// The smallest multiple of the storage buffer alignment at or above `x`.
pub open spec fn spec_align_up(x: int) -> int {
    ((x + 255) / 256) * 256
}

/// How many whole instances of the given stride fit between `offset` and the
/// buffer capacity.
pub open spec fn spec_avail(cap: int, offset: int, stride: int) -> int {
    if offset >= cap {
        0
    } else {
        (cap - offset) / stride
    }
}

/// The smaller of two quantities.
pub open spec fn spec_min(a: int, b: int) -> int {
    if a <= b {
        a
    } else {
        b
    }
}

/// Of `count` requested instances, how many are drawn at `offset`: as many
/// as fit, never more than requested.
pub open spec fn spec_drawn(count: int, cap: int, offset: int, stride: int) -> int {
    spec_min(count, spec_avail(cap, offset, stride))
}

/// The offset the next batch of the same kind writes at: unchanged when
/// nothing was drawn, else the end of the written range rounded up to the
/// alignment.
pub open spec fn spec_next(offset: int, drawn: int, stride: int) -> int {
    if drawn == 0 {
        offset
    } else {
        spec_align_up(offset + drawn * stride)
    }
}

/// Rounding up to the alignment moves at most 255 bytes forward and lands on
/// a multiple of the alignment.
pub proof fn lemma_align_up(x: int)
    requires
        0 <= x,
    ensures
        x <= spec_align_up(x) <= x + 255,
        spec_align_up(x) % 256 == 0,
{
    let q = (x + 255) / 256;
    lemma_fundamental_div_mod(x + 255, 256);
    lemma_mod_bound(x + 255, 256);
    lemma_fundamental_div_mod_converse(q * 256, 256, q, 0);
}

/// What fits, fits: drawing `spec_avail` instances from `offset` stays
/// within the capacity, and no more than `max` instances ever fit.
pub proof fn lemma_avail(cap: int, offset: int, stride: int, max: int)
    requires
        1 <= stride,
        0 <= offset,
        cap == max * stride,
        0 <= max,
    ensures
        offset < cap ==> offset + spec_avail(cap, offset, stride) * stride <= cap,
        spec_avail(cap, offset, stride) <= max,
        0 <= spec_avail(cap, offset, stride),
{
    if offset < cap {
        let avail = (cap - offset) / stride;
        lemma_fundamental_div_mod(cap - offset, stride);
        lemma_mod_bound(cap - offset, stride);
        assert(stride * avail <= cap - offset);
        assert(avail * stride == stride * avail) by (nonlinear_arith);
        lemma_div_is_ordered(cap - offset, cap, stride);
        lemma_div_multiples_vanish(max, stride);
        assert(stride * max == cap) by (nonlinear_arith)
            requires
                cap == max * stride,
        ;
        assert(avail <= (cap / stride));
        assert(cap / stride == max);
    }
}

/// One batch placed in a kind's buffer: the write offset, how many instances
/// are drawn there, the byte size of the write, and the aligned offset the
/// next batch of that kind gets.
#[derive(Clone, Copy, Debug, PartialEq, Eq, Structural)]
pub struct Placement {
    pub offset: u64,
    pub drawn: usize,
    pub data_size: u64,
    pub next_offset: u64,
}

/// Clamp a batch of `count` instances into the buffer slice starting at
/// `offset`: draw as many instances as fit, never writing past the capacity,
/// and return the aligned offset for the next batch.
pub fn place_batch(offset: u64, count: u64, stride: usize, max_instances: usize) -> (p: Placement)
    requires
        1 <= stride <= 65536,
        1 <= max_instances <= 65536,
        offset <= 0x2_0000_0000u64,
    ensures
        p.offset == offset,
        p.drawn as int == spec_drawn(
            count as int,
            max_instances as int * stride as int,
            offset as int,
            stride as int,
        ),
        p.data_size as int == p.drawn as int * stride as int,
        p.next_offset as int == spec_next(offset as int, p.drawn as int, stride as int),
        p.drawn as int <= count as int,
        p.drawn <= max_instances,
        p.drawn > 0 ==> offset as int + p.data_size as int <= max_instances as int * stride as int,
        p.next_offset >= offset,
        p.next_offset <= 0x2_0000_0000u64,
        offset as int % 256 == 0 ==> p.next_offset as int % 256 == 0,
{
    proof {
        assert((max_instances as int) * (stride as int) <= 65536 * 65536) by (nonlinear_arith)
            requires
                1 <= stride as int <= 65536,
                1 <= max_instances as int <= 65536,
        ;
    }
    let cap: u64 = (max_instances as u64) * (stride as u64);
    if offset >= cap {
        return Placement { offset, drawn: 0, data_size: 0, next_offset: offset };
    }
    proof {
        lemma_avail(cap as int, offset as int, stride as int, max_instances as int);
    }
    let avail: u64 = (cap - offset) / (stride as u64);
    let drawn: usize = if count <= avail {
        count as usize
    } else {
        avail as usize
    };
    if drawn == 0 {
        return Placement { offset, drawn: 0, data_size: 0, next_offset: offset };
    }
    proof {
        assert((drawn as int) * (stride as int) <= (avail as int) * (stride as int))
            by (nonlinear_arith)
            requires
                0 <= drawn as int <= avail as int,
                0 <= stride as int,
        ;
    }
    let data_size: u64 = (drawn as u64) * (stride as u64);
    let end: u64 = offset + data_size;
    proof {
        lemma_align_up(end as int);
    }
    let next_offset: u64 = ((end + 255) / 256) * 256;
    Placement { offset, drawn, data_size, next_offset }
}

/// One draw call of the frame plan: which pipeline family (and, for
/// underlines, whether the wavy variant), which atlas texture to bind for
/// sprites, where in the kind's instance buffer the instance bytes go, how
/// many bytes are written there, and the draw call's vertex and instance
/// counts.
#[derive(Clone, Copy, Debug, PartialEq, Eq, Structural)]
pub struct DrawCommand {
    pub kind: PrimitiveKind,
    pub wavy: bool,
    pub texture_id: Option<AtlasTextureId>,
    pub offset: u64,
    pub data_size: u64,
    pub vertices: u32,
    pub instances: u32,
}

/// The spec-level running byte offsets, one per primitive kind.
pub ghost struct OffsetsModel {
    pub quads: int,
    pub shadows: int,
    pub underlines: int,
    pub paths: int,
    pub mono_sprites: int,
    pub poly_sprites: int,
}

impl OffsetsModel {
    /// The offset of the given kind.
    pub open spec fn get(self, kind: PrimitiveKind) -> int {
        match kind {
            PrimitiveKind::Quads => self.quads,
            PrimitiveKind::Shadows => self.shadows,
            PrimitiveKind::Underlines => self.underlines,
            PrimitiveKind::Paths => self.paths,
            PrimitiveKind::MonochromeSprites => self.mono_sprites,
            PrimitiveKind::PolychromeSprites => self.poly_sprites,
        }
    }

    /// The offsets with the given kind's offset replaced.
    pub open spec fn set(self, kind: PrimitiveKind, v: int) -> OffsetsModel {
        match kind {
            PrimitiveKind::Quads => OffsetsModel { quads: v, ..self },
            PrimitiveKind::Shadows => OffsetsModel { shadows: v, ..self },
            PrimitiveKind::Underlines => OffsetsModel { underlines: v, ..self },
            PrimitiveKind::Paths => OffsetsModel { paths: v, ..self },
            PrimitiveKind::MonochromeSprites => OffsetsModel { mono_sprites: v, ..self },
            PrimitiveKind::PolychromeSprites => OffsetsModel { poly_sprites: v, ..self },
        }
    }

    /// All offsets zero, as at the start of each frame.
    pub open spec fn zero() -> OffsetsModel {
        OffsetsModel { quads: 0, shadows: 0, underlines: 0, paths: 0, mono_sprites: 0, poly_sprites: 0 }
    }

    /// Offsets a frame can actually reach: aligned and within a byte of the
    /// largest capacity rounded up.
    pub open spec fn bounded(self) -> bool {
        forall|k: PrimitiveKind|
            0 <= #[trigger] self.get(k) <= 0x2_0000_0000 && self.get(k) % 256 == 0
    }
}

/// The running byte offsets of one frame, one per primitive kind, all reset
/// to zero at the start of the frame.
#[derive(Clone, Copy, Debug, PartialEq, Eq, Structural)]
pub struct FrameOffsets {
    pub quads: u64,
    pub shadows: u64,
    pub underlines: u64,
    pub paths: u64,
    pub mono_sprites: u64,
    pub poly_sprites: u64,
}

impl View for FrameOffsets {
    type V = OffsetsModel;

    open spec fn view(&self) -> OffsetsModel {
        OffsetsModel {
            quads: self.quads as int,
            shadows: self.shadows as int,
            underlines: self.underlines as int,
            paths: self.paths as int,
            mono_sprites: self.mono_sprites as int,
            poly_sprites: self.poly_sprites as int,
        }
    }
}

impl FrameOffsets {
    /// All offsets zero, as at the start of each frame.
    pub fn zero() -> (r: FrameOffsets)
        ensures
            r@ == OffsetsModel::zero(),
    {
        FrameOffsets {
            quads: 0,
            shadows: 0,
            underlines: 0,
            paths: 0,
            mono_sprites: 0,
            poly_sprites: 0,
        }
    }

    /// The offset of the given kind.
    pub fn get(&self, kind: PrimitiveKind) -> (r: u64)
        ensures
            r as int == self@.get(kind),
    {
        match kind {
            PrimitiveKind::Quads => self.quads,
            PrimitiveKind::Shadows => self.shadows,
            PrimitiveKind::Underlines => self.underlines,
            PrimitiveKind::Paths => self.paths,
            PrimitiveKind::MonochromeSprites => self.mono_sprites,
            PrimitiveKind::PolychromeSprites => self.poly_sprites,
        }
    }

    /// Replace the offset of the given kind.
    pub fn set(&mut self, kind: PrimitiveKind, v: u64)
        ensures
            final(self)@ == old(self)@.set(kind, v as int),
    {
        match kind {
            PrimitiveKind::Quads => self.quads = v,
            PrimitiveKind::Shadows => self.shadows = v,
            PrimitiveKind::Underlines => self.underlines = v,
            PrimitiveKind::Paths => self.paths = v,
            PrimitiveKind::MonochromeSprites => self.mono_sprites = v,
            PrimitiveKind::PolychromeSprites => self.poly_sprites = v,
        }
    }
}

/// One homogeneous run of primitives to place: its kind, the pipeline
/// variant and texture where they apply, and how many instances (for paths:
/// vertices) it asks for.
pub ghost struct SubBatch {
    pub kind: PrimitiveKind,
    pub wavy: bool,
    pub texture_id: Option<AtlasTextureId>,
    pub count: int,
}

/// Place one sub-batch at its kind's running offset: no command when nothing
/// fits or nothing was asked for, else one command at that offset with the
/// clamped instance count, and the kind's offset advanced to the next aligned
/// position.
pub open spec fn place_sub(sb: SubBatch, offs: OffsetsModel, sizes: InstanceSizes) -> (
    Seq<DrawCommand>,
    OffsetsModel,
) {
    let offset = offs.get(sb.kind);
    let stride = sizes.spec_stride(sb.kind);
    let cap = spec_capacity(sb.kind, sizes);
    let drawn = spec_drawn(sb.count, cap, offset, stride);
    if drawn == 0 {
        (Seq::<DrawCommand>::empty(), offs)
    } else {
        let c = DrawCommand {
            kind: sb.kind,
            wavy: sb.wavy,
            texture_id: sb.texture_id,
            offset: offset as u64,
            data_size: (drawn * stride) as u64,
            vertices: if sb.kind is Paths {
                drawn as u32
            } else {
                4u32
            },
            instances: if sb.kind is Paths {
                1u32
            } else {
                drawn as u32
            },
        };
        (seq![c], offs.set(sb.kind, spec_next(offset, drawn, stride)))
    }
}

/// Place a sequence of sub-batches in order, each at its kind's running
/// offset.
pub open spec fn plan_subs(subs: Seq<SubBatch>, offs: OffsetsModel, sizes: InstanceSizes) -> (
    Seq<DrawCommand>,
    OffsetsModel,
)
    decreases subs.len(),
{
    if subs.len() == 0 {
        (Seq::<DrawCommand>::empty(), offs)
    } else {
        let head = place_sub(subs[0], offs, sizes);
        let rest = plan_subs(subs.skip(1), head.1, sizes);
        (head.0 + rest.0, rest.1)
    }
}

/// The atlas has a texture in the slot the identifier names.
pub open spec fn atlas_has(atlas: crate::atlas::AtlasModel, id: AtlasTextureId) -> bool {
    id.index < atlas.textures(id.kind).len()
}

/// The sub-batches one primitive batch asks for, in the order they are
/// placed: underline batches place their straight underlines before their
/// wavy ones; sprite batches whose texture the atlas does not know are
/// skipped whole.
pub open spec fn sub_batches(b: PrimitiveBatch, atlas: crate::atlas::AtlasModel) -> Seq<SubBatch> {
    match b {
        PrimitiveBatch::Quads { count } => seq![
            SubBatch {
                kind: PrimitiveKind::Quads,
                wavy: false,
                texture_id: None,
                count: count as int,
            },
        ],
        PrimitiveBatch::Shadows { count } => seq![
            SubBatch {
                kind: PrimitiveKind::Shadows,
                wavy: false,
                texture_id: None,
                count: count as int,
            },
        ],
        PrimitiveBatch::Underlines { straight, wavy } => seq![
            SubBatch {
                kind: PrimitiveKind::Underlines,
                wavy: false,
                texture_id: None,
                count: straight as int,
            },
            SubBatch {
                kind: PrimitiveKind::Underlines,
                wavy: true,
                texture_id: None,
                count: wavy as int,
            },
        ],
        PrimitiveBatch::Paths { vertex_counts } => seq![
            SubBatch {
                kind: PrimitiveKind::Paths,
                wavy: false,
                texture_id: None,
                count: spec_min(crate::scene::total_vertices(vertex_counts@), u64::MAX as int),
            },
        ],
        PrimitiveBatch::MonochromeSprites { texture_id, count } => {
            if atlas_has(atlas, texture_id) {
                seq![
                    SubBatch {
                        kind: PrimitiveKind::MonochromeSprites,
                        wavy: false,
                        texture_id: Some(texture_id),
                        count: count as int,
                    },
                ]
            } else {
                Seq::<SubBatch>::empty()
            }
        },
        PrimitiveBatch::PolychromeSprites { texture_id, count } => {
            if atlas_has(atlas, texture_id) {
                seq![
                    SubBatch {
                        kind: PrimitiveKind::PolychromeSprites,
                        wavy: false,
                        texture_id: Some(texture_id),
                        count: count as int,
                    },
                ]
            } else {
                Seq::<SubBatch>::empty()
            }
        },
    }
}

/// The sub-batches of a whole scene, in paint order.
pub open spec fn scene_subs(
    batches: Seq<PrimitiveBatch>,
    atlas: crate::atlas::AtlasModel,
) -> Seq<SubBatch>
    decreases batches.len(),
{
    if batches.len() == 0 {
        Seq::<SubBatch>::empty()
    } else {
        sub_batches(batches[0], atlas) + scene_subs(batches.skip(1), atlas)
    }
}

/// Planning a concatenation plans the first part, then the second from the
/// offsets the first part left.
pub proof fn lemma_plan_subs_append(
    a: Seq<SubBatch>,
    b: Seq<SubBatch>,
    offs: OffsetsModel,
    sizes: InstanceSizes,
)
    ensures
        plan_subs(a + b, offs, sizes).0 == plan_subs(a, offs, sizes).0 + plan_subs(
            b,
            plan_subs(a, offs, sizes).1,
            sizes,
        ).0,
        plan_subs(a + b, offs, sizes).1 == plan_subs(b, plan_subs(a, offs, sizes).1, sizes).1,
    decreases a.len(),
{
    if a.len() == 0 {
        assert(a + b =~= b);
        assert(plan_subs(a, offs, sizes).0 + plan_subs(b, offs, sizes).0 =~= plan_subs(
            b,
            offs,
            sizes,
        ).0);
    } else {
        let head = place_sub(a[0], offs, sizes);
        assert((a + b)[0] == a[0]);
        assert((a + b).skip(1) =~= a.skip(1) + b);
        lemma_plan_subs_append(a.skip(1), b, head.1, sizes);
        assert(head.0 + (plan_subs(a.skip(1), head.1, sizes).0 + plan_subs(
            b,
            plan_subs(a.skip(1), head.1, sizes).1,
            sizes,
        ).0) =~= (head.0 + plan_subs(a.skip(1), head.1, sizes).0) + plan_subs(
            b,
            plan_subs(a.skip(1), head.1, sizes).1,
            sizes,
        ).0);
    }
}

/// The sub-batches of a scene extended by one batch are the scene's
/// sub-batches followed by the new batch's.
pub proof fn lemma_scene_subs_snoc(
    batches: Seq<PrimitiveBatch>,
    b: PrimitiveBatch,
    atlas: crate::atlas::AtlasModel,
)
    ensures
        scene_subs(batches.push(b), atlas) == scene_subs(batches, atlas) + sub_batches(b, atlas),
    decreases batches.len(),
{
    if batches.len() == 0 {
        reveal_with_fuel(scene_subs, 3);
        assert(batches.push(b)[0] == b);
        assert(batches.push(b).skip(1) =~= Seq::<PrimitiveBatch>::empty());
        assert(scene_subs(batches.push(b), atlas) =~= scene_subs(batches, atlas) + sub_batches(
            b,
            atlas,
        ));
    } else {
        assert(batches.push(b)[0] == batches[0]);
        assert(batches.push(b).skip(1) =~= batches.skip(1).push(b));
        lemma_scene_subs_snoc(batches.skip(1), b, atlas);
        assert(sub_batches(batches[0], atlas) + (scene_subs(batches.skip(1), atlas) + sub_batches(
            b,
            atlas,
        )) =~= (sub_batches(batches[0], atlas) + scene_subs(batches.skip(1), atlas)) + sub_batches(
            b,
            atlas,
        ));
    }
}

/// Place one primitive run in its kind's buffer: clamp it so nothing is
/// written past the capacity, advance the kind's running offset to the next
/// aligned position, and hand back the draw command, or nothing when nothing
/// fits or nothing was asked for.
pub fn place_primitive(
    kind: PrimitiveKind,
    wavy: bool,
    texture_id: Option<AtlasTextureId>,
    count: u64,
    offsets: &mut FrameOffsets,
    sizes: &InstanceSizes,
) -> (r: Option<DrawCommand>)
    requires
        sizes.wf(),
        old(offsets)@.bounded(),
    ensures
        final(offsets)@.bounded(),
        ({
            let sb = SubBatch { kind, wavy, texture_id, count: count as int };
            let placed = place_sub(sb, old(offsets)@, *sizes);
            &&& final(offsets)@ == placed.1
            &&& match r {
                Some(c) => placed.0 == seq![c],
                None => placed.0 == Seq::<DrawCommand>::empty(),
            }
        }),
{
    let offset = offsets.get(kind);
    let stride = sizes.stride(kind);
    let max = max_instances(kind);
    let p = place_batch(offset, count, stride, max);
    if p.drawn == 0 {
        return None;
    }
    let c = DrawCommand {
        kind,
        wavy,
        texture_id,
        offset: p.offset,
        data_size: p.data_size,
        vertices: match kind {
            PrimitiveKind::Paths => p.drawn as u32,
            _ => 4u32,
        },
        instances: match kind {
            PrimitiveKind::Paths => 1u32,
            _ => p.drawn as u32,
        },
    };
    offsets.set(kind, p.next_offset);
    proof {
        let sb = SubBatch { kind, wavy, texture_id, count: count as int };
        let placed = place_sub(sb, old(offsets)@, *sizes);
        assert(placed.0 == seq![c]);
        assert forall|k: PrimitiveKind|
            0 <= #[trigger] offsets@.get(k) <= 0x2_0000_0000 && offsets@.get(k) % 256 == 0 by {
            assert(0 <= old(offsets)@.get(k) <= 0x2_0000_0000);
            assert(old(offsets)@.get(k) % 256 == 0);
        }
    }
    Some(c)
}

/// Place one sub-batch: clamp it into its kind's buffer, append the command
/// (if anything is drawn) to the plan, and advance the kind's offset.
fn apply_sub(
    kind: PrimitiveKind,
    wavy: bool,
    texture_id: Option<AtlasTextureId>,
    count: u64,
    offsets: &mut FrameOffsets,
    plan: &mut Vec<DrawCommand>,
    sizes: &InstanceSizes,
)
    requires
        sizes.wf(),
        old(offsets)@.bounded(),
    ensures
        final(offsets)@.bounded(),
        ({
            let sb = SubBatch { kind, wavy, texture_id, count: count as int };
            let placed = place_sub(sb, old(offsets)@, *sizes);
            final(plan)@ == old(plan)@ + placed.0 && final(offsets)@ == placed.1
        }),
{
    let got = place_primitive(kind, wavy, texture_id, count, offsets, sizes);
    match got {
        Some(c) => {
            plan.push(c);
            proof {
                let sb = SubBatch { kind, wavy, texture_id, count: count as int };
                assert(final(plan)@ =~= old(plan)@ + place_sub(sb, old(offsets)@, *sizes).0);
            }
        },
        None => {
            proof {
                let sb = SubBatch { kind, wavy, texture_id, count: count as int };
                assert(final(plan)@ =~= old(plan)@ + place_sub(sb, old(offsets)@, *sizes).0);
            }
        },
    }
}

/// Turn a scene into the frame's draw commands: walk the batches in paint
/// order, place each in its kind's instance buffer at the per-frame running
/// offsets (all starting at zero), clamp what does not fit, and skip sprite
/// batches whose texture the atlas does not know. The plan is a function of
/// the scene, the atlas and the instance sizes alone: equal scenes planned on
/// equal atlases give equal plans.
pub fn plan_frame(scene: &Scene, atlas: &WebGpuAtlas, sizes: &InstanceSizes) -> (plan: Vec<
    DrawCommand,
>)
    requires
        atlas.wf(),
        sizes.wf(),
    ensures
        plan@ == plan_subs(scene_subs(scene.batches@, atlas@), OffsetsModel::zero(), *sizes).0,
{
    let mut offsets = FrameOffsets::zero();
    let mut plan: Vec<DrawCommand> = Vec::new();
    let mut i: usize = 0;
    while i < scene.batches.len()
        invariant
            atlas.wf(),
            sizes.wf(),
            i <= scene.batches@.len(),
            offsets@.bounded(),
            plan@ == plan_subs(
                scene_subs(scene.batches@.take(i as int), atlas@),
                OffsetsModel::zero(),
                *sizes,
            ).0,
            offsets@ == plan_subs(
                scene_subs(scene.batches@.take(i as int), atlas@),
                OffsetsModel::zero(),
                *sizes,
            ).1,
        decreases scene.batches@.len() - i,
    {
        let ghost prefix = scene_subs(scene.batches@.take(i as int), atlas@);
        let ghost offs_before = offsets@;
        let ghost plan_before = plan@;
        let batch = &scene.batches[i];
        match batch {
            PrimitiveBatch::Quads { count } => {
                apply_sub(
                    PrimitiveKind::Quads,
                    false,
                    None,
                    *count as u64,
                    &mut offsets,
                    &mut plan,
                    sizes,
                );
            },
            PrimitiveBatch::Shadows { count } => {
                apply_sub(
                    PrimitiveKind::Shadows,
                    false,
                    None,
                    *count as u64,
                    &mut offsets,
                    &mut plan,
                    sizes,
                );
            },
            PrimitiveBatch::Underlines { straight, wavy } => {
                apply_sub(
                    PrimitiveKind::Underlines,
                    false,
                    None,
                    *straight as u64,
                    &mut offsets,
                    &mut plan,
                    sizes,
                );
                apply_sub(
                    PrimitiveKind::Underlines,
                    true,
                    None,
                    *wavy as u64,
                    &mut offsets,
                    &mut plan,
                    sizes,
                );
            },
            PrimitiveBatch::Paths { vertex_counts } => {
                let total = crate::scene::sum_vertices(vertex_counts);
                apply_sub(
                    PrimitiveKind::Paths,
                    false,
                    None,
                    total,
                    &mut offsets,
                    &mut plan,
                    sizes,
                );
            },
            PrimitiveBatch::MonochromeSprites { texture_id, count } => {
                if atlas.get_texture_info(*texture_id).is_some() {
                    apply_sub(
                        PrimitiveKind::MonochromeSprites,
                        false,
                        Some(*texture_id),
                        *count as u64,
                        &mut offsets,
                        &mut plan,
                        sizes,
                    );
                }
            },
            PrimitiveBatch::PolychromeSprites { texture_id, count } => {
                if atlas.get_texture_info(*texture_id).is_some() {
                    apply_sub(
                        PrimitiveKind::PolychromeSprites,
                        false,
                        Some(*texture_id),
                        *count as u64,
                        &mut offsets,
                        &mut plan,
                        sizes,
                    );
                }
            },
        }
        proof {
            reveal_with_fuel(plan_subs, 4);
            let subs_i = sub_batches(scene.batches@[i as int], atlas@);
            assert(scene.batches@.take(i as int + 1) =~= scene.batches@.take(i as int).push(
                scene.batches@[i as int],
            ));
            lemma_scene_subs_snoc(scene.batches@.take(i as int), scene.batches@[i as int], atlas@);
            lemma_plan_subs_append(prefix, subs_i, OffsetsModel::zero(), *sizes);
            if subs_i.len() == 1 {
                assert(subs_i.skip(1) =~= Seq::<SubBatch>::empty());
                let placed = place_sub(subs_i[0], offs_before, *sizes);
                assert(plan_subs(subs_i, offs_before, *sizes).0 =~= placed.0);
                assert(plan_subs(subs_i, offs_before, *sizes).1 == placed.1);
            } else if subs_i.len() == 2 {
                let mid = place_sub(subs_i[0], offs_before, *sizes);
                assert(subs_i.skip(1).skip(1) =~= Seq::<SubBatch>::empty());
                assert(subs_i.skip(1)[0] == subs_i[1]);
                let tail = place_sub(subs_i[1], mid.1, *sizes);
                assert(plan_subs(subs_i.skip(1), mid.1, *sizes).0 =~= tail.0);
                assert(plan_subs(subs_i, offs_before, *sizes).0 =~= mid.0 + tail.0);
                assert(plan_subs(subs_i, offs_before, *sizes).1 == tail.1);
                assert(plan@ =~= (plan_before + mid.0) + tail.0);
                assert(plan_before + (mid.0 + tail.0) =~= (plan_before + mid.0) + tail.0);
            } else {
                assert(subs_i.len() == 0);
                assert(plan_subs(subs_i, offs_before, *sizes).0 =~= Seq::<DrawCommand>::empty());
                assert(plan@ =~= plan_before);
                assert(plan_before + plan_subs(subs_i, offs_before, *sizes).0 =~= plan_before);
            }
            assert(plan@ =~= plan_subs(
                scene_subs(scene.batches@.take(i as int + 1), atlas@),
                OffsetsModel::zero(),
                *sizes,
            ).0);
            assert(offsets@ == plan_subs(
                scene_subs(scene.batches@.take(i as int + 1), atlas@),
                OffsetsModel::zero(),
                *sizes,
            ).1);
        }
        i += 1;
    }
    proof {
        assert(scene.batches@.take(scene.batches@.len() as int) =~= scene.batches@);
    }
    plan
}

/// A command the GPU can take: its write offset is aligned and the write
/// ends within its kind's buffer capacity.
pub open spec fn command_sound(c: DrawCommand, sizes: InstanceSizes) -> bool {
    &&& c.offset as int % 256 == 0
    &&& c.offset as int + c.data_size as int <= spec_capacity(c.kind, sizes)
}

/// Within one plan, commands of one kind write at non-decreasing offsets:
/// each command's write ends at or before the next same-kind write begins.
pub open spec fn cmds_monotone(cmds: Seq<DrawCommand>) -> bool {
    forall|i: int, j: int|
        0 <= i < j < cmds.len() && (#[trigger] cmds[i]).kind == (#[trigger] cmds[j]).kind
            ==> cmds[i].offset as int + cmds[i].data_size as int <= cmds[j].offset as int
}

/// Sub-batches never ask for a negative count.
pub open spec fn subs_counts_ok(subs: Seq<SubBatch>) -> bool {
    forall|i: int| 0 <= i < subs.len() ==> (#[trigger] subs[i]).count >= 0
}

/// Placing one sub-batch keeps the offsets aligned and bounded, moves them
/// only forward, and emits at most one sound command, at the kind's current
/// offset, whose write ends at or before the kind's new offset.
proof fn lemma_place_sub_sound(sb: SubBatch, offs: OffsetsModel, sizes: InstanceSizes)
    requires
        sizes.wf(),
        offs.bounded(),
        sb.count >= 0,
    ensures
        place_sub(sb, offs, sizes).1.bounded(),
        forall|k: PrimitiveKind| #[trigger]
            place_sub(sb, offs, sizes).1.get(k) >= offs.get(k),
        place_sub(sb, offs, sizes).0.len() <= 1,
        forall|i: int|
            0 <= i < place_sub(sb, offs, sizes).0.len() ==> {
                let c = #[trigger] place_sub(sb, offs, sizes).0[i];
                &&& command_sound(c, sizes)
                &&& c.kind == sb.kind
                &&& c.offset as int == offs.get(sb.kind)
                &&& c.offset as int + c.data_size as int <= place_sub(sb, offs, sizes).1.get(
                    sb.kind,
                )
            },
{
    let offset = offs.get(sb.kind);
    let stride = sizes.spec_stride(sb.kind);
    let max = spec_max_instances(sb.kind);
    let cap = spec_capacity(sb.kind, sizes);
    let drawn = spec_drawn(sb.count, cap, offset, stride);
    assert(cap <= 65536 * 65536) by (nonlinear_arith)
        requires
            cap == max * stride,
            1 <= stride <= 65536,
            1 <= max <= 65536,
    ;
    lemma_avail(cap, offset, stride, max);
    if drawn != 0 {
        let avail = spec_avail(cap, offset, stride);
        assert(offset < cap);
        assert(drawn * stride <= avail * stride) by (nonlinear_arith)
            requires
                0 <= drawn <= avail,
                0 <= stride,
        ;
        assert(0 <= drawn * stride) by (nonlinear_arith)
            requires
                0 <= drawn,
                0 <= stride,
        ;
        lemma_align_up(offset + drawn * stride);
        let offs2 = place_sub(sb, offs, sizes).1;
        assert forall|k: PrimitiveKind|
            0 <= #[trigger] offs2.get(k) <= 0x2_0000_0000 && offs2.get(k) % 256 == 0 by {
            assert(0 <= offs.get(k) <= 0x2_0000_0000);
            assert(offs.get(k) % 256 == 0);
        }
        assert forall|k: PrimitiveKind| #[trigger] offs2.get(k) >= offs.get(k) by {
            assert(offs.get(k) <= offs.get(k));
        }
    }
}

/// Planning a sequence of sub-batches from aligned, bounded offsets yields
/// only sound commands, each at or above its kind's starting offset, with
/// same-kind commands at non-decreasing offsets, and leaves the offsets
/// aligned, bounded and no smaller.
proof fn lemma_plan_subs_sound(subs: Seq<SubBatch>, offs: OffsetsModel, sizes: InstanceSizes)
    requires
        sizes.wf(),
        offs.bounded(),
        subs_counts_ok(subs),
    ensures
        plan_subs(subs, offs, sizes).1.bounded(),
        forall|k: PrimitiveKind| #[trigger]
            plan_subs(subs, offs, sizes).1.get(k) >= offs.get(k),
        forall|i: int|
            0 <= i < plan_subs(subs, offs, sizes).0.len() ==> {
                let c = #[trigger] plan_subs(subs, offs, sizes).0[i];
                &&& command_sound(c, sizes)
                &&& c.offset as int >= offs.get(c.kind)
                &&& c.offset as int + c.data_size as int <= plan_subs(subs, offs, sizes).1.get(
                    c.kind,
                )
            },
        cmds_monotone(plan_subs(subs, offs, sizes).0),
    decreases subs.len(),
{
    if subs.len() == 0 {
    } else {
        let head = place_sub(subs[0], offs, sizes);
        lemma_place_sub_sound(subs[0], offs, sizes);
        assert(subs_counts_ok(subs.skip(1))) by {
            assert forall|i: int| 0 <= i < subs.skip(1).len() implies (#[trigger] subs.skip(1)[i]).count
                >= 0 by {
                assert(subs.skip(1)[i] == subs[i + 1]);
            }
        }
        lemma_plan_subs_sound(subs.skip(1), head.1, sizes);
        let rest = plan_subs(subs.skip(1), head.1, sizes);
        let cmds = plan_subs(subs, offs, sizes).0;
        assert(cmds == head.0 + rest.0);
        assert forall|i: int|
            0 <= i < cmds.len() implies {
            let c = #[trigger] cmds[i];
            &&& command_sound(c, sizes)
            &&& c.offset as int >= offs.get(c.kind)
            &&& c.offset as int + c.data_size as int <= plan_subs(subs, offs, sizes).1.get(c.kind)
        } by {
            if i < head.0.len() {
                assert(cmds[i] == head.0[i]);
                assert(rest.1.get(cmds[i].kind) >= head.1.get(cmds[i].kind));
            } else {
                assert(cmds[i] == rest.0[i - head.0.len()]);
                assert(rest.0[i - head.0.len()].offset as int >= head.1.get(
                    rest.0[i - head.0.len()].kind,
                ));
                assert(head.1.get(cmds[i].kind) >= offs.get(cmds[i].kind));
            }
        }
        assert forall|i: int, j: int|
            0 <= i < j < cmds.len() && (#[trigger] cmds[i]).kind == (#[trigger] cmds[j]).kind
                implies cmds[i].offset as int + cmds[i].data_size as int <= cmds[j].offset
            as int by {
            if i < head.0.len() {
                assert(cmds[i] == head.0[i]);
                assert(cmds[j] == rest.0[j - head.0.len()]);
                assert(cmds[i].offset as int + cmds[i].data_size as int <= head.1.get(
                    cmds[i].kind,
                ));
                assert(cmds[j].offset as int >= head.1.get(cmds[j].kind));
            } else {
                assert(cmds[i] == rest.0[i - head.0.len()]);
                assert(cmds[j] == rest.0[j - head.0.len()]);
            }
        }
    }
}

/// Every sub-batch a scene asks for has a non-negative count.
proof fn lemma_scene_subs_counts_ok(batches: Seq<PrimitiveBatch>, atlas: crate::atlas::AtlasModel)
    ensures
        subs_counts_ok(scene_subs(batches, atlas)),
    decreases batches.len(),
{
    if batches.len() > 0 {
        let head = sub_batches(batches[0], atlas);
        assert(subs_counts_ok(head)) by {
            match batches[0] {
                PrimitiveBatch::Paths { vertex_counts } => {
                    crate::scene::lemma_total_vertices_nonneg(vertex_counts@);
                },
                _ => {},
            }
        }
        lemma_scene_subs_counts_ok(batches.skip(1), atlas);
        assert forall|i: int|
            0 <= i < scene_subs(batches, atlas).len() implies (#[trigger] scene_subs(
            batches,
            atlas,
        )[i]).count >= 0 by {
            if i < head.len() {
                assert(scene_subs(batches, atlas)[i] == head[i]);
            } else {
                assert(scene_subs(batches, atlas)[i] == scene_subs(batches.skip(1), atlas)[i
                    - head.len()]);
            }
        }
    }
}

/// Law: in the plan of one frame, every command's write offset is a multiple
/// of the storage buffer alignment and its write ends within its kind's
/// buffer capacity (instances are clamped, never written out of bounds); and
/// for a given primitive kind, successive commands write at non-decreasing
/// offsets. The offsets start at zero each frame.
pub proof fn lemma_frame_plan_sound(
    batches: Seq<PrimitiveBatch>,
    atlas: crate::atlas::AtlasModel,
    sizes: InstanceSizes,
)
    requires
        sizes.wf(),
    ensures
        ({
            let cmds = plan_subs(scene_subs(batches, atlas), OffsetsModel::zero(), sizes).0;
            &&& forall|i: int|
                0 <= i < cmds.len() ==> command_sound(#[trigger] cmds[i], sizes)
            &&& cmds_monotone(cmds)
        }),
{
    lemma_scene_subs_counts_ok(batches, atlas);
    lemma_plan_subs_sound(scene_subs(batches, atlas), OffsetsModel::zero(), sizes);
}

} // verus!
