//! The scene a frame draws: an ordered sequence of typed primitive batches,
//! produced fresh each frame by the UI layer and read-only to the renderer.
//! Batch order is paint order and is preserved; only counts, texture
//! identities and the underline style split matter to draw planning, so that
//! is what a batch records (the GPU layer owns the raw instance records).

use vstd::prelude::*;

use crate::atlas::AtlasTextureId;

verus! {

/// One batch of primitives of a single kind. Sprite batches name the one
/// atlas texture all their sprites sample from (a caller-side grouping
/// invariant); underline batches tell straight from wavy underlines, which
/// draw with distinct pipelines; path batches list the vertex count of each
/// path.
pub enum PrimitiveBatch {
    Quads { count: usize },
    Shadows { count: usize },
    Underlines { straight: usize, wavy: usize },
    Paths { vertex_counts: Vec<usize> },
    MonochromeSprites { texture_id: AtlasTextureId, count: usize },
    PolychromeSprites { texture_id: AtlasTextureId, count: usize },
}

/// An ordered sequence of primitive batches; paint order equals sequence
/// order, and the renderer never reorders or merges across batch boundaries.
pub struct Scene {
    pub batches: Vec<PrimitiveBatch>,
}

impl Scene {
    /// An empty scene.
    pub fn new() -> (r: Scene)
        ensures
            r.batches@.len() == 0,
    {
        Scene { batches: Vec::new() }
    }

    /// The batches, in paint order.
    pub fn batches(&self) -> (r: &Vec<PrimitiveBatch>)
        ensures
            r == &self.batches,
    {
        &self.batches
    }
}

/// The total vertex count of a path batch.
pub open spec fn total_vertices(counts: Seq<usize>) -> int
    decreases counts.len(),
{
    if counts.len() == 0 {
        0
    } else {
        total_vertices(counts.drop_last()) + counts.last()
    }
}

/// Vertex counts never total below zero.
pub proof fn lemma_total_vertices_nonneg(counts: Seq<usize>)
    ensures
        0 <= total_vertices(counts),
    decreases counts.len(),
{
    if counts.len() > 0 {
        lemma_total_vertices_nonneg(counts.drop_last());
    }
}

/// Sum the vertex counts of a path batch, saturating at the accumulator's
/// maximum (a total that large cannot be drawn anyway: the drawn count is
/// clamped to the vertex buffer's capacity).
pub fn sum_vertices(counts: &Vec<usize>) -> (r: u64)
    ensures
        r as int == if total_vertices(counts@) <= u64::MAX as int {
            total_vertices(counts@)
        } else {
            u64::MAX as int
        },
{
    proof {
        lemma_total_vertices_nonneg(counts@);
    }
    let mut acc: u64 = 0;
    let mut i: usize = 0;
    while i < counts.len()
        invariant
            i <= counts@.len(),
            0 <= total_vertices(counts@.take(i as int)),
            acc as int == if total_vertices(counts@.take(i as int)) <= u64::MAX as int {
                total_vertices(counts@.take(i as int))
            } else {
                u64::MAX as int
            },
        decreases counts@.len() - i,
    {
        let c = counts[i];
        proof {
            assert(counts@.take(i as int + 1).drop_last() =~= counts@.take(i as int));
            assert(counts@.take(i as int + 1).last() == counts@[i as int]);
            lemma_total_vertices_nonneg(counts@.take(i as int));
        }
        acc = acc.saturating_add(c as u64);
        i += 1;
    }
    proof {
        assert(counts@.take(counts@.len() as int) =~= counts@);
    }
    acc
}

} // verus!
