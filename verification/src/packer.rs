//! Trusted interface to the rectangle allocator of the `etagere` crate.
//!
//! The atlas packs tiles with `etagere::BucketedAtlasAllocator`, a shelf
//! packing allocator. Verus never looks inside it; its live allocations are
//! named by the uninterpreted functions below, and the two wrappers state
//! what `new` and `allocate` do to them, as the crate's source shows.

use vstd::prelude::*;

verus! {

#[verifier::external_type_specification]
#[verifier::external_body]
pub struct ExBucketedAtlasAllocator(etagere::BucketedAtlasAllocator);

/// The rectangles of the allocator's live allocations, in order of creation,
/// each as `(x0, y0, x1, y1)` edges in grid pixels.
pub uninterp spec fn packer_rects(a: etagere::BucketedAtlasAllocator) -> Seq<(int, int, int, int)>;

/// The grid size `(width, height)` the allocator was created with.
pub uninterp spec fn packer_grid(a: etagere::BucketedAtlasAllocator) -> (int, int);

/// True of an allocator exactly as `new` made it, before any allocation was
/// attempted. On such an allocator the first fitting request cannot fail;
/// after deallocations an allocator with no live rectangles gives no such
/// promise (its internal shelves may retain an unusable layout), which is why
/// this is a separate notion from the live allocations being empty.
pub uninterp spec fn packer_untouched(a: etagere::BucketedAtlasAllocator) -> bool;

/// The rectangle covered by an allocation entry.
pub open spec fn entry_rect(t: (int, int, int, int)) -> crate::geometry::GridRect {
    crate::geometry::GridRect { x0: t.0, y0: t.1, x1: t.2, y1: t.3 }
}

/// True when the entry lies inside a `width` by `height` grid and covers at
/// least one pixel.
pub open spec fn entry_in_grid(t: (int, int, int, int), grid: (int, int)) -> bool {
    &&& 0 <= t.0 < t.2 <= grid.0
    &&& 0 <= t.1 < t.3 <= grid.1
}

/// One rectangle handed out by the allocator: its edges and the allocator's
/// identifier for it.
#[derive(Clone, Copy, Debug, PartialEq, Eq, Structural)]
pub struct PackedRect {
    pub id: u32,
    pub min_x: i32,
    pub min_y: i32,
    pub max_x: i32,
    pub max_y: i32,
}

impl PackedRect {
    /// The allocation entry this rectangle corresponds to.
    pub open spec fn entry(self) -> (int, int, int, int) {
        (self.min_x as int, self.min_y as int, self.max_x as int, self.max_y as int)
    }
}

/// Relies on `etagere::BucketedAtlasAllocator::new`: creates an allocator for
/// the given grid with no live allocations and nothing attempted yet. The
/// size bound is the allocator's own limit (it rejects grids of 65535 or more
/// per side); the area bound keeps its internal `i32` space accounting exact.
#[verifier::external_body]
pub fn packer_new(width: i32, height: i32) -> (r: etagere::BucketedAtlasAllocator)
    requires
        1 <= width < 65535,
        1 <= height < 65535,
        width * height <= 0x7fff_ffff,
    ensures
        packer_rects(r) == Seq::<(int, int, int, int)>::empty(),
        packer_grid(r) == (width as int, height as int),
        packer_untouched(r),
{
    etagere::BucketedAtlasAllocator::new(etagere::size2(width, height))
}

/// Relies on `etagere::BucketedAtlasAllocator::allocate`: on success the new
/// rectangle covers at least `width` by `height` pixels, lies inside the
/// grid, and is disjoint from every live allocation; on failure the live
/// allocations are unchanged. Empty and oversized requests are rejected by
/// returning `None` before anything changes, and on an untouched allocator a
/// request that fits the grid always succeeds (the first shelf is carved to
/// hold it). The height cap is the allocator's shelf rounding: it rounds a
/// requested height up to a 64-pixel multiple inside a `u16`, so heights
/// above 65472 would overflow it; below the cap the call never panics.
#[verifier::external_body]
pub fn packer_allocate(
    a: &mut etagere::BucketedAtlasAllocator,
    width: i32,
    height: i32,
) -> (r: Option<PackedRect>)
    requires
        height <= 65472,
    ensures
        packer_grid(*final(a)) == packer_grid(*old(a)),
        match r {
            Some(pr) => {
                &&& pr.max_x - pr.min_x >= width
                &&& pr.max_y - pr.min_y >= height
                &&& entry_in_grid(pr.entry(), packer_grid(*old(a)))
                &&& packer_rects(*final(a)) == packer_rects(*old(a)).push(pr.entry())
                &&& forall|i: int|
                    0 <= i < packer_rects(*old(a)).len() ==> !entry_rect(pr.entry()).overlaps(
                        entry_rect(#[trigger] packer_rects(*old(a))[i]),
                    )
            },
            None => packer_rects(*final(a)) == packer_rects(*old(a)),
        },
        packer_untouched(*old(a)) && 1 <= width <= packer_grid(*old(a)).0 && 1 <= height
            <= packer_grid(*old(a)).1 ==> r is Some,
{
    let allocation = a.allocate(etagere::size2(width, height))?;
    Some(PackedRect {
        id: allocation.id.serialize(),
        min_x: allocation.rectangle.min.x,
        min_y: allocation.rectangle.min.y,
        max_x: allocation.rectangle.max.x,
        max_y: allocation.rectangle.max.y,
    })
}

} // verus!
