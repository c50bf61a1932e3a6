//! The shape batcher: concatenates each shape's tessellated geometry
//! into one shared vertex array and one shared index array, rebasing
//! each shape's indices onto the shared arrays, and records one draw
//! entry per shape. The entries partition the shared index array
//! contiguously and in shape-submission order.

use vstd::prelude::*;
use crate::geometry::{
    Bound, PackedVertex, ShapeGeometry, cat_indices, cat_vertices, lemma_cat_indices_prefix_le,
    lemma_cat_indices_step, lemma_cat_vertices_prefix_le, lemma_cat_vertices_step,
    rebase_indices, shape_wf, shapes_wf,
};

verus! {

/// One recorded draw call: the contiguous sub-range of the shared index
/// array that one shape occupies, with that shape's clip rectangle.
#[derive(Clone, Copy, PartialEq, Eq, Debug)]
pub struct DrawEntry {
    pub start: usize,
    pub end: usize,
    pub bound: Bound,
}

/// The shared per-frame geometry arrays all shapes are batched into.
pub struct GeometryBatch {
    pub vertices: Vec<PackedVertex>,
    pub indices: Vec<u16>,
}

/// Every index of the batch references an existing vertex of the batch.
pub open spec fn batch_wf(b: GeometryBatch) -> bool {
    forall|j: int| 0 <= j < b.indices@.len() ==> (b.indices@[j] as int) < b.vertices@.len()
}

/// The draw entry the `k`-th shape of a frame receives: the index range
/// between the totals of the first `k` and the first `k + 1` shapes.
pub open spec fn entry_for(shapes: Seq<ShapeGeometry>, k: int) -> DrawEntry {
    DrawEntry {
        start: cat_indices(shapes.take(k)).len() as usize,
        end: cat_indices(shapes.take(k + 1)).len() as usize,
        bound: shapes[k].bound,
    }
}

/// All draw entries of a frame, one per shape, in shape order.
pub open spec fn entries_for(shapes: Seq<ShapeGeometry>) -> Seq<DrawEntry> {
    Seq::new(shapes.len(), |k: int| entry_for(shapes, k))
}

/// The entries exactly and contiguously partition an index array of
/// `total` entries, in order: the first entry starts at zero, each entry
/// ends where the next begins, and the last entry ends at `total`.
pub open spec fn entries_partition(entries: Seq<DrawEntry>, total: int) -> bool {
    &&& entries.len() == 0 ==> total == 0
    &&& entries.len() > 0 ==> entries[0].start == 0
    &&& entries.len() > 0 ==> entries[entries.len() - 1].end == total
    &&& forall|i: int|
        0 <= i < entries.len() - 1 ==> #[trigger] entries[i].end == entries[i + 1].start
    &&& forall|i: int|
        0 <= i < entries.len() ==> #[trigger] entries[i].start <= entries[i].end <= total
}

/// The entries that issue a draw call: those whose index range is not
/// empty, kept in order. A zero-length range draws nothing and is
/// skipped.
pub open spec fn active_entries(entries: Seq<DrawEntry>) -> Seq<DrawEntry>
    decreases entries.len(),
{
    if entries.len() == 0 {
        Seq::empty()
    } else {
        let rest = active_entries(entries.drop_last());
        let e = entries.last();
        if e.start < e.end {
            rest.push(e)
        } else {
            rest
        }
    }
}

/// Unfolding `active_entries` one entry at a time along a prefix.
pub proof fn lemma_active_entries_step(entries: Seq<DrawEntry>, k: int)
    requires
        0 <= k < entries.len(),
    ensures
        active_entries(entries.take(k + 1)) == if entries[k].start < entries[k].end {
            active_entries(entries.take(k)).push(entries[k])
        } else {
            active_entries(entries.take(k))
        },
{
    assert(entries.take(k + 1).drop_last() =~= entries.take(k));
    assert(entries.take(k + 1).last() == entries[k]);
}

/// Every active entry's range is non-empty and stays within the bound
/// that holds of every recorded entry.
pub proof fn lemma_active_entries_bounds(entries: Seq<DrawEntry>, total: int)
    requires
        forall|i: int| 0 <= i < entries.len() ==> #[trigger] entries[i].end <= total,
    ensures
        forall|i: int|
            0 <= i < active_entries(entries).len() ==> #[trigger] active_entries(entries)[i].start
                < active_entries(entries)[i].end <= total,
    decreases entries.len(),
{
    if entries.len() > 0 {
        let prev = entries.drop_last();
        assert forall|i: int| 0 <= i < prev.len() implies #[trigger] prev[i].end <= total by {
            assert(entries[i].end <= total);
        }
        lemma_active_entries_bounds(prev, total);
        let e = entries.last();
        assert(entries[entries.len() - 1].end <= total);
        if e.start < e.end {
            let r = active_entries(entries);
            assert(r == active_entries(prev).push(e));
            assert forall|i: int| 0 <= i < r.len() implies #[trigger] r[i].start < r[i].end
                <= total by {
                if i < r.len() - 1 {
                    assert(r[i] == active_entries(prev)[i]);
                } else {
                    assert(r[i] == e);
                }
            }
        }
    }
}

/// A frame where every entry's range is empty issues no draw call:
/// entries may well be recorded, but none of them draws.
pub proof fn lemma_all_empty_entries_draw_nothing(entries: Seq<DrawEntry>)
    requires
        forall|i: int| 0 <= i < entries.len() ==> #[trigger] entries[i].start == entries[i].end,
    ensures
        active_entries(entries) == Seq::<DrawEntry>::empty(),
    decreases entries.len(),
{
    if entries.len() > 0 {
        lemma_all_empty_entries_draw_nothing(entries.drop_last());
    }
}

/// The entries a frame's shapes receive always partition the shared
/// index array contiguously and in shape order.
#[verifier::rlimit(50)]
pub proof fn lemma_entries_for_partition(shapes: Seq<ShapeGeometry>)
    requires
        cat_indices(shapes).len() <= usize::MAX,
    ensures
        entries_partition(entries_for(shapes), cat_indices(shapes).len() as int),
{
    let entries = entries_for(shapes);
    let total = cat_indices(shapes).len() as int;
    assert(shapes.take(0) =~= Seq::<ShapeGeometry>::empty());
    if shapes.len() == 0 {
        assert(cat_indices(shapes).len() == 0);
    } else {
        assert(shapes.take(shapes.len() as int) =~= shapes);
        assert(entries[0] == entry_for(shapes, 0));
        assert(entries[entries.len() - 1] == entry_for(shapes, shapes.len() - 1));
    }
    assert forall|i: int| 0 <= i < entries.len() implies #[trigger] entries[i].start
        <= entries[i].end <= total by {
        assert(entries[i] == entry_for(shapes, i));
        lemma_cat_indices_step(shapes, i);
        lemma_cat_indices_prefix_le(shapes, i + 1);
    }
    assert forall|i: int| 0 <= i < entries.len() - 1 implies #[trigger] entries[i].end
        == entries[i + 1].start by {
        assert(entries[i] == entry_for(shapes, i));
        assert(entries[i + 1] == entry_for(shapes, i + 1));
    }
}

/// A frame whose batch has no indices at all issues no draw call, even
/// though every shape still received its own entry: with a total of
/// zero, every recorded range is empty and every entry is skipped.
pub proof fn lemma_empty_frame_draws_nothing(shapes: Seq<ShapeGeometry>)
    requires
        cat_indices(shapes).len() == 0,
    ensures
        active_entries(entries_for(shapes)) == Seq::<DrawEntry>::empty(),
{
    lemma_entries_for_partition(shapes);
    let entries = entries_for(shapes);
    assert forall|i: int| 0 <= i < entries.len() implies #[trigger] entries[i].start
        == entries[i].end by {
        assert(entries[i].start <= entries[i].end <= 0);
    }
    lemma_all_empty_entries_draw_nothing(entries);
}

/// Accumulates the tessellated output of an ordered sequence of shapes
/// into one shared vertex array and one shared index array, recording
/// for each shape the contiguous index sub-range it occupies and its
/// clip rectangle.
pub struct ShapeBatcher {
    pub batch: GeometryBatch,
    pub entries: Vec<DrawEntry>,
}

impl ShapeBatcher {
    /// A batcher holding no geometry and no entries.
    pub fn new() -> (r: ShapeBatcher)
        ensures
            r.batch.vertices@.len() == 0,
            r.batch.indices@.len() == 0,
            r.entries@.len() == 0,
    {
        ShapeBatcher {
            batch: GeometryBatch { vertices: Vec::new(), indices: Vec::new() },
            entries: Vec::new(),
        }
    }

    /// Clears the previous frame's arrays and entries, then batches the
    /// given shapes in input order: each shape's vertices are appended
    /// to the shared vertex array, its indices are rebased by the vertex
    /// count that preceded it and appended to the shared index array,
    /// and it receives one draw entry covering exactly its contribution.
    /// Entries preserve input order; nothing is reordered, culled or
    /// merged.
    #[verifier::loop_isolation(false)]
    #[verifier::rlimit(50)]
    pub fn build(&mut self, shapes: &Vec<ShapeGeometry>)
        requires
            shapes_wf(shapes@),
        ensures
            final(self).batch.vertices@ == cat_vertices(shapes@),
            final(self).batch.indices@ == cat_indices(shapes@),
            final(self).entries@ == entries_for(shapes@),
            final(self).entries@.len() == shapes@.len(),
            batch_wf(final(self).batch),
            entries_partition(final(self).entries@, final(self).batch.indices@.len() as int),
    {
        self.batch.vertices.clear();
        self.batch.indices.clear();
        self.entries.clear();
        proof {
            assert(shapes@.take(0) =~= Seq::<ShapeGeometry>::empty());
        }

        let mut k: usize = 0;
        while k < shapes.len()
            invariant
                0 <= k <= shapes@.len(),
                self.batch.vertices@ == cat_vertices(shapes@.take(k as int)),
                self.batch.indices@ == cat_indices(shapes@.take(k as int)),
                self.entries@ == entries_for(shapes@).take(k as int),
                batch_wf(self.batch),
            decreases shapes@.len() - k,
        {
            let shape = &shapes[k];
            proof {
                lemma_cat_vertices_step(shapes@, k as int);
                lemma_cat_indices_step(shapes@, k as int);
                lemma_cat_vertices_prefix_le(shapes@, k as int + 1);
                lemma_cat_indices_prefix_le(shapes@, k as int + 1);
            }
            let base: usize = self.batch.vertices.len();
            let start: usize = self.batch.indices.len();

            proof {
                assert(self.batch.vertices@ =~= cat_vertices(shapes@.take(k as int))
                    + shape.vertices@.take(0));
            }
            let mut j: usize = 0;
            while j < shape.vertices.len()
                invariant
                    0 <= j <= shape.vertices@.len(),
                    self.batch.vertices@ == cat_vertices(shapes@.take(k as int))
                        + shape.vertices@.take(j as int),
                    self.batch.indices@ == cat_indices(shapes@.take(k as int)),
                    self.entries@ == entries_for(shapes@).take(k as int),
                    batch_wf(self.batch),
                decreases shape.vertices@.len() - j,
            {
                self.batch.vertices.push(shape.vertices[j]);
                proof {
                    assert(self.batch.vertices@ =~= cat_vertices(shapes@.take(k as int))
                        + shape.vertices@.take(j as int + 1));
                }
                j = j + 1;
            }
            proof {
                assert(shape.vertices@.take(shape.vertices@.len() as int) =~= shape.vertices@);
            }

            proof {
                assert(self.batch.indices@ =~= cat_indices(shapes@.take(k as int))
                    + rebase_indices(shape.indices@.take(0), base as int));
            }
            let mut j: usize = 0;
            while j < shape.indices.len()
                invariant
                    0 <= j <= shape.indices@.len(),
                    self.batch.vertices@ == cat_vertices(shapes@.take(k as int + 1)),
                    self.batch.indices@ == cat_indices(shapes@.take(k as int))
                        + rebase_indices(shape.indices@.take(j as int), base as int),
                    self.entries@ == entries_for(shapes@).take(k as int),
                    batch_wf(self.batch),
                decreases shape.indices@.len() - j,
            {
                proof {
                    assert(shape_wf(shapes@[k as int]));
                    assert((shape.indices@[j as int] as int) < shape.vertices@.len());
                }
                let idx: u16 = shape.indices[j];
                let rebased: u16 = idx + (base as u16);
                self.batch.indices.push(rebased);
                proof {
                    assert(self.batch.indices@ =~= cat_indices(shapes@.take(k as int))
                        + rebase_indices(shape.indices@.take(j as int + 1), base as int));
                }
                j = j + 1;
            }
            proof {
                assert(shape.indices@.take(shape.indices@.len() as int) =~= shape.indices@);
            }

            let end: usize = self.batch.indices.len();
            self.entries.push(DrawEntry { start, end, bound: shape.bound });
            proof {
                assert(self.entries@ =~= entries_for(shapes@).take(k as int + 1));
            }
            k = k + 1;
        }
        proof {
            assert(shapes@.take(shapes@.len() as int) =~= shapes@);
            assert(entries_for(shapes@).take(shapes@.len() as int) =~= entries_for(shapes@));
            lemma_entries_for_partition(shapes@);
        }
    }

    /// Returns the draw calls of the current batch: the recorded entries
    /// whose index range is not empty, in recorded order.
    #[verifier::loop_isolation(false)]
    pub fn draw_calls(&self) -> (r: Vec<DrawEntry>)
        ensures
            r@ == active_entries(self.entries@),
    {
        let mut r: Vec<DrawEntry> = Vec::new();
        let mut k: usize = 0;
        while k < self.entries.len()
            invariant
                0 <= k <= self.entries@.len(),
                r@ == active_entries(self.entries@.take(k as int)),
            decreases self.entries@.len() - k,
        {
            proof {
                lemma_active_entries_step(self.entries@, k as int);
            }
            let e = self.entries[k];
            if e.start < e.end {
                r.push(e);
            }
            k = k + 1;
        }
        proof {
            assert(self.entries@.take(self.entries@.len() as int) =~= self.entries@);
        }
        r
    }
}

} // verus!
