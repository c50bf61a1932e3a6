//! The data model of one frame's geometry: packed vertices, per-shape
//! tessellated triangle lists, and the mathematical shape of the batch
//! that concatenating them produces.

use vstd::prelude::*;

verus! {

/// An axis-aligned clip rectangle in target-surface pixel space:
/// `(x, y, width, height)`.
pub type Bound = (u32, u32, u32, u32);

/// Index values are 16 bits wide, so at most `0x1_0000` vertices of a
/// batch are addressable; a well-formed frame never exceeds this.
pub const VERTEX_LIMIT: usize = 0x1_0000;

/// Draw ranges are handed to the GPU as 32-bit offsets; a well-formed
/// frame keeps the total index count comfortably below that.
pub const INDEX_LIMIT: usize = 0x4000_0000;

/// One vertex in the exact memory layout the render pipeline consumes:
/// six 32-bit little-endian lanes (position x and y, linear color r, g
/// and b, then depth), 24 bytes in all. Each lane carries the bit
/// pattern of one 32-bit float; the batching logic never interprets the
/// lanes, it only moves and serializes them.
#[derive(Clone, Copy, PartialEq, Eq, Debug)]
pub struct PackedVertex {
    pub position_x: u32,
    pub position_y: u32,
    pub color_r: u32,
    pub color_g: u32,
    pub color_b: u32,
    pub depth: u32,
}

/// The tessellated triangle list of one shape together with its clip
/// rectangle. `indices` reference `vertices` by position within this
/// shape alone; the batcher rebases them onto the shared arrays.
pub struct ShapeGeometry {
    pub vertices: Vec<PackedVertex>,
    pub indices: Vec<u16>,
    pub bound: Bound,
}

/// Every index of one shape points at one of that shape's own vertices.
pub open spec fn shape_wf(s: ShapeGeometry) -> bool {
    forall|j: int| 0 <= j < s.indices@.len() ==> (s.indices@[j] as int) < s.vertices@.len()
}

/// All vertices of a frame's shapes, in shape order.
pub open spec fn cat_vertices(shapes: Seq<ShapeGeometry>) -> Seq<PackedVertex>
    decreases shapes.len(),
{
    if shapes.len() == 0 {
        Seq::empty()
    } else {
        cat_vertices(shapes.drop_last()) + shapes.last().vertices@
    }
}

/// One shape's indices, moved up by the number of vertices that earlier
/// shapes contributed, so that they reference the shared vertex array.
pub open spec fn rebase_indices(indices: Seq<u16>, base: int) -> Seq<u16> {
    indices.map_values(|i: u16| (i + base) as u16)
}

/// All indices of a frame's shapes, in shape order, each shape's
/// contribution rebased onto the shared vertex array.
pub open spec fn cat_indices(shapes: Seq<ShapeGeometry>) -> Seq<u16>
    decreases shapes.len(),
{
    if shapes.len() == 0 {
        Seq::empty()
    } else {
        cat_indices(shapes.drop_last())
            + rebase_indices(shapes.last().indices@, cat_vertices(shapes.drop_last()).len() as int)
    }
}

/// A frame's input is well formed: each shape is self-consistent and the
/// totals stay within what 16-bit indices and 32-bit draw ranges allow.
pub open spec fn shapes_wf(shapes: Seq<ShapeGeometry>) -> bool {
    &&& forall|k: int| 0 <= k < shapes.len() ==> shape_wf(#[trigger] shapes[k])
    &&& cat_vertices(shapes).len() <= VERTEX_LIMIT
    &&& cat_indices(shapes).len() <= INDEX_LIMIT
}

/// Unfolding `cat_vertices` one shape at a time along a prefix.
pub proof fn lemma_cat_vertices_step(shapes: Seq<ShapeGeometry>, k: int)
    requires
        0 <= k < shapes.len(),
    ensures
        cat_vertices(shapes.take(k + 1)) == cat_vertices(shapes.take(k)) + shapes[k].vertices@,
    decreases shapes.len(),
{
    assert(shapes.take(k + 1).drop_last() =~= shapes.take(k));
    assert(shapes.take(k + 1).last() == shapes[k]);
}

/// Unfolding `cat_indices` one shape at a time along a prefix.
pub proof fn lemma_cat_indices_step(shapes: Seq<ShapeGeometry>, k: int)
    requires
        0 <= k < shapes.len(),
    ensures
        cat_indices(shapes.take(k + 1)) == cat_indices(shapes.take(k))
            + rebase_indices(shapes[k].indices@, cat_vertices(shapes.take(k)).len() as int),
{
    assert(shapes.take(k + 1).drop_last() =~= shapes.take(k));
    assert(shapes.take(k + 1).last() == shapes[k]);
}

/// Decides `shapes_wf`, so that a caller outside the library can
/// establish `prepare`'s precondition by running this check first:
/// returns whether every shape's indices reference its own vertices and
/// the frame's totals stay within the index-format limits.
#[verifier::loop_isolation(false)]
#[verifier::rlimit(50)]
pub fn check_shapes(shapes: &Vec<ShapeGeometry>) -> (r: bool)
    ensures
        r == shapes_wf(shapes@),
{
    proof {
        assert(shapes@.take(0) =~= Seq::<ShapeGeometry>::empty());
    }
    let mut total_v: usize = 0;
    let mut total_i: usize = 0;
    let mut k: usize = 0;
    while k < shapes.len()
        invariant
            0 <= k <= shapes@.len(),
            total_v == cat_vertices(shapes@.take(k as int)).len(),
            total_i == cat_indices(shapes@.take(k as int)).len(),
            total_v <= VERTEX_LIMIT,
            total_i <= INDEX_LIMIT,
            forall|k2: int| 0 <= k2 < k ==> shape_wf(#[trigger] shapes@[k2]),
        decreases shapes@.len() - k,
    {
        let shape = &shapes[k];
        proof {
            lemma_cat_vertices_step(shapes@, k as int);
            lemma_cat_indices_step(shapes@, k as int);
        }

        let mut j: usize = 0;
        while j < shape.indices.len()
            invariant
                0 <= j <= shape.indices@.len(),
                forall|j2: int|
                    0 <= j2 < j ==> (#[trigger] shape.indices@[j2] as int)
                        < shape.vertices@.len(),
            decreases shape.indices@.len() - j,
        {
            if (shape.indices[j] as usize) >= shape.vertices.len() {
                proof {
                    assert(!shape_wf(shapes@[k as int]));
                }
                return false;
            }
            j = j + 1;
        }
        proof {
            assert(shape_wf(shapes@[k as int]));
        }

        if shape.vertices.len() > VERTEX_LIMIT - total_v {
            proof {
                lemma_cat_vertices_prefix_le(shapes@, k as int + 1);
            }
            return false;
        }
        total_v = total_v + shape.vertices.len();

        if shape.indices.len() > INDEX_LIMIT - total_i {
            proof {
                lemma_cat_indices_prefix_le(shapes@, k as int + 1);
            }
            return false;
        }
        total_i = total_i + shape.indices.len();

        k = k + 1;
    }
    proof {
        assert(shapes@.take(shapes@.len() as int) =~= shapes@);
    }
    true
}

/// The vertex count of a prefix never exceeds the whole frame's count.
pub proof fn lemma_cat_vertices_prefix_le(shapes: Seq<ShapeGeometry>, k: int)
    requires
        0 <= k <= shapes.len(),
    ensures
        cat_vertices(shapes.take(k)).len() <= cat_vertices(shapes).len(),
    decreases shapes.len() - k,
{
    if k == shapes.len() {
        assert(shapes.take(k) =~= shapes);
    } else {
        lemma_cat_vertices_step(shapes, k);
        lemma_cat_vertices_prefix_le(shapes, k + 1);
    }
}

/// The index count of a prefix never exceeds the whole frame's count.
pub proof fn lemma_cat_indices_prefix_le(shapes: Seq<ShapeGeometry>, k: int)
    requires
        0 <= k <= shapes.len(),
    ensures
        cat_indices(shapes.take(k)).len() <= cat_indices(shapes).len(),
    decreases shapes.len() - k,
{
    if k == shapes.len() {
        assert(shapes.take(k) =~= shapes);
    } else {
        lemma_cat_indices_step(shapes, k);
        lemma_cat_indices_prefix_le(shapes, k + 1);
    }
}

} // verus!
