//! Serialization of the batch into the exact byte images that are
//! uploaded to the GPU: little-endian 32-bit vertex lanes and
//! little-endian 16-bit indices.

use vstd::prelude::*;
use crate::geometry::PackedVertex;

verus! {

/// The four little-endian bytes of a 32-bit value.
pub open spec fn u32_le_bytes(x: u32) -> Seq<u8> {
    seq![
        (x % 0x100) as u8,
        ((x / 0x100) % 0x100) as u8,
        ((x / 0x1_0000) % 0x100) as u8,
        ((x / 0x100_0000) % 0x100) as u8,
    ]
}

/// The two little-endian bytes of a 16-bit value.
pub open spec fn u16_le_bytes(x: u16) -> Seq<u8> {
    seq![(x % 0x100) as u8, (x / 0x100) as u8]
}

/// The 24-byte image of one vertex: position x, position y, color r, g,
/// b, then depth, each as four little-endian bytes.
pub open spec fn vertex_bytes(v: PackedVertex) -> Seq<u8> {
    u32_le_bytes(v.position_x) + u32_le_bytes(v.position_y) + u32_le_bytes(v.color_r)
        + u32_le_bytes(v.color_g) + u32_le_bytes(v.color_b) + u32_le_bytes(v.depth)
}

/// The byte image of a whole vertex array, in order.
pub open spec fn vertices_bytes(vs: Seq<PackedVertex>) -> Seq<u8>
    decreases vs.len(),
{
    if vs.len() == 0 {
        Seq::empty()
    } else {
        vertices_bytes(vs.drop_last()) + vertex_bytes(vs.last())
    }
}

/// The byte image of a whole index array, in order.
pub open spec fn indices_bytes(is: Seq<u16>) -> Seq<u8>
    decreases is.len(),
{
    if is.len() == 0 {
        Seq::empty()
    } else {
        indices_bytes(is.drop_last()) + u16_le_bytes(is.last())
    }
}

/// A vertex array serializes to 24 bytes per vertex.
pub proof fn lemma_vertices_bytes_len(vs: Seq<PackedVertex>)
    ensures
        vertices_bytes(vs).len() == 24 * vs.len(),
    decreases vs.len(),
{
    if vs.len() > 0 {
        lemma_vertices_bytes_len(vs.drop_last());
    }
}

/// An index array serializes to 2 bytes per index.
pub proof fn lemma_indices_bytes_len(is: Seq<u16>)
    ensures
        indices_bytes(is).len() == 2 * is.len(),
    decreases is.len(),
{
    if is.len() > 0 {
        lemma_indices_bytes_len(is.drop_last());
    }
}

/// Unfolding `vertices_bytes` one vertex at a time along a prefix.
pub proof fn lemma_vertices_bytes_step(vs: Seq<PackedVertex>, k: int)
    requires
        0 <= k < vs.len(),
    ensures
        vertices_bytes(vs.take(k + 1)) == vertices_bytes(vs.take(k)) + vertex_bytes(vs[k]),
{
    assert(vs.take(k + 1).drop_last() =~= vs.take(k));
    assert(vs.take(k + 1).last() == vs[k]);
}

/// Unfolding `indices_bytes` one index at a time along a prefix.
pub proof fn lemma_indices_bytes_step(is: Seq<u16>, k: int)
    requires
        0 <= k < is.len(),
    ensures
        indices_bytes(is.take(k + 1)) == indices_bytes(is.take(k)) + u16_le_bytes(is[k]),
{
    assert(is.take(k + 1).drop_last() =~= is.take(k));
    assert(is.take(k + 1).last() == is[k]);
}

/// Appends the four little-endian bytes of `x` to `out`.
pub fn push_u32_le(out: &mut Vec<u8>, x: u32)
    ensures
        final(out)@ == old(out)@ + u32_le_bytes(x),
{
    out.push((x % 0x100) as u8);
    out.push(((x / 0x100) % 0x100) as u8);
    out.push(((x / 0x1_0000) % 0x100) as u8);
    out.push(((x / 0x100_0000) % 0x100) as u8);
    assert(out@ =~= old(out)@ + u32_le_bytes(x));
}

/// Appends the two little-endian bytes of `x` to `out`.
pub fn push_u16_le(out: &mut Vec<u8>, x: u16)
    ensures
        final(out)@ == old(out)@ + u16_le_bytes(x),
{
    out.push((x % 0x100) as u8);
    out.push((x / 0x100) as u8);
    assert(out@ =~= old(out)@ + u16_le_bytes(x));
}

/// Appends the 24-byte image of one vertex to `out`.
pub fn push_vertex_bytes(out: &mut Vec<u8>, v: &PackedVertex)
    ensures
        final(out)@ == old(out)@ + vertex_bytes(*v),
{
    push_u32_le(out, v.position_x);
    push_u32_le(out, v.position_y);
    push_u32_le(out, v.color_r);
    push_u32_le(out, v.color_g);
    push_u32_le(out, v.color_b);
    push_u32_le(out, v.depth);
    assert(out@ =~= old(out)@ + vertex_bytes(*v));
}

/// Serializes a vertex array into its exact GPU byte image.
pub fn pack_vertices(vs: &Vec<PackedVertex>) -> (r: Vec<u8>)
    ensures
        r@ == vertices_bytes(vs@),
{
    let mut out: Vec<u8> = Vec::new();
    let mut k: usize = 0;
    while k < vs.len()
        invariant
            0 <= k <= vs@.len(),
            out@ == vertices_bytes(vs@.take(k as int)),
        decreases vs@.len() - k,
    {
        proof {
            lemma_vertices_bytes_step(vs@, k as int);
        }
        push_vertex_bytes(&mut out, &vs[k]);
        k = k + 1;
    }
    proof {
        assert(vs@.take(vs@.len() as int) =~= vs@);
    }
    out
}

/// Serializes an index array into its exact GPU byte image.
pub fn pack_indices(is: &Vec<u16>) -> (r: Vec<u8>)
    ensures
        r@ == indices_bytes(is@),
{
    let mut out: Vec<u8> = Vec::new();
    let mut k: usize = 0;
    while k < is.len()
        invariant
            0 <= k <= is@.len(),
            out@ == indices_bytes(is@.take(k as int)),
        decreases is@.len() - k,
    {
        proof {
            lemma_indices_bytes_step(is@, k as int);
        }
        push_u16_le(&mut out, is[k]);
        k = k + 1;
    }
    proof {
        assert(is@.take(is@.len() as int) =~= is@);
    }
    out
}

} // verus!
