//! The frame renderer: owns the render pipeline handle, the two
//! GPU-backed dynamic buffers and the shape batcher, and exposes the
//! two-phase per-frame protocol. `prepare` rebuilds the batch from the
//! frame's shapes and overwrites the GPU buffers with its exact byte
//! images; `render` replays the recorded draw entries, one
//! scissor-clipped indexed draw call per non-empty entry, into a
//! caller-owned recording context.

use vstd::prelude::*;
use wgpu_dyn_buffer::DynamicBuffer;
use crate::batch::{
    DrawEntry, ShapeBatcher, active_entries, batch_wf, entries_for, entries_partition,
    lemma_active_entries_bounds,
};
use crate::bytes::{
    indices_bytes, lemma_indices_bytes_len, lemma_vertices_bytes_len, pack_indices,
    pack_vertices, vertices_bytes,
};
use crate::geometry::{ShapeGeometry, cat_indices, cat_vertices, shapes_wf, INDEX_LIMIT};
use crate::gpu::{
    PassCmd, dyn_written, new_index_buffer, new_vertex_buffer, padded, pass_cmds,
    pass_draw_indexed, pass_set_index_buffer_u16, pass_set_pipeline, pass_set_scissor_rect,
    pass_set_vertex_buffer, write_dyn_buffer,
};

verus! {

/// The two commands one draw entry records: its clip rectangle, then
/// one indexed draw over exactly its index range.
pub open spec fn entry_cmds(e: DrawEntry) -> Seq<PassCmd> {
    seq![
        PassCmd::Scissor(e.bound.0, e.bound.1, e.bound.2, e.bound.3),
        PassCmd::Draw(e.start as u32, e.end as u32),
    ]
}

/// The commands a sequence of draw entries records, in entry order.
pub open spec fn draw_cmds(entries: Seq<DrawEntry>) -> Seq<PassCmd>
    decreases entries.len(),
{
    if entries.len() == 0 {
        Seq::empty()
    } else {
        draw_cmds(entries.drop_last()) + entry_cmds(entries.last())
    }
}

/// Unfolding `draw_cmds` one entry at a time along a prefix.
pub proof fn lemma_draw_cmds_step(entries: Seq<DrawEntry>, k: int)
    requires
        0 <= k < entries.len(),
    ensures
        draw_cmds(entries.take(k + 1)) == draw_cmds(entries.take(k)) + entry_cmds(entries[k]),
{
    assert(entries.take(k + 1).drop_last() =~= entries.take(k));
    assert(entries.take(k + 1).last() == entries[k]);
}

/// Everything `render` records for a non-empty batch with the given
/// entries: the pipeline and the two buffer binds, then, for each
/// recorded entry with a non-empty index range, in shape-submission
/// order, its scissor rectangle and one indexed draw. Entries with an
/// empty range record nothing.
pub open spec fn render_cmds(entries: Seq<DrawEntry>) -> Seq<PassCmd> {
    seq![PassCmd::SetPipeline, PassCmd::SetVertexBuffer, PassCmd::SetIndexBuffer]
        + draw_cmds(active_entries(entries))
}

/// The per-frame batching renderer. The pipeline is fixed at
/// construction; the batcher and the draw entries are rebuilt by every
/// `prepare`; the dynamic buffers persist across frames and are
/// overwritten by every `prepare` whose batch is non-empty.
pub struct CyatRenderer {
    pub render_pipeline: wgpu::RenderPipeline,
    pub vertex_buffer: DynamicBuffer,
    pub index_buffer: DynamicBuffer,
    pub batcher: ShapeBatcher,
}

impl CyatRenderer {
    /// The batch currently held is non-empty: it has both vertices and
    /// indices, so the GPU buffers hold its byte images and `render`
    /// will draw it.
    pub open spec fn has_geometry(self) -> bool {
        self.batcher.batch.vertices@.len() > 0 && self.batcher.batch.indices@.len() > 0
    }

    /// The renderer's invariant, established by `new` and by every
    /// `prepare`: the batch is self-consistent, the recorded entries
    /// partition the shared index array in shape order within the draw
    /// range limit, and — whenever the batch is non-empty — the two GPU
    /// buffers hold exactly the batch's byte images, so the buffers are
    /// never drawn from before being written for the frame that is
    /// rendered.
    pub open spec fn wf(self) -> bool {
        &&& batch_wf(self.batcher.batch)
        &&& entries_partition(
            self.batcher.entries@,
            self.batcher.batch.indices@.len() as int,
        )
        &&& self.batcher.batch.indices@.len() <= INDEX_LIMIT
        &&& self.has_geometry() ==> {
            &&& dyn_written(self.vertex_buffer) == padded(
                vertices_bytes(self.batcher.batch.vertices@),
            )
            &&& dyn_written(self.index_buffer) == padded(
                indices_bytes(self.batcher.batch.indices@),
            )
        }
    }

    /// Creates the renderer around an already-built render pipeline:
    /// allocates the two dynamic buffers and starts with an empty
    /// batch, so the first frame begins from a clean slate.
    pub fn new(device: &wgpu::Device, render_pipeline: wgpu::RenderPipeline) -> (r: CyatRenderer)
        ensures
            r.wf(),
            r.render_pipeline == render_pipeline,
            r.batcher.batch.vertices@.len() == 0,
            r.batcher.batch.indices@.len() == 0,
            r.batcher.entries@.len() == 0,
            dyn_written(r.vertex_buffer) == Seq::<u8>::empty(),
            dyn_written(r.index_buffer) == Seq::<u8>::empty(),
    {
        CyatRenderer {
            render_pipeline,
            vertex_buffer: new_vertex_buffer(device),
            index_buffer: new_index_buffer(device),
            batcher: ShapeBatcher::new(),
        }
    }

    /// Prepares one frame: rebuilds the batch and the draw entries from
    /// the given shapes (clearing the previous frame's), and, if the
    /// batch has both vertices and indices, overwrites the two dynamic
    /// buffers with its exact packed byte images. An empty batch leaves
    /// both buffers untouched, and `render` will then draw nothing.
    pub fn prepare(
        &mut self,
        device: &wgpu::Device,
        queue: &wgpu::Queue,
        shapes: &Vec<ShapeGeometry>,
    )
        requires
            shapes_wf(shapes@),
        ensures
            final(self).wf(),
            final(self).render_pipeline == old(self).render_pipeline,
            final(self).batcher.batch.vertices@ == cat_vertices(shapes@),
            final(self).batcher.batch.indices@ == cat_indices(shapes@),
            final(self).batcher.entries@ == entries_for(shapes@),
            final(self).has_geometry() ==> {
                &&& dyn_written(final(self).vertex_buffer) == padded(
                    vertices_bytes(cat_vertices(shapes@)),
                )
                &&& dyn_written(final(self).index_buffer) == padded(
                    indices_bytes(cat_indices(shapes@)),
                )
            },
            !final(self).has_geometry() ==> {
                &&& final(self).vertex_buffer == old(self).vertex_buffer
                &&& final(self).index_buffer == old(self).index_buffer
            },
    {
        self.batcher.build(shapes);

        if self.batcher.batch.vertices.len() == 0 || self.batcher.batch.indices.len() == 0 {
            return;
        }

        proof {
            lemma_vertices_bytes_len(self.batcher.batch.vertices@);
            lemma_indices_bytes_len(self.batcher.batch.indices@);
        }
        let vertex_bytes_vec = pack_vertices(&self.batcher.batch.vertices);
        let index_bytes_vec = pack_indices(&self.batcher.batch.indices);
        write_dyn_buffer(&mut self.vertex_buffer, device, queue, &vertex_bytes_vec);
        write_dyn_buffer(&mut self.index_buffer, device, queue, &index_bytes_vec);
    }

    /// Renders the prepared frame into the caller's recording context:
    /// nothing at all if the batch is empty, otherwise the pipeline and
    /// the two buffers are bound once, and every recorded entry with a
    /// non-empty index range becomes one scissor-clipped indexed draw
    /// call, in shape-submission order. Entries with an empty range are
    /// skipped.
    pub fn render(&self, pass: &mut wgpu::RenderPass<'_>)
        requires
            self.wf(),
        ensures
            !self.has_geometry() ==> pass_cmds(*final(pass)) == pass_cmds(*old(pass)),
            self.has_geometry() ==> pass_cmds(*final(pass)) == pass_cmds(*old(pass))
                + render_cmds(self.batcher.entries@),
            self.has_geometry() ==> forall|i: int|
                0 <= i < active_entries(self.batcher.entries@).len()
                    ==> (#[trigger] active_entries(self.batcher.entries@)[i]).start
                    < active_entries(self.batcher.entries@)[i].end
                    <= self.batcher.batch.indices@.len(),
    {
        if self.batcher.batch.vertices.len() == 0 || self.batcher.batch.indices.len() == 0 {
            return;
        }

        let ghost cmds0: Seq<PassCmd> = pass_cmds(*pass);
        let ghost binds: Seq<PassCmd> = seq![
            PassCmd::SetPipeline,
            PassCmd::SetVertexBuffer,
            PassCmd::SetIndexBuffer,
        ];
        pass_set_pipeline(pass, &self.render_pipeline);
        pass_set_vertex_buffer(pass, &self.vertex_buffer);
        pass_set_index_buffer_u16(pass, &self.index_buffer);
        proof {
            assert(pass_cmds(*pass) =~= cmds0 + binds);
        }

        let ghost total: int = self.batcher.batch.indices@.len() as int;
        proof {
            assert forall|i: int| 0 <= i < self.batcher.entries@.len()
                implies #[trigger] self.batcher.entries@[i].end <= total by {
                assert(self.batcher.entries@[i].start <= self.batcher.entries@[i].end
                    <= total);
            }
            lemma_active_entries_bounds(self.batcher.entries@, total);
        }
        let calls = self.batcher.draw_calls();
        proof {
            assert(calls@.take(0) =~= Seq::<DrawEntry>::empty());
            assert(pass_cmds(*pass) =~= cmds0 + binds + draw_cmds(calls@.take(0)));
        }
        let mut k: usize = 0;
        while k < calls.len()
            invariant
                0 <= k <= calls@.len(),
                total <= INDEX_LIMIT,
                calls@ == active_entries(self.batcher.entries@),
                forall|i: int|
                    0 <= i < calls@.len() ==> #[trigger] calls@[i].start < calls@[i].end
                        <= total,
                pass_cmds(*pass) == cmds0 + binds + draw_cmds(calls@.take(k as int)),
            decreases calls@.len() - k,
        {
            let e = calls[k];
            pass_set_scissor_rect(pass, e.bound.0, e.bound.1, e.bound.2, e.bound.3);
            pass_draw_indexed(pass, e.start as u32, e.end as u32);
            proof {
                lemma_draw_cmds_step(calls@, k as int);
                assert(pass_cmds(*pass) =~= cmds0 + binds
                    + draw_cmds(calls@.take(k as int + 1)));
            }
            k = k + 1;
        }
        proof {
            assert(calls@.take(calls@.len() as int) =~= calls@);
            assert(pass_cmds(*pass) =~= cmds0 + render_cmds(self.batcher.entries@));
        }
    }
}

} // verus!
