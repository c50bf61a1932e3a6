//! The trusted boundary to the GPU layer: type declarations for the
//! device, queue, pipeline and recording context, and thin wrappers
//! around the dynamic-growth buffer and the render pass recording
//! operations. Everything the library proves about uploaded bytes rests
//! on the contracts stated here.

use vstd::prelude::*;
use wgpu_dyn_buffer::{DynamicBuffer, DynamicBufferDescriptor};

verus! {

#[verifier::external_type_specification]
#[verifier::external_body]
pub struct ExDevice(wgpu::Device);

#[verifier::external_type_specification]
#[verifier::external_body]
pub struct ExQueue(wgpu::Queue);

#[verifier::external_type_specification]
#[verifier::external_body]
pub struct ExRenderPipeline(wgpu::RenderPipeline);

#[verifier::external_type_specification]
#[verifier::external_body]
pub struct ExRenderPass<'a>(wgpu::RenderPass<'a>);

#[verifier::external_type_specification]
#[verifier::external_body]
pub struct ExDynamicBuffer(DynamicBuffer);

/// The bytes committed to a dynamic buffer by the writes performed so
/// far: the prefix of the GPU allocation that the last write replaced.
/// Nothing has been committed to a freshly allocated buffer.
pub uninterp spec fn dyn_written(b: DynamicBuffer) -> Seq<u8>;

/// One command recorded into a render pass, as far as this library is
/// concerned: the three binds it issues, a scissor rectangle
/// `(x, y, width, height)`, or one indexed draw over the index range
/// `start..end` with base vertex 0 and a single instance.
pub enum PassCmd {
    SetPipeline,
    SetVertexBuffer,
    SetIndexBuffer,
    Scissor(u32, u32, u32, u32),
    Draw(u32, u32),
}

/// The commands recorded into a render pass so far, in recording
/// order. Each recording wrapper below appends exactly one command;
/// a freshly begun pass outside this library may already hold some.
pub uninterp spec fn pass_cmds(p: wgpu::RenderPass<'_>) -> Seq<PassCmd>;

/// `n` zero bytes.
pub open spec fn zero_pad(n: int) -> Seq<u8> {
    Seq::new(n as nat, |_i: int| 0u8)
}

/// What a write of `data` commits: `data` followed by `data.len() % 4`
/// zero bytes, the alignment padding the dynamic buffer appends.
pub open spec fn padded(data: Seq<u8>) -> Seq<u8> {
    data + zero_pad((data.len() % 4) as int)
}

/// Relies on wgpu_dyn_buffer::DynamicBuffer::new, called with vertex
/// usage: allocates a fresh GPU buffer; nothing is committed to it yet.
#[verifier::external_body]
pub(crate) fn new_vertex_buffer(device: &wgpu::Device) -> (r: DynamicBuffer)
    ensures
        dyn_written(r) == Seq::<u8>::empty(),
{
    DynamicBuffer::new(
        device,
        &DynamicBufferDescriptor {
            label: None,
            usage: wgpu::BufferUsages::VERTEX | wgpu::BufferUsages::COPY_DST,
        },
    )
}

/// Relies on wgpu_dyn_buffer::DynamicBuffer::new, called with index
/// usage: allocates a fresh GPU buffer; nothing is committed to it yet.
#[verifier::external_body]
pub(crate) fn new_index_buffer(device: &wgpu::Device) -> (r: DynamicBuffer)
    ensures
        dyn_written(r) == Seq::<u8>::empty(),
{
    DynamicBuffer::new(
        device,
        &DynamicBufferDescriptor {
            label: None,
            usage: wgpu::BufferUsages::INDEX | wgpu::BufferUsages::COPY_DST,
        },
    )
}

/// Relies on wgpu_dyn_buffer::DynamicBuffer::write_buffer: uploads
/// `data`, padded with `data.len() % 4` zero bytes, as the buffer's
/// committed contents, reallocating a larger GPU buffer first when the
/// current allocation is too small. An odd `data.len()` would leave the
/// upload misaligned, which the GPU queue refuses; the batch byte
/// images written here are always of even length.
#[verifier::external_body]
pub(crate) fn write_dyn_buffer(
    buf: &mut DynamicBuffer,
    device: &wgpu::Device,
    queue: &wgpu::Queue,
    data: &Vec<u8>,
)
    requires
        data@.len() % 2 == 0,
    ensures
        dyn_written(*final(buf)) == padded(data@),
{
    buf.write_buffer(device, queue, data.as_slice())
}

/// Relies on wgpu::RenderPass::set_pipeline: records the binding of
/// the render pipeline for the draw calls that follow.
#[verifier::external_body]
pub(crate) fn pass_set_pipeline(pass: &mut wgpu::RenderPass<'_>, pipeline: &wgpu::RenderPipeline)
    ensures
        pass_cmds(*final(pass)) == pass_cmds(*old(pass)).push(PassCmd::SetPipeline),
{
    pass.set_pipeline(pipeline)
}

/// Relies on wgpu::RenderPass::set_vertex_buffer: records the binding
/// of the dynamic buffer's current GPU allocation, whole, at vertex
/// slot 0.
#[verifier::external_body]
pub(crate) fn pass_set_vertex_buffer(pass: &mut wgpu::RenderPass<'_>, buf: &DynamicBuffer)
    ensures
        pass_cmds(*final(pass)) == pass_cmds(*old(pass)).push(PassCmd::SetVertexBuffer),
{
    pass.set_vertex_buffer(0, buf.as_ref().slice(..))
}

/// Relies on wgpu::RenderPass::set_index_buffer: records the binding
/// of the dynamic buffer's current GPU allocation, whole, as 16-bit
/// indices.
#[verifier::external_body]
pub(crate) fn pass_set_index_buffer_u16(pass: &mut wgpu::RenderPass<'_>, buf: &DynamicBuffer)
    ensures
        pass_cmds(*final(pass)) == pass_cmds(*old(pass)).push(PassCmd::SetIndexBuffer),
{
    pass.set_index_buffer(buf.as_ref().slice(..), wgpu::IndexFormat::Uint16)
}

/// Relies on wgpu::RenderPass::set_scissor_rect: records the clipping
/// of the draw calls that follow to the given pixel rectangle.
#[verifier::external_body]
pub(crate) fn pass_set_scissor_rect(pass: &mut wgpu::RenderPass<'_>, x: u32, y: u32, w: u32, h: u32)
    ensures
        pass_cmds(*final(pass)) == pass_cmds(*old(pass)).push(PassCmd::Scissor(x, y, w, h)),
{
    pass.set_scissor_rect(x, y, w, h)
}

/// Relies on wgpu::RenderPass::draw_indexed: records one draw call over
/// the index range `start..end`, with base vertex 0 and one instance.
#[verifier::external_body]
pub(crate) fn pass_draw_indexed(pass: &mut wgpu::RenderPass<'_>, start: u32, end: u32)
    ensures
        pass_cmds(*final(pass)) == pass_cmds(*old(pass)).push(PassCmd::Draw(start, end)),
{
    pass.draw_indexed(start..end, 0, 0..1)
}

} // verus!
