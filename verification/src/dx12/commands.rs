//! GPU commands as the runtime hands them to the backend.

use vstd::prelude::*;

use super::lowering::BarrierUsage;

verus! {

/// What kind of resource a push-constant slot or a bindless index stands for.
#[derive(Clone, Copy, Debug, PartialEq, Eq, Structural)]
pub enum ResourceCategory {
    Scattered,
    Broadcast,
    Texture,
    Sampler,
}

/// A bindless index with the category it was made for.
#[derive(Clone, Copy, Debug, PartialEq, Eq, Structural)]
pub struct TypedHandle {
    pub category: ResourceCategory,
    pub index: u32,
}

/// One command of a compute stream.
pub enum GpuCommand {
    /// The words of this submission's frame table.
    FrameTableStaging { words: Vec<u32> },
    SetPipeline(u64),
    BindResourcesRaw { indices: Vec<u32>, user: Vec<u32>, frame_table_base: u32 },
    BindResourcesTyped { handles: Vec<TypedHandle> },
    Dispatch { label: Option<&'static str>, workgroups_x: u32, workgroups_y: u32, workgroups_z: u32 },
    DispatchIndirect { label: Option<&'static str>, buffer: u64, offset: u64 },
    /// `count` dispatches, each with its push constants and workgroup counts in
    /// `arg_data`.
    DispatchBatch { label: Option<&'static str>, arg_data: Vec<u8>, count: u32 },
    Barrier,
    ResourceBarrier { buffers: Vec<(u64, BarrierUsage)>, textures: Vec<(u64, BarrierUsage)> },
    /// Zeroes `size` bytes from `offset`; a size of zero means to the end.
    ClearBuffer { buffer: u64, offset: u64, size: u64 },
    WriteBuffer { buffer: u64, offset: u64, data: Vec<u8> },
    WriteTexture { texture: u64, data: Vec<u8>, width: u32, height: u32 },
    WriteTextureRegion { texture: u64, x: u32, y: u32, width: u32, height: u32, data: Vec<u8> },
    CopyBufferToTexture {
        src: u64,
        src_offset: u64,
        src_row_pitch: u32,
        dst: u64,
        x: u32,
        y: u32,
        width: u32,
        height: u32,
    },
    CopyTexture { src: u64, dst: u64 },
    CopyBuffer { src: u64, src_offset: u64, dst: u64, dst_offset: u64, size: u64 },
    /// Copies a texture into a read-back buffer and leaves the texture in
    /// `src_layout_after`.
    CopyTextureToReadback { src: u64, dst: u64, src_layout_after: u32 },
    CopyRenderTarget { src: u64, dst: u64 },
}

/// One command of a render pass, as far as resource tracking reads it.
pub enum RenderBinding {
    BindResources { buffers: Vec<u64> },
    BindResourcesRaw { indices: Vec<u32> },
    BindResourcesTyped { handles: Vec<TypedHandle> },
    Other,
}

/// One command of a mixed compute and render graph.
pub enum GraphCommand {
    Compute(GpuCommand),
    /// A render pass. `stages_frame_table` says that recording it copies the frame
    /// table to the device.
    Render { target: u64, commands: Vec<RenderBinding>, stages_frame_table: bool },
}

/// Sizes that fix how a batch of dispatches lies in its argument bytes.
#[derive(Clone, Copy, Debug, PartialEq, Eq, Structural)]
pub struct PushLayoutInfo {
    /// Bytes of one push-constant block.
    pub size: usize,
    /// Where the bindless indices (sixteen bits each) start in the block.
    pub bindless_offset: usize,
    pub bindless_count: usize,
    /// Bytes from one dispatch of a batch to the next.
    pub stride: usize,
}

impl PushLayoutInfo {
    /// The indices lie in the block, the block is made of words, and each dispatch
    /// has room for it and for three workgroup counts.
    pub open spec fn wf(self) -> bool {
        &&& self.bindless_offset + 2 * self.bindless_count <= self.size
        &&& self.size % 4 == 0
        &&& self.size + 12 <= self.stride
        &&& self.stride <= 0x1_0000
    }

    /// Whether the layout is one that commands can be recorded with.
    pub fn is_consistent(&self) -> (consistent: bool)
        ensures
            consistent == self.wf(),
    {
        if self.stride > 0x1_0000 || self.stride < 12 || self.size > self.stride - 12 {
            return false;
        }
        if self.bindless_offset > self.size || self.bindless_count > self.size {
            return false;
        }
        self.bindless_offset + 2 * self.bindless_count <= self.size && self.size % 4 == 0
    }
}

/// The command needs an upload to be staged before it is recorded.
pub open spec fn needs_staging(cmd: GpuCommand) -> bool {
    cmd is WriteBuffer || cmd is WriteTexture || cmd is WriteTextureRegion
        || cmd is CopyBufferToTexture
}

/// Whether the command needs an upload to be staged before it is recorded.
pub fn is_upload(cmd: &GpuCommand) -> (upload: bool)
    ensures
        upload == needs_staging(*cmd),
{
    match cmd {
        GpuCommand::WriteBuffer { .. } => true,
        GpuCommand::WriteTexture { .. } => true,
        GpuCommand::WriteTextureRegion { .. } => true,
        GpuCommand::CopyBufferToTexture { .. } => true,
        _ => false,
    }
}

} // verus!
