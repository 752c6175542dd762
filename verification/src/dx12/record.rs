//! Recording of GPU commands: the calls that each command puts on the command
//! list, and what it changes of the recording state and of the texture layouts.

use std::collections::HashMap;
use vstd::bytes::{spec_u32_from_le_bytes, u32_from_le_bytes};
use vstd::prelude::*;
use vstd::slice::slice_subrange;

use super::barriers::{
    buffer_barrier_full, full_buffer_barrier, full_texture_barrier, texture_barrier_full, Barrier,
    GlobalBarrier, ACCESS_COMMON, ACCESS_COPY_DEST, ACCESS_COPY_SOURCE, ACCESS_INDIRECT_ARGUMENT,
    ACCESS_RENDER_TARGET, ACCESS_SHADER_RESOURCE, ACCESS_UNORDERED_ACCESS, LAYOUT_COPY_DEST,
    LAYOUT_COPY_SOURCE, LAYOUT_DIRECT_QUEUE_SHADER_RESOURCE, LAYOUT_DIRECT_QUEUE_UNORDERED_ACCESS,
    LAYOUT_RENDER_TARGET, SYNC_ALL, SYNC_COMPUTE_SHADING, SYNC_COPY, SYNC_EXECUTE_INDIRECT,
    SYNC_RENDER_TARGET,
};
use super::command_list::{
    barrier_group, issue, issue_barrier, issue_one, ArgumentSource, Call, IndirectSignature,
};
use super::commands::{GpuCommand, PushLayoutInfo};
use super::lowering::{
    buffer_access, buffer_sync, lowered_buffer_usage_is_paired,
    slot_usage_to_dx12_access_for_buffer, slot_usage_to_dx12_sync, state_of_layout, state_of_usage,
    texture_barrier_state_for_layout, texture_barrier_state_for_usage, BarrierUsage,
};
use super::types::{BufferState, RecordTables, TextureState};

verus! {

broadcast use vstd::std_specs::hash::group_hash_axioms;

/// Bytes of the zero-filled buffer that clears copy from; one copy never moves
/// more.
pub const ZERO_BUFFER_SIZE: u64 = 0x100_0000;

/// A slice of the staging belt that holds the bytes of one buffer write.
#[derive(Clone, Copy, Debug, PartialEq, Eq, Structural)]
pub struct BeltSlice {
    pub resource: u64,
    pub offset: u64,
}

/// A texture upload that the staging pre-pass has prepared.
#[derive(Clone, Copy, Debug, PartialEq, Eq, Structural)]
pub struct StagedTextureUpload {
    pub texture: u64,
    /// The layout in which recording the upload leaves the texture.
    pub layout_after: u32,
    /// The staging-pool entry that holds the bytes, where they came from the pool.
    pub pooled_entry: Option<u64>,
}

/// What recording is given besides the tables.
pub struct RecordInputs {
    pub device_handle: u64,
    /// Issue global barriers in place of buffer barriers.
    pub use_global_buffer_barriers: bool,
    /// Dispatches are timed.
    pub profiling: bool,
    pub push_layout: PushLayoutInfo,
    pub belt_slices: Vec<BeltSlice>,
    pub staged_texture_uploads: Vec<StagedTextureUpload>,
}

/// Why a command cannot be recorded.
#[derive(Clone, Copy, Debug, PartialEq, Eq, Structural)]
pub enum RecordError {
    TypedBindingsNotLowered,
    DispatchIndirectInvalidDevice,
    DispatchIndirectInvalidBuffer,
    DispatchIndirectNoSignature,
    DispatchBatchInvalidDevice,
    ClearBufferInvalidBuffer,
    ClearBufferInvalidDevice,
    WriteBufferInvalidBuffer,
    WriteBufferBeltSliceMissing,
    WriteTextureStagedUploadMissing,
    CopyTextureSrcNotFound,
    CopyTextureDstNotFound,
    CopyBufferInvalidSrc,
    CopyBufferInvalidDst,
    CopyBufferOutOfBounds,
    CopyBufferMissingUploadBuffer,
    CopyRenderTargetSrcNotFound,
    CopyRenderTargetDstNotFound,
}

/// State threaded through the recording of a command stream.
pub struct Recorder {
    pub calls: Vec<Call>,
    /// User words of the frame-table dispatches.
    pub constants: Vec<u32>,
    pub belt_idx: usize,
    pub texture_upload_idx: usize,
    pub dispatch_idx: u32,
    pub current_compute_pipeline: Option<u64>,
    /// Argument buffers to release once the submission has retired.
    pub argument_buffers: u64,
}

/// What a `Recorder` holds.
#[verifier::ext_equal]
pub struct RecordView {
    pub calls: Seq<Call>,
    pub constants: Seq<u32>,
    pub belt_idx: int,
    pub texture_upload_idx: int,
    pub dispatch_idx: int,
    pub current_compute_pipeline: Option<u64>,
    pub argument_buffers: int,
}

impl View for Recorder {
    type V = RecordView;

    open spec fn view(&self) -> RecordView {
        RecordView {
            calls: self.calls@,
            constants: self.constants@,
            belt_idx: self.belt_idx as int,
            texture_upload_idx: self.texture_upload_idx as int,
            dispatch_idx: self.dispatch_idx as int,
            current_compute_pipeline: self.current_compute_pipeline,
            argument_buffers: self.argument_buffers as int,
        }
    }
}

/// The textures and their layouts.
pub type Layouts = Map<u64, TextureState>;

/// What recording a command leads to.
#[verifier::ext_equal]
pub struct Recorded {
    pub state: RecordView,
    pub textures: Layouts,
}

impl RecordView {
    /// The state before any command.
    pub open spec fn start() -> RecordView {
        RecordView {
            calls: Seq::empty(),
            constants: Seq::empty(),
            belt_idx: 0,
            texture_upload_idx: 0,
            dispatch_idx: 0,
            current_compute_pipeline: None,
            argument_buffers: 0,
        }
    }

    /// The state with more calls on the list.
    pub open spec fn with_calls(self, calls: Seq<Call>) -> RecordView {
        RecordView { calls: self.calls + calls, ..self }
    }
}

/// A barrier on everything, for adapters whose buffer tracking needs it.
pub open spec fn full_global_barrier() -> GlobalBarrier {
    GlobalBarrier {
        sync_before: SYNC_ALL,
        sync_after: SYNC_ALL,
        access_before: ACCESS_COMMON,
        access_after: ACCESS_COMMON,
    }
}

/// The barrier on everything: all stages, common access.
pub fn warp_full_global_barrier() -> (barrier: GlobalBarrier)
    ensures
        barrier == full_global_barrier(),
{
    GlobalBarrier {
        sync_before: SYNC_ALL,
        sync_after: SYNC_ALL,
        access_before: ACCESS_COMMON,
        access_after: ACCESS_COMMON,
    }
}

/// A barrier before or after touching one buffer: on the buffer, or on all memory
/// where buffer barriers are not used.
pub open spec fn buffer_transition(
    global: bool,
    resource: u64,
    sync_before: u32,
    sync_after: u32,
    access_before: u32,
    access_after: u32,
) -> Barrier {
    if global {
        Barrier::Global(GlobalBarrier { sync_before, sync_after, access_before, access_after })
    } else {
        Barrier::Buffer(
            full_buffer_barrier(resource, sync_before, sync_after, access_before, access_after),
        )
    }
}

/// Issues the barrier of `buffer_transition`.
fn emit_transition(
    calls: &mut Vec<Call>,
    global: bool,
    resource: u64,
    sync_before: u32,
    sync_after: u32,
    access_before: u32,
    access_after: u32,
)
    requires
        super::barriers::sync_access_paired(sync_before, access_before),
        super::barriers::sync_access_paired(sync_after, access_after),
    ensures
        final(calls)@ == old(calls)@ + issue_one(
            buffer_transition(global, resource, sync_before, sync_after, access_before, access_after),
        ),
{
    if global {
        issue_barrier(
            calls,
            Barrier::Global(GlobalBarrier { sync_before, sync_after, access_before, access_after }),
        );
    } else {
        let b = buffer_barrier_full(resource, sync_before, sync_after, access_before, access_after);
        issue_barrier(calls, Barrier::Buffer(b));
    }
}

/// First timestamp of a dispatch; zero and one belong to the whole list.
pub open spec fn query_base(dispatch_idx: int) -> u32 {
    (2 + 2 * dispatch_idx) as u32
}

/// Calls with a timestamp before and after them, where dispatches are timed.
pub open spec fn timed(profiling: bool, dispatch_idx: int, calls: Seq<Call>) -> Seq<Call> {
    if profiling {
        seq![Call::EndQuery { index: query_base(dispatch_idx) }] + calls
            + seq![Call::EndQuery { index: (query_base(dispatch_idx) + 1) as u32 }]
    } else {
        calls
    }
}

/// The copies that zero `size` bytes of a resource from `offset`, a chunk at a
/// time.
pub open spec fn zero_fill(dst: u64, offset: int, zero: u64, size: int) -> Seq<Call> {
    Seq::new(
        ((size + ZERO_BUFFER_SIZE - 1) / (ZERO_BUFFER_SIZE as int)) as nat,
        |i: int| zero_chunk(dst, offset, zero, size, i),
    )
}

/// The `i`th of those copies.
pub open spec fn zero_chunk(dst: u64, offset: int, zero: u64, size: int, i: int) -> Call {
    Call::CopyBufferRegion {
        dst,
        dst_offset: (offset + i * ZERO_BUFFER_SIZE) as u64,
        src: zero,
        src_offset: 0,
        size: if size - i * ZERO_BUFFER_SIZE < ZERO_BUFFER_SIZE {
            (size - i * ZERO_BUFFER_SIZE) as u64
        } else {
            ZERO_BUFFER_SIZE
        },
    }
}

/// Zeroes a range of a resource by copies from the zero buffer.
pub fn emit_zero_fill(calls: &mut Vec<Call>, dst: u64, offset: u64, zero: u64, size: u64)
    requires
        offset + size <= u64::MAX,
    ensures
        final(calls)@ == old(calls)@ + zero_fill(dst, offset as int, zero, size as int),
{
    let ghost start = calls@;
    let mut cleared: u64 = 0;
    let ghost mut n: int = 0;
    while cleared < size
        invariant
            0 <= n,
            cleared <= size,
            offset + size <= u64::MAX,
            cleared == size || cleared == n * ZERO_BUFFER_SIZE,
            cleared == size ==> n == (size + ZERO_BUFFER_SIZE - 1) / (ZERO_BUFFER_SIZE as int),
            calls@ == start + Seq::new(
                n as nat,
                |i: int| zero_chunk(dst, offset as int, zero, size as int, i),
            ),
        decreases size - cleared,
    {
        let left: u64 = size - cleared;
        let chunk: u64 = if left < ZERO_BUFFER_SIZE { left } else { ZERO_BUFFER_SIZE };
        calls.push(
            Call::CopyBufferRegion {
                dst,
                dst_offset: offset + cleared,
                src: zero,
                src_offset: 0,
                size: chunk,
            },
        );
        proof {
            n = n + 1;
        }
        cleared += chunk;
    }
}

/// The batch has argument bytes for each of its dispatches.
pub open spec fn batch_in_bounds(layout: PushLayoutInfo, len: int, count: int) -> bool {
    count == 0 || (count - 1) * layout.stride + layout.size + 12 <= len
}

/// The workgroup count that starts at a byte of the arguments (least significant
/// byte first).
pub open spec fn argument_word(args: Seq<u8>, at: int) -> u32 {
    spec_u32_from_le_bytes(args.subrange(at, at + 4))
}

/// Calls of the `i`th dispatch of an unrolled batch: its constants, then its
/// dispatch.
pub open spec fn batch_entry(layout: PushLayoutInfo, args: Seq<u8>, i: int) -> Seq<Call> {
    let base = i * layout.stride;
    seq![
        Call::SetRootConstants { first_byte: base as usize, dwords: (layout.size / 4) as u32 },
        Call::Dispatch {
            x: argument_word(args, base + layout.size),
            y: argument_word(args, base + layout.size + 4),
            z: argument_word(args, base + layout.size + 8),
        },
    ]
}

/// Calls of the first `count` dispatches of an unrolled batch.
pub open spec fn batch_calls(layout: PushLayoutInfo, args: Seq<u8>, count: int) -> Seq<Call>
    decreases count,
{
    if count <= 0 {
        Seq::empty()
    } else {
        batch_calls(layout, args, count - 1) + batch_entry(layout, args, count - 1)
    }
}

/// The global barrier that stands for one buffer entry of a resource barrier.
/// Storage buffers take the full barrier; for the others a `COMMON` access before
/// forces a `COMMON` access after.
pub open spec fn global_entry_barrier(
    buffers: Map<u64, BufferState>,
    entry: (u64, BarrierUsage),
) -> GlobalBarrier {
    let is_storage = buffers.contains_key(entry.0) && buffers[entry.0].is_storage;
    if is_storage {
        full_global_barrier()
    } else {
        let before = buffer_access(entry.1.src, false);
        GlobalBarrier {
            sync_before: buffer_sync(entry.1.src),
            sync_after: buffer_sync(entry.1.dst),
            access_before: before,
            access_after: if before == ACCESS_COMMON {
                ACCESS_COMMON
            } else {
                buffer_access(entry.1.dst, false)
            },
        }
    }
}

/// The global barriers for the buffer entries, each issued on its own.
pub open spec fn global_entry_calls(
    buffers: Map<u64, BufferState>,
    entries: Seq<(u64, BarrierUsage)>,
) -> Seq<Call>
    decreases entries.len(),
{
    if entries.len() == 0 {
        Seq::empty()
    } else {
        global_entry_calls(buffers, entries.drop_last()) + issue_one(
            Barrier::Global(global_entry_barrier(buffers, entries.last())),
        )
    }
}

/// The buffer barriers for the entries whose buffer is known.
pub open spec fn buffer_entry_barriers(
    buffers: Map<u64, BufferState>,
    entries: Seq<(u64, BarrierUsage)>,
) -> Seq<Barrier>
    decreases entries.len(),
{
    if entries.len() == 0 {
        Seq::empty()
    } else {
        let (handle, usage) = entries.last();
        let rest = buffer_entry_barriers(buffers, entries.drop_last());
        if buffers.contains_key(handle) {
            let b = buffers[handle];
            rest.push(
                Barrier::Buffer(
                    full_buffer_barrier(
                        b.resource,
                        buffer_sync(usage.src),
                        buffer_sync(usage.dst),
                        buffer_access(usage.src, b.is_storage),
                        buffer_access(usage.dst, b.is_storage),
                    ),
                ),
            )
        } else {
            rest
        }
    }
}

/// The texture barriers for the entries whose texture is known: from the layout
/// each texture was left in to what its use needs.
pub open spec fn texture_entry_barriers(
    textures: Layouts,
    entries: Seq<(u64, BarrierUsage)>,
) -> Seq<Barrier>
    decreases entries.len(),
{
    if entries.len() == 0 {
        Seq::empty()
    } else {
        let (handle, usage) = entries.last();
        let rest = texture_entry_barriers(textures, entries.drop_last());
        if textures.contains_key(handle) {
            let t = textures[handle];
            let before = state_of_layout(t.last_layout);
            let after = state_of_usage(usage.dst, t.is_storage);
            rest.push(
                Barrier::Texture(
                    full_texture_barrier(
                        t.resource,
                        before.sync,
                        after.sync,
                        before.access,
                        after.access,
                        before.layout,
                        after.layout,
                    ),
                ),
            )
        } else {
            rest
        }
    }
}

/// The layouts once the entries have taken effect.
pub open spec fn relayout(textures: Layouts, entries: Seq<(u64, BarrierUsage)>) -> Layouts
    decreases entries.len(),
{
    if entries.len() == 0 {
        textures
    } else {
        let (handle, usage) = entries.last();
        let rest = relayout(textures, entries.drop_last());
        if rest.contains_key(handle) {
            set_layout(rest, handle, state_of_usage(usage.dst, rest[handle].is_storage).layout)
        } else {
            rest
        }
    }
}

/// The layouts with one texture's changed; nothing changes for an unknown texture.
pub open spec fn set_layout(textures: Layouts, handle: u64, layout: u32) -> Layouts {
    if textures.contains_key(handle) {
        textures.insert(handle, TextureState { last_layout: layout, ..textures[handle] })
    } else {
        textures
    }
}

/// The shader access and layout in which a copy leaves a texture.
pub open spec fn shader_access_after_copy(is_storage: bool) -> u32 {
    if is_storage {
        ACCESS_UNORDERED_ACCESS
    } else {
        ACCESS_SHADER_RESOURCE
    }
}

/// The layout that goes with `shader_access_after_copy`.
pub open spec fn shader_layout_after_copy(is_storage: bool) -> u32 {
    if is_storage {
        LAYOUT_DIRECT_QUEUE_UNORDERED_ACCESS
    } else {
        LAYOUT_DIRECT_QUEUE_SHADER_RESOURCE
    }
}

/// The barrier that turns a texture into the destination of a copy.
pub open spec fn to_copy_dest(t: TextureState) -> Barrier {
    let before = state_of_layout(t.last_layout);
    Barrier::Texture(
        full_texture_barrier(
            t.resource,
            before.sync,
            SYNC_COPY,
            before.access,
            ACCESS_COPY_DEST,
            before.layout,
            LAYOUT_COPY_DEST,
        ),
    )
}

/// The barrier that turns a texture into the source of a copy.
pub open spec fn to_copy_source(t: TextureState) -> Barrier {
    let before = state_of_layout(t.last_layout);
    Barrier::Texture(
        full_texture_barrier(
            t.resource,
            before.sync,
            SYNC_COPY,
            before.access,
            ACCESS_COPY_SOURCE,
            before.layout,
            LAYOUT_COPY_SOURCE,
        ),
    )
}

/// The barrier that gives a copied texture back to shaders.
pub open spec fn copied_to_shader(t: TextureState, access: u32, layout: u32) -> Barrier {
    Barrier::Texture(
        full_texture_barrier(
            t.resource,
            SYNC_COPY,
            SYNC_COMPUTE_SHADING,
            access,
            shader_access_after_copy(t.is_storage),
            layout,
            shader_layout_after_copy(t.is_storage),
        ),
    )
}

/// Calls that copy one texture to another.
pub open spec fn copy_texture_calls(src: TextureState, dst: TextureState) -> Seq<Call> {
    issue(seq![to_copy_source(src), to_copy_dest(dst)]).push(
        Call::CopyResource { dst: dst.resource, src: src.resource },
    ) + issue(
        seq![
            copied_to_shader(src, ACCESS_COPY_SOURCE, LAYOUT_COPY_SOURCE),
            copied_to_shader(dst, ACCESS_COPY_DEST, LAYOUT_COPY_DEST),
        ],
    )
}

/// Calls that copy a render target, which a render pass leaves as a copy source,
/// into a texture.
pub open spec fn copy_render_target_calls(src: u64, dst: TextureState) -> Seq<Call> {
    issue(
        seq![
            Barrier::Texture(
                full_texture_barrier(
                    src,
                    SYNC_COPY,
                    SYNC_COPY,
                    ACCESS_COPY_SOURCE,
                    ACCESS_COPY_SOURCE,
                    LAYOUT_COPY_SOURCE,
                    LAYOUT_COPY_SOURCE,
                ),
            ),
            to_copy_dest(dst),
        ],
    ).push(Call::CopyResource { dst: dst.resource, src }) + issue(
        seq![
            Barrier::Texture(
                full_texture_barrier(
                    src,
                    SYNC_COPY,
                    SYNC_RENDER_TARGET,
                    ACCESS_COPY_SOURCE,
                    ACCESS_RENDER_TARGET,
                    LAYOUT_COPY_SOURCE,
                    LAYOUT_RENDER_TARGET,
                ),
            ),
            copied_to_shader(dst, ACCESS_COPY_DEST, LAYOUT_COPY_DEST),
        ],
    )
}

/// The bytes that a clear covers: all that follow the offset where none are given.
pub open spec fn clear_span(size: u64, offset: u64, requested: u64) -> u64 {
    if requested != 0 {
        requested
    } else if size > offset {
        (size - offset) as u64
    } else {
        0
    }
}

/// Calls of an indirect dispatch: the buffer becomes an argument buffer for the
/// dispatch and an unordered-access buffer again after it.
pub open spec fn dispatch_indirect_calls(
    global: bool,
    profiling: bool,
    dispatch_idx: int,
    resource: u64,
    offset: u64,
) -> Seq<Call> {
    issue_one(
        buffer_transition(
            global,
            resource,
            SYNC_COMPUTE_SHADING,
            SYNC_EXECUTE_INDIRECT,
            ACCESS_UNORDERED_ACCESS,
            ACCESS_INDIRECT_ARGUMENT,
        ),
    ) + timed(
        profiling,
        dispatch_idx,
        seq![
            Call::ExecuteIndirect {
                signature: IndirectSignature::Dispatch,
                count: 1,
                arguments: ArgumentSource::Resource(resource),
                offset,
            },
        ],
    ) + issue_one(
        buffer_transition(
            global,
            resource,
            SYNC_EXECUTE_INDIRECT,
            SYNC_COMPUTE_SHADING,
            ACCESS_INDIRECT_ARGUMENT,
            ACCESS_UNORDERED_ACCESS,
        ),
    )
}

/// Calls of a buffer clear: copies from the zero buffer for a storage buffer,
/// zeros through a mapping for another, nothing for an empty range.
pub open spec fn clear_calls(
    global: bool,
    zero_buffer: u64,
    buffer: BufferState,
    offset: u64,
    requested: u64,
) -> Seq<Call> {
    let size = clear_span(buffer.size, offset, requested);
    if size == 0 {
        Seq::empty()
    } else if buffer.is_storage {
        issue_one(
            buffer_transition(
                global,
                buffer.resource,
                SYNC_ALL,
                SYNC_COPY,
                if global {
                    ACCESS_UNORDERED_ACCESS
                } else {
                    ACCESS_COMMON
                },
                ACCESS_COPY_DEST,
            ),
        ) + zero_fill(buffer.resource, offset as int, zero_buffer, size as int)
    } else {
        seq![Call::ZeroMapped { resource: buffer.resource, offset, size }]
    }
}

/// Calls that copy `size` staged bytes into a storage buffer.
pub open spec fn staged_write_calls(
    global: bool,
    resource: u64,
    offset: u64,
    slice: BeltSlice,
    size: u64,
) -> Seq<Call> {
    issue_one(
        buffer_transition(
            global,
            resource,
            SYNC_ALL,
            SYNC_COPY,
            ACCESS_UNORDERED_ACCESS,
            ACCESS_COPY_DEST,
        ),
    ).push(
        Call::CopyBufferRegion {
            dst: resource,
            dst_offset: offset,
            src: slice.resource,
            src_offset: slice.offset,
            size,
        },
    )
}

/// The bytes from `offset` on reach past the end of a buffer of this size.
pub open spec fn out_of_bounds(buffer_size: u64, offset: u64, size: u64) -> bool {
    offset + size > buffer_size && !(offset + size > u64::MAX && buffer_size == u64::MAX)
}

/// Calls of a buffer-to-buffer copy.
pub open spec fn copy_buffer_calls(
    global: bool,
    src: u64,
    src_is_upload: bool,
    src_offset: u64,
    dst: u64,
    dst_offset: u64,
    size: u64,
) -> Seq<Call> {
    issue_one(
        buffer_transition(
            global,
            src,
            SYNC_ALL,
            SYNC_COPY,
            if src_is_upload {
                ACCESS_COPY_SOURCE
            } else {
                ACCESS_UNORDERED_ACCESS
            },
            ACCESS_COPY_SOURCE,
        ),
    ).push(Call::CopyBufferRegion { dst, dst_offset, src, src_offset, size })
}

/// Calls of a resource barrier.
pub open spec fn resource_barrier_calls(
    global: bool,
    buffers: Map<u64, BufferState>,
    textures: Layouts,
    buffer_entries: Seq<(u64, BarrierUsage)>,
    texture_entries: Seq<(u64, BarrierUsage)>,
) -> Seq<Call> {
    if global {
        global_entry_calls(buffers, buffer_entries) + issue(
            texture_entry_barriers(textures, texture_entries),
        )
    } else {
        issue(
            buffer_entry_barriers(buffers, buffer_entries) + texture_entry_barriers(
                textures,
                texture_entries,
            ),
        )
    }
}

/// What recording a command leads to: the calls it adds, the state and the
/// layouts after it, or the reason why it cannot be recorded.
pub open spec fn recorded(
    tables: RecordTables,
    inputs: RecordInputs,
    textures: Layouts,
    st: RecordView,
    cmd: GpuCommand,
) -> Result<Recorded, RecordError> {
    let global = inputs.use_global_buffer_barriers;
    let buffers = tables.buffers@;
    let devices = tables.devices@;
    let device = inputs.device_handle;
    match cmd {
        GpuCommand::FrameTableStaging { words } => Ok(
            Recorded { state: st.with_calls(seq![Call::FrameTablePrologue]), textures },
        ),
        GpuCommand::SetPipeline(handle) => Ok(
            Recorded {
                state: RecordView {
                    current_compute_pipeline: Some(handle),
                    ..st.with_calls(
                        if tables.compute_pipelines@.contains_key(handle) {
                            seq![
                                Call::SetComputeRootSignature { pipeline: handle },
                                Call::SetPipelineState { pipeline: handle },
                            ]
                        } else {
                            Seq::empty()
                        },
                    )
                },
                textures,
            },
        ),
        GpuCommand::BindResourcesRaw { indices, user, frame_table_base } => Ok(
            Recorded {
                state: RecordView {
                    constants: st.constants + user@,
                    ..st.with_calls(
                        (match st.current_compute_pipeline {
                            Some(p) if tables.compute_pipelines@.contains_key(p) => seq![
                                Call::ValidateBindings { pipeline: p },
                            ],
                            _ => Seq::empty(),
                        }).push(
                            Call::BindFrameTable {
                                base: frame_table_base,
                                user_first: st.constants.len() as usize,
                                user_count: user@.len() as usize,
                            },
                        ),
                    )
                },
                textures,
            },
        ),
        GpuCommand::BindResourcesTyped { handles } => Err(RecordError::TypedBindingsNotLowered),
        GpuCommand::Dispatch { label, workgroups_x, workgroups_y, workgroups_z } => Ok(
            Recorded {
                state: RecordView {
                    dispatch_idx: st.dispatch_idx + 1,
                    ..st.with_calls(
                        timed(
                            inputs.profiling,
                            st.dispatch_idx,
                            seq![Call::Dispatch { x: workgroups_x, y: workgroups_y, z: workgroups_z }],
                        ),
                    )
                },
                textures,
            },
        ),
        GpuCommand::DispatchIndirect { label, buffer, offset } => if !devices.contains_key(device) {
            Err(RecordError::DispatchIndirectInvalidDevice)
        } else if !buffers.contains_key(buffer) {
            Err(RecordError::DispatchIndirectInvalidBuffer)
        } else if !devices[device].has_dispatch_indirect_signature {
            Err(RecordError::DispatchIndirectNoSignature)
        } else {
            Ok(
                Recorded {
                    state: RecordView {
                        dispatch_idx: st.dispatch_idx + 1,
                        ..st.with_calls(
                            dispatch_indirect_calls(
                                global,
                                inputs.profiling,
                                st.dispatch_idx,
                                buffers[buffer].resource,
                                offset,
                            ),
                        )
                    },
                    textures,
                },
            )
        },
        GpuCommand::DispatchBatch { label, arg_data, count } => if !devices.contains_key(device) {
            Err(RecordError::DispatchBatchInvalidDevice)
        } else if devices[device].has_batch_dispatch_signature {
            Ok(
                Recorded {
                    state: RecordView {
                        argument_buffers: st.argument_buffers + 1,
                        ..st.with_calls(
                            seq![
                                Call::UploadArguments { size: arg_data@.len() as u64 },
                                Call::ExecuteIndirect {
                                    signature: IndirectSignature::BatchDispatch,
                                    count,
                                    arguments: ArgumentSource::UploadedArguments,
                                    offset: 0,
                                },
                            ],
                        )
                    },
                    textures,
                },
            )
        } else {
            Ok(
                Recorded {
                    state: st.with_calls(
                        batch_calls(inputs.push_layout, arg_data@, count as int),
                    ),
                    textures,
                },
            )
        },
        GpuCommand::Barrier => Ok(
            Recorded {
                state: st.with_calls(issue_one(Barrier::Global(full_global_barrier()))),
                textures,
            },
        ),
        GpuCommand::ResourceBarrier { buffers: buffer_entries, textures: texture_entries } => Ok(
            Recorded {
                state: st.with_calls(
                    resource_barrier_calls(
                        global,
                        buffers,
                        textures,
                        buffer_entries@,
                        texture_entries@,
                    ),
                ),
                textures: relayout(textures, texture_entries@),
            },
        ),
        GpuCommand::ClearBuffer { buffer, offset, size } => if !buffers.contains_key(buffer) {
            Err(RecordError::ClearBufferInvalidBuffer)
        } else if buffers[buffer].is_storage && clear_span(buffers[buffer].size, offset, size) > 0
            && !devices.contains_key(device) {
            Err(RecordError::ClearBufferInvalidDevice)
        } else {
            Ok(
                Recorded {
                    state: st.with_calls(
                        clear_calls(
                            global,
                            devices[device].zero_buffer,
                            buffers[buffer],
                            offset,
                            size,
                        ),
                    ),
                    textures,
                },
            )
        },
        GpuCommand::WriteBuffer { buffer, offset, data } => if !buffers.contains_key(buffer) {
            Err(RecordError::WriteBufferInvalidBuffer)
        } else if !buffers[buffer].is_storage {
            Ok(
                Recorded {
                    state: st.with_calls(
                        seq![
                            Call::WriteMapped {
                                resource: buffers[buffer].resource,
                                offset,
                                size: data@.len() as u64,
                            },
                        ],
                    ),
                    textures,
                },
            )
        } else if st.belt_idx >= inputs.belt_slices@.len() {
            Err(RecordError::WriteBufferBeltSliceMissing)
        } else {
            Ok(
                Recorded {
                    state: RecordView {
                        belt_idx: st.belt_idx + 1,
                        ..st.with_calls(
                            staged_write_calls(
                                global,
                                buffers[buffer].resource,
                                offset,
                                inputs.belt_slices@[st.belt_idx],
                                data@.len() as u64,
                            ),
                        )
                    },
                    textures,
                },
            )
        },
        GpuCommand::WriteTexture { .. } => recorded_texture_upload(inputs, textures, st),
        GpuCommand::WriteTextureRegion { .. } => recorded_texture_upload(inputs, textures, st),
        GpuCommand::CopyBufferToTexture { .. } => recorded_texture_upload(inputs, textures, st),
        GpuCommand::CopyTexture { src, dst } => if !textures.contains_key(src) {
            Err(RecordError::CopyTextureSrcNotFound)
        } else if !textures.contains_key(dst) {
            Err(RecordError::CopyTextureDstNotFound)
        } else {
            Ok(
                Recorded {
                    state: st.with_calls(copy_texture_calls(textures[src], textures[dst])),
                    textures: set_layout(
                        set_layout(
                            textures,
                            src,
                            shader_layout_after_copy(textures[src].is_storage),
                        ),
                        dst,
                        shader_layout_after_copy(textures[dst].is_storage),
                    ),
                },
            )
        },
        GpuCommand::CopyBuffer { src, src_offset, dst, dst_offset, size } => if !buffers.contains_key(
            src,
        ) {
            Err(RecordError::CopyBufferInvalidSrc)
        } else if !buffers.contains_key(dst) {
            Err(RecordError::CopyBufferInvalidDst)
        } else if out_of_bounds(buffers[src].size, src_offset, size) || out_of_bounds(
            buffers[dst].size,
            dst_offset,
            size,
        ) {
            Err(RecordError::CopyBufferOutOfBounds)
        } else if buffers[src].flags.cpu_writable && buffers[src].upload_buffer is None {
            Err(RecordError::CopyBufferMissingUploadBuffer)
        } else {
            Ok(
                Recorded {
                    state: st.with_calls(
                        copy_buffer_calls(
                            global,
                            if buffers[src].flags.cpu_writable {
                                buffers[src].upload_buffer->0
                            } else {
                                buffers[src].resource
                            },
                            buffers[src].flags.cpu_writable,
                            src_offset,
                            buffers[dst].resource,
                            dst_offset,
                            size,
                        ),
                    ),
                    textures,
                },
            )
        },
        GpuCommand::CopyTextureToReadback { src, dst, src_layout_after } => Ok(
            Recorded {
                state: st.with_calls(seq![Call::CopyTextureToReadback { src, dst }]),
                textures: set_layout(textures, src, src_layout_after),
            },
        ),
        GpuCommand::CopyRenderTarget { src, dst } => if !tables.render_targets@.contains_key(src) {
            Err(RecordError::CopyRenderTargetSrcNotFound)
        } else if !textures.contains_key(dst) {
            Err(RecordError::CopyRenderTargetDstNotFound)
        } else {
            Ok(
                Recorded {
                    state: st.with_calls(
                        copy_render_target_calls(
                            tables.render_targets@[src].texture,
                            textures[dst],
                        ),
                    ),
                    textures: set_layout(
                        textures,
                        dst,
                        shader_layout_after_copy(textures[dst].is_storage),
                    ),
                },
            )
        },
    }
}

/// What recording the next staged texture upload leads to.
pub open spec fn recorded_texture_upload(
    inputs: RecordInputs,
    textures: Layouts,
    st: RecordView,
) -> Result<Recorded, RecordError> {
    if st.texture_upload_idx >= inputs.staged_texture_uploads@.len() {
        Err(RecordError::WriteTextureStagedUploadMissing)
    } else {
        let upload = inputs.staged_texture_uploads@[st.texture_upload_idx];
        Ok(
            Recorded {
                state: RecordView {
                    texture_upload_idx: st.texture_upload_idx + 1,
                    ..st.with_calls(
                        seq![Call::StagedTextureUpload { upload: st.texture_upload_idx as usize }],
                    )
                },
                textures: set_layout(textures, upload.texture, upload.layout_after),
            },
        )
    }
}

/// A batch on this device is unrolled: the device has no signature to execute it with.
pub open spec fn unrolls_batches(tables: RecordTables, inputs: RecordInputs) -> bool {
    tables.devices@.contains_key(inputs.device_handle)
        && !tables.devices@[inputs.device_handle].has_batch_dispatch_signature
}

/// Machine limits of recording one command: a batch that is unrolled has its
/// argument bytes, and the range of a clear ends within the address space.
pub open spec fn recordable(tables: RecordTables, inputs: RecordInputs, cmd: GpuCommand) -> bool {
    &&& inputs.push_layout.wf()
    &&& cmd matches GpuCommand::DispatchBatch { label, arg_data, count } ==> unrolls_batches(
        tables,
        inputs,
    ) ==> batch_in_bounds(inputs.push_layout, arg_data@.len() as int, count as int)
    &&& cmd matches GpuCommand::ClearBuffer { buffer, offset, size }
        ==> tables.buffers@.contains_key(buffer) ==> offset + size <= u64::MAX
}

/// Room in the recording state for one more command.
pub open spec fn has_room(st: RecordView) -> bool {
    st.dispatch_idx < 0x7fff_fff0 && st.argument_buffers < u64::MAX
}

impl Recorder {
    /// A recorder with nothing on its list.
    pub fn new() -> (recorder: Recorder)
        ensures
            recorder@ == RecordView::start(),
    {
        let r = Recorder {
            calls: Vec::new(),
            constants: Vec::new(),
            belt_idx: 0,
            texture_upload_idx: 0,
            dispatch_idx: 0,
            current_compute_pipeline: None,
            argument_buffers: 0,
        };
        assert(r@ =~= RecordView::start());
        r
    }

    /// Records a dispatch with its timestamps.
    fn record_timed(&mut self, profiling: bool, call: Call)
        requires
            has_room(old(self)@),
        ensures
            final(self)@ == (RecordView {
                dispatch_idx: old(self)@.dispatch_idx + 1,
                ..old(self)@.with_calls(
                    timed(profiling, old(self)@.dispatch_idx, seq![call]),
                )
            }),
    {
        if profiling {
            self.calls.push(Call::EndQuery { index: 2 + self.dispatch_idx * 2 });
        }
        self.calls.push(call);
        if profiling {
            self.calls.push(Call::EndQuery { index: 2 + self.dispatch_idx * 2 + 1 });
        }
        self.dispatch_idx = self.dispatch_idx + 1;
        assert(self.calls@ =~= old(self).calls@ + timed(
            profiling,
            old(self)@.dispatch_idx,
            seq![call],
        ));
    }

    /// Records the unrolled dispatches of a batch.
    fn record_batch(&mut self, layout: &PushLayoutInfo, args: &Vec<u8>, count: u32)
        requires
            layout.wf(),
            batch_in_bounds(*layout, args@.len() as int, count as int),
        ensures
            final(self)@ == old(self)@.with_calls(batch_calls(*layout, args@, count as int)),
    {
        let ghost start = self@;
        let mut i: u32 = 0;
        while i < count
            invariant
                i <= count,
                layout.wf(),
                batch_in_bounds(*layout, args@.len() as int, count as int),
                self@ == start.with_calls(batch_calls(*layout, args@, i as int)),
            decreases count - i,
        {
            assert(i * layout.stride <= (count - 1) * layout.stride) by (nonlinear_arith)
                requires
                    i <= count - 1,
                    0 <= layout.stride,
            ;
            assert(0 <= i * layout.stride) by (nonlinear_arith)
                requires
                    0 <= i,
                    0 <= layout.stride,
            ;
            let len: usize = args.len();
            assert(i * layout.stride + layout.size + 12 <= len);
            let base: usize = (i as usize) * layout.stride;
            let at: usize = base + layout.size;
            let x: u32 = u32_from_le_bytes(slice_subrange(args.as_slice(), at, at + 4));
            let y: u32 = u32_from_le_bytes(slice_subrange(args.as_slice(), at + 4, at + 8));
            let z: u32 = u32_from_le_bytes(slice_subrange(args.as_slice(), at + 8, at + 12));
            self.calls.push(
                Call::SetRootConstants { first_byte: base, dwords: (layout.size / 4) as u32 },
            );
            self.calls.push(Call::Dispatch { x, y, z });
            assert(self.calls@ =~= start.calls + (batch_calls(*layout, args@, i as int)
                + batch_entry(*layout, args@, i as int)));
            i += 1;
        }
        assert(self@ =~= start.with_calls(batch_calls(*layout, args@, count as int)));
    }

    /// Records the buffer entries of a resource barrier as global barriers.
    fn record_global_entries(
        &mut self,
        buffers: &HashMap<u64, BufferState>,
        entries: &Vec<(u64, BarrierUsage)>,
    )
        ensures
            final(self)@ == old(self)@.with_calls(global_entry_calls(buffers@, entries@)),
    {
        let ghost start = self@;
        let mut i: usize = 0;
        assert(self.calls@ =~= start.calls + global_entry_calls(buffers@, entries@.take(0)));
        while i < entries.len()
            invariant
                i <= entries.len(),
                self@ == start.with_calls(global_entry_calls(buffers@, entries@.take(i as int))),
            decreases entries.len() - i,
        {
            let entry = entries[i];
            let is_storage = match buffers.get(&entry.0) {
                Some(b) => b.is_storage,
                None => false,
            };
            let barrier = if is_storage {
                warp_full_global_barrier()
            } else {
                let before: u32 = slot_usage_to_dx12_access_for_buffer(&entry.1.src, false);
                let after: u32 = slot_usage_to_dx12_access_for_buffer(&entry.1.dst, false);
                GlobalBarrier {
                    sync_before: slot_usage_to_dx12_sync(&entry.1.src, false),
                    sync_after: slot_usage_to_dx12_sync(&entry.1.dst, false),
                    access_before: before,
                    access_after: if before == ACCESS_COMMON {
                        ACCESS_COMMON
                    } else {
                        after
                    },
                }
            };
            issue_barrier(&mut self.calls, Barrier::Global(barrier));
            assert(entries@.take(i + 1).drop_last() =~= entries@.take(i as int));
            assert(self.calls@ =~= start.calls + global_entry_calls(
                buffers@,
                entries@.take(i + 1),
            ));
            i += 1;
        }
        assert(entries@.take(i as int) =~= entries@);
    }

    /// Records a resource barrier and the layouts it leads to.
    fn record_resource_barrier(
        &mut self,
        global: bool,
        buffers: &HashMap<u64, BufferState>,
        textures: &mut HashMap<u64, TextureState>,
        buffer_entries: &Vec<(u64, BarrierUsage)>,
        texture_entries: &Vec<(u64, BarrierUsage)>,
    )
        ensures
            final(self)@ == old(self)@.with_calls(
                resource_barrier_calls(
                    global,
                    buffers@,
                    old(textures)@,
                    buffer_entries@,
                    texture_entries@,
                ),
            ),
            final(textures)@ == relayout(old(textures)@, texture_entries@),
    {
        let mut group: Vec<Barrier> = Vec::new();
        if global {
            self.record_global_entries(buffers, buffer_entries);
        } else {
            group = collect_buffer_barriers(buffers, buffer_entries);
        }
        let mut texture_group = collect_texture_barriers(textures, texture_entries);
        group.append(&mut texture_group);
        barrier_group(&mut self.calls, group.as_slice());
        apply_layouts(textures, texture_entries);
        proof {
            let tex = texture_entry_barriers(old(textures)@, texture_entries@);
            assert(Seq::<Barrier>::empty() + tex =~= tex);
        }
        assert(self@ =~= old(self)@.with_calls(
            resource_barrier_calls(
                global,
                buffers@,
                old(textures)@,
                buffer_entries@,
                texture_entries@,
            ),
        ));
    }

    /// Records the next staged texture upload.
    fn record_texture_upload(
        &mut self,
        inputs: &RecordInputs,
        textures: &mut HashMap<u64, TextureState>,
    ) -> (result: Result<(), RecordError>)
        ensures
            match recorded_texture_upload(*inputs, old(textures)@, old(self)@) {
                Ok(to) => result is Ok && final(self)@ == to.state && final(textures)@
                    == to.textures,
                Err(e) => result == Err::<(), RecordError>(e) && final(self)@ == old(self)@
                    && final(textures)@ == old(textures)@,
            },
    {
        if self.texture_upload_idx >= inputs.staged_texture_uploads.len() {
            return Err(RecordError::WriteTextureStagedUploadMissing);
        }
        let upload = inputs.staged_texture_uploads[self.texture_upload_idx];
        self.calls.push(Call::StagedTextureUpload { upload: self.texture_upload_idx });
        self.texture_upload_idx += 1;
        update_layout(textures, upload.texture, upload.layout_after);
        assert(self.calls@ =~= old(self).calls@ + seq![
            Call::StagedTextureUpload { upload: old(self).texture_upload_idx },
        ]);
        Ok(())
    }

    /// Records a texture-to-texture copy.
    fn record_copy_texture(
        &mut self,
        textures: &mut HashMap<u64, TextureState>,
        src: u64,
        dst: u64,
        s: TextureState,
        d: TextureState,
    )
        requires
            old(textures)@.contains_key(src) && old(textures)@[src] == s,
            old(textures)@.contains_key(dst) && old(textures)@[dst] == d,
        ensures
            final(self)@ == old(self)@.with_calls(copy_texture_calls(s, d)),
            final(textures)@ == set_layout(
                set_layout(old(textures)@, src, shader_layout_after_copy(s.is_storage)),
                dst,
                shader_layout_after_copy(d.is_storage),
            ),
    {
        let pre = vec![copy_source_barrier(&s), copy_dest_barrier(&d)];
        assert(pre@ =~= seq![to_copy_source(s), to_copy_dest(d)]);
        barrier_group(&mut self.calls, pre.as_slice());
        self.calls.push(Call::CopyResource { dst: d.resource, src: s.resource });
        let post = vec![
            shader_barrier(&s, ACCESS_COPY_SOURCE, LAYOUT_COPY_SOURCE),
            shader_barrier(&d, ACCESS_COPY_DEST, LAYOUT_COPY_DEST),
        ];
        assert(post@ =~= seq![
            copied_to_shader(s, ACCESS_COPY_SOURCE, LAYOUT_COPY_SOURCE),
            copied_to_shader(d, ACCESS_COPY_DEST, LAYOUT_COPY_DEST),
        ]);
        barrier_group(&mut self.calls, post.as_slice());
        assert(self.calls@ =~= old(self).calls@ + copy_texture_calls(s, d));
        update_layout(textures, src, layout_after_copy(s.is_storage));
        update_layout(textures, dst, layout_after_copy(d.is_storage));
    }

    /// Records a copy of a render target into a texture.
    fn record_copy_render_target(
        &mut self,
        textures: &mut HashMap<u64, TextureState>,
        src: u64,
        dst: u64,
        d: TextureState,
    )
        requires
            old(textures)@.contains_key(dst) && old(textures)@[dst] == d,
        ensures
            final(self)@ == old(self)@.with_calls(copy_render_target_calls(src, d)),
            final(textures)@ == set_layout(
                old(textures)@,
                dst,
                shader_layout_after_copy(d.is_storage),
            ),
    {
        let stay = Barrier::Texture(
            texture_barrier_full(
                src,
                SYNC_COPY,
                SYNC_COPY,
                ACCESS_COPY_SOURCE,
                ACCESS_COPY_SOURCE,
                LAYOUT_COPY_SOURCE,
                LAYOUT_COPY_SOURCE,
            ),
        );
        let pre = vec![stay, copy_dest_barrier(&d)];
        assert(pre@ =~= seq![stay, to_copy_dest(d)]);
        barrier_group(&mut self.calls, pre.as_slice());
        self.calls.push(Call::CopyResource { dst: d.resource, src });
        let back = Barrier::Texture(
            texture_barrier_full(
                src,
                SYNC_COPY,
                SYNC_RENDER_TARGET,
                ACCESS_COPY_SOURCE,
                ACCESS_RENDER_TARGET,
                LAYOUT_COPY_SOURCE,
                LAYOUT_RENDER_TARGET,
            ),
        );
        let post = vec![back, shader_barrier(&d, ACCESS_COPY_DEST, LAYOUT_COPY_DEST)];
        assert(post@ =~= seq![back, copied_to_shader(d, ACCESS_COPY_DEST, LAYOUT_COPY_DEST)]);
        barrier_group(&mut self.calls, post.as_slice());
        assert(self.calls@ =~= old(self).calls@ + copy_render_target_calls(src, d));
        update_layout(textures, dst, layout_after_copy(d.is_storage));
    }
}

/// Changes the layout of a texture; nothing for an unknown one.
fn update_layout(textures: &mut HashMap<u64, TextureState>, handle: u64, layout: u32)
    ensures
        final(textures)@ == set_layout(old(textures)@, handle, layout),
{
    let known: Option<TextureState> = match textures.get(&handle) {
        Some(t) => Some(*t),
        None => None,
    };
    match known {
        Some(t) => {
            textures.insert(handle, TextureState { last_layout: layout, ..t });
        },
        None => {},
    }
}

fn layout_after_copy(is_storage: bool) -> (layout: u32)
    ensures
        layout == shader_layout_after_copy(is_storage),
{
    if is_storage {
        LAYOUT_DIRECT_QUEUE_UNORDERED_ACCESS
    } else {
        LAYOUT_DIRECT_QUEUE_SHADER_RESOURCE
    }
}

fn copy_source_barrier(t: &TextureState) -> (barrier: Barrier)
    ensures
        barrier == to_copy_source(*t),
{
    let before = texture_barrier_state_for_layout(t.last_layout);
    Barrier::Texture(
        texture_barrier_full(
            t.resource,
            before.sync,
            SYNC_COPY,
            before.access,
            ACCESS_COPY_SOURCE,
            before.layout,
            LAYOUT_COPY_SOURCE,
        ),
    )
}

fn copy_dest_barrier(t: &TextureState) -> (barrier: Barrier)
    ensures
        barrier == to_copy_dest(*t),
{
    let before = texture_barrier_state_for_layout(t.last_layout);
    Barrier::Texture(
        texture_barrier_full(
            t.resource,
            before.sync,
            SYNC_COPY,
            before.access,
            ACCESS_COPY_DEST,
            before.layout,
            LAYOUT_COPY_DEST,
        ),
    )
}

fn shader_barrier(t: &TextureState, access: u32, layout: u32) -> (barrier: Barrier)
    requires
        access == ACCESS_COPY_SOURCE || access == ACCESS_COPY_DEST,
    ensures
        barrier == copied_to_shader(*t, access, layout),
{
    let after: u32 = if t.is_storage { ACCESS_UNORDERED_ACCESS } else { ACCESS_SHADER_RESOURCE };
    Barrier::Texture(
        texture_barrier_full(
            t.resource,
            SYNC_COPY,
            SYNC_COMPUTE_SHADING,
            access,
            after,
            layout,
            layout_after_copy(t.is_storage),
        ),
    )
}

/// The buffer barriers of the entries whose buffer is known.
fn collect_buffer_barriers(
    buffers: &HashMap<u64, BufferState>,
    entries: &Vec<(u64, BarrierUsage)>,
) -> (group: Vec<Barrier>)
    ensures
        group@ == buffer_entry_barriers(buffers@, entries@),
{
    let mut group: Vec<Barrier> = Vec::new();
    let mut i: usize = 0;
    while i < entries.len()
        invariant
            i <= entries.len(),
            group@ == buffer_entry_barriers(buffers@, entries@.take(i as int)),
        decreases entries.len() - i,
    {
        let (handle, usage) = entries[i];
        assert(entries@.take(i + 1).drop_last() =~= entries@.take(i as int));
        match buffers.get(&handle) {
            Some(b) => {
                proof {
                    lowered_buffer_usage_is_paired(usage.src, b.is_storage);
                    lowered_buffer_usage_is_paired(usage.dst, b.is_storage);
                }
                let barrier = buffer_barrier_full(
                    b.resource,
                    slot_usage_to_dx12_sync(&usage.src, b.is_storage),
                    slot_usage_to_dx12_sync(&usage.dst, b.is_storage),
                    slot_usage_to_dx12_access_for_buffer(&usage.src, b.is_storage),
                    slot_usage_to_dx12_access_for_buffer(&usage.dst, b.is_storage),
                );
                group.push(Barrier::Buffer(barrier));
            },
            None => {},
        }
        i += 1;
    }
    assert(entries@.take(i as int) =~= entries@);
    group
}

/// The texture barriers of the entries whose texture is known.
fn collect_texture_barriers(
    textures: &HashMap<u64, TextureState>,
    entries: &Vec<(u64, BarrierUsage)>,
) -> (group: Vec<Barrier>)
    ensures
        group@ == texture_entry_barriers(textures@, entries@),
{
    let mut group: Vec<Barrier> = Vec::new();
    let mut i: usize = 0;
    while i < entries.len()
        invariant
            i <= entries.len(),
            group@ == texture_entry_barriers(textures@, entries@.take(i as int)),
        decreases entries.len() - i,
    {
        let (handle, usage) = entries[i];
        assert(entries@.take(i + 1).drop_last() =~= entries@.take(i as int));
        match textures.get(&handle) {
            Some(t) => {
                let after = texture_barrier_state_for_usage(&usage.dst, t.is_storage);
                let before = texture_barrier_state_for_layout(t.last_layout);
                let barrier = texture_barrier_full(
                    t.resource,
                    before.sync,
                    after.sync,
                    before.access,
                    after.access,
                    before.layout,
                    after.layout,
                );
                group.push(Barrier::Texture(barrier));
            },
            None => {},
        }
        i += 1;
    }
    assert(entries@.take(i as int) =~= entries@);
    group
}

/// Moves the textures of the entries to the layouts their uses need.
fn apply_layouts(textures: &mut HashMap<u64, TextureState>, entries: &Vec<(u64, BarrierUsage)>)
    ensures
        final(textures)@ == relayout(old(textures)@, entries@),
{
    let ghost start = textures@;
    let mut i: usize = 0;
    while i < entries.len()
        invariant
            i <= entries.len(),
            textures@ == relayout(start, entries@.take(i as int)),
        decreases entries.len() - i,
    {
        let (handle, usage) = entries[i];
        assert(entries@.take(i + 1).drop_last() =~= entries@.take(i as int));
        let known: Option<bool> = match textures.get(&handle) {
            Some(t) => Some(t.is_storage),
            None => None,
        };
        match known {
            Some(is_storage) => {
                let after = texture_barrier_state_for_usage(&usage.dst, is_storage);
                update_layout(textures, handle, after.layout);
            },
            None => {},
        }
        i += 1;
    }
    assert(entries@.take(i as int) =~= entries@);
}

/// The bytes that a clear covers.
pub fn clear_size(size: u64, offset: u64, requested: u64) -> (span: u64)
    ensures
        span == clear_span(size, offset, requested),
{
    if requested == 0 {
        size.saturating_sub(offset)
    } else {
        requested
    }
}

impl Recorder {
    /// Records one command: puts its calls on the list and moves the recording
    /// state and the texture layouts on. A command that cannot be recorded changes
    /// nothing.
    pub fn record_gpu_command(
        &mut self,
        tables: &RecordTables,
        inputs: &RecordInputs,
        textures: &mut HashMap<u64, TextureState>,
        cmd: &GpuCommand,
    ) -> (result: Result<(), RecordError>)
        requires
            recordable(*tables, *inputs, *cmd),
            has_room(old(self)@),
        ensures
            match recorded(*tables, *inputs, old(textures)@, old(self)@, *cmd) {
                Ok(to) => result is Ok && final(self)@ == to.state && final(textures)@
                    == to.textures,
                Err(e) => result == Err::<(), RecordError>(e) && final(self)@ == old(self)@
                    && final(textures)@ == old(textures)@,
            },
    {
        let global = inputs.use_global_buffer_barriers;
        let ghost st = self@;
        let ghost layouts = textures@;
        match cmd {
            GpuCommand::FrameTableStaging { words } => {
                self.calls.push(Call::FrameTablePrologue);
                assert(self@ =~= st.with_calls(seq![Call::FrameTablePrologue]));
            },
            GpuCommand::SetPipeline(handle) => {
                self.current_compute_pipeline = Some(*handle);
                if tables.compute_pipelines.contains_key(handle) {
                    self.calls.push(Call::SetComputeRootSignature { pipeline: *handle });
                    self.calls.push(Call::SetPipelineState { pipeline: *handle });
                }
                assert(self@ =~= recorded(*tables, *inputs, layouts, st, *cmd)->Ok_0.state);
            },
            GpuCommand::BindResourcesRaw { indices, user, frame_table_base } => {
                match self.current_compute_pipeline {
                    Some(p) => {
                        if tables.compute_pipelines.contains_key(&p) {
                            self.calls.push(Call::ValidateBindings { pipeline: p });
                        }
                    },
                    None => {},
                }
                let first: usize = self.constants.len();
                let count: usize = user.len();
                append_words(&mut self.constants, user);
                self.calls.push(
                    Call::BindFrameTable {
                        base: *frame_table_base,
                        user_first: first,
                        user_count: count,
                    },
                );
                assert(self@ =~= recorded(*tables, *inputs, layouts, st, *cmd)->Ok_0.state);
            },
            GpuCommand::BindResourcesTyped { handles } => {
                return Err(RecordError::TypedBindingsNotLowered);
            },
            GpuCommand::Dispatch { label, workgroups_x, workgroups_y, workgroups_z } => {
                self.record_timed(
                    inputs.profiling,
                    Call::Dispatch { x: *workgroups_x, y: *workgroups_y, z: *workgroups_z },
                );
            },
            GpuCommand::DispatchIndirect { label, buffer, offset } => {
                let device = match tables.devices.get(&inputs.device_handle) {
                    Some(d) => *d,
                    None => {
                        return Err(RecordError::DispatchIndirectInvalidDevice);
                    },
                };
                let resource: u64 = match tables.buffers.get(buffer) {
                    Some(b) => b.resource,
                    None => {
                        return Err(RecordError::DispatchIndirectInvalidBuffer);
                    },
                };
                if !device.has_dispatch_indirect_signature {
                    return Err(RecordError::DispatchIndirectNoSignature);
                }
                emit_transition(
                    &mut self.calls,
                    global,
                    resource,
                    SYNC_COMPUTE_SHADING,
                    SYNC_EXECUTE_INDIRECT,
                    ACCESS_UNORDERED_ACCESS,
                    ACCESS_INDIRECT_ARGUMENT,
                );
                self.record_timed(
                    inputs.profiling,
                    Call::ExecuteIndirect {
                        signature: IndirectSignature::Dispatch,
                        count: 1,
                        arguments: ArgumentSource::Resource(resource),
                        offset: *offset,
                    },
                );
                emit_transition(
                    &mut self.calls,
                    global,
                    resource,
                    SYNC_EXECUTE_INDIRECT,
                    SYNC_COMPUTE_SHADING,
                    ACCESS_INDIRECT_ARGUMENT,
                    ACCESS_UNORDERED_ACCESS,
                );
                assert(self@ =~= recorded(*tables, *inputs, layouts, st, *cmd)->Ok_0.state);
            },
            GpuCommand::DispatchBatch { label, arg_data, count } => {
                let device = match tables.devices.get(&inputs.device_handle) {
                    Some(d) => *d,
                    None => {
                        return Err(RecordError::DispatchBatchInvalidDevice);
                    },
                };
                if device.has_batch_dispatch_signature {
                    self.calls.push(Call::UploadArguments { size: arg_data.len() as u64 });
                    self.calls.push(
                        Call::ExecuteIndirect {
                            signature: IndirectSignature::BatchDispatch,
                            count: *count,
                            arguments: ArgumentSource::UploadedArguments,
                            offset: 0,
                        },
                    );
                    self.argument_buffers = self.argument_buffers + 1;
                    assert(self@ =~= recorded(*tables, *inputs, layouts, st, *cmd)->Ok_0.state);
                } else {
                    self.record_batch(&inputs.push_layout, arg_data, *count);
                }
            },
            GpuCommand::Barrier => {
                issue_barrier(&mut self.calls, Barrier::Global(warp_full_global_barrier()));
                assert(self@ =~= recorded(*tables, *inputs, layouts, st, *cmd)->Ok_0.state);
            },
            GpuCommand::ResourceBarrier { buffers, textures: texture_entries } => {
                self.record_resource_barrier(
                    global,
                    &tables.buffers,
                    textures,
                    buffers,
                    texture_entries,
                );
            },
            GpuCommand::ClearBuffer { buffer, offset, size } => {
                return self.record_clear(tables, inputs, *buffer, *offset, *size);
            },
            GpuCommand::WriteBuffer { buffer, offset, data } => {
                return self.record_write(tables, inputs, *buffer, *offset, data.len() as u64);
            },
            GpuCommand::WriteTexture { .. } => {
                return self.record_texture_upload(inputs, textures);
            },
            GpuCommand::WriteTextureRegion { .. } => {
                return self.record_texture_upload(inputs, textures);
            },
            GpuCommand::CopyBufferToTexture { .. } => {
                return self.record_texture_upload(inputs, textures);
            },
            GpuCommand::CopyTexture { src, dst } => {
                let s = match textures.get(src) {
                    Some(t) => *t,
                    None => {
                        return Err(RecordError::CopyTextureSrcNotFound);
                    },
                };
                let d = match textures.get(dst) {
                    Some(t) => *t,
                    None => {
                        return Err(RecordError::CopyTextureDstNotFound);
                    },
                };
                self.record_copy_texture(textures, *src, *dst, s, d);
            },
            GpuCommand::CopyBuffer { src, src_offset, dst, dst_offset, size } => {
                return self.record_copy_buffer(
                    tables,
                    global,
                    *src,
                    *src_offset,
                    *dst,
                    *dst_offset,
                    *size,
                );
            },
            GpuCommand::CopyTextureToReadback { src, dst, src_layout_after } => {
                self.calls.push(Call::CopyTextureToReadback { src: *src, dst: *dst });
                update_layout(textures, *src, *src_layout_after);
                assert(self@ =~= recorded(*tables, *inputs, layouts, st, *cmd)->Ok_0.state);
            },
            GpuCommand::CopyRenderTarget { src, dst } => {
                let source: u64 = match tables.render_targets.get(src) {
                    Some(rt) => rt.texture,
                    None => {
                        return Err(RecordError::CopyRenderTargetSrcNotFound);
                    },
                };
                let d = match textures.get(dst) {
                    Some(t) => *t,
                    None => {
                        return Err(RecordError::CopyRenderTargetDstNotFound);
                    },
                };
                self.record_copy_render_target(textures, source, *dst, d);
            },
        }
        Ok(())
    }

    fn record_clear(
        &mut self,
        tables: &RecordTables,
        inputs: &RecordInputs,
        buffer: u64,
        offset: u64,
        size: u64,
    ) -> (result: Result<(), RecordError>)
        requires
            tables.buffers@.contains_key(buffer) ==> offset + size <= u64::MAX,
        ensures
            match recorded(
                *tables,
                *inputs,
                Map::empty(),
                old(self)@,
                GpuCommand::ClearBuffer { buffer, offset, size },
            ) {
                Ok(to) => result is Ok && final(self)@ == to.state,
                Err(e) => result == Err::<(), RecordError>(e) && final(self)@ == old(self)@,
            },
    {
        let ghost st = self@;
        let global = inputs.use_global_buffer_barriers;
        let state = match tables.buffers.get(&buffer) {
            Some(b) => b,
            None => {
                return Err(RecordError::ClearBufferInvalidBuffer);
            },
        };
        let span: u64 = clear_size(state.size, offset, size);
        if span > 0 {
            if state.is_storage {
                let zero: u64 = match tables.devices.get(&inputs.device_handle) {
                    Some(d) => d.zero_buffer,
                    None => {
                        return Err(RecordError::ClearBufferInvalidDevice);
                    },
                };
                let before: u32 = if global { ACCESS_UNORDERED_ACCESS } else { ACCESS_COMMON };
                emit_transition(
                    &mut self.calls,
                    global,
                    state.resource,
                    SYNC_ALL,
                    SYNC_COPY,
                    before,
                    ACCESS_COPY_DEST,
                );
                emit_zero_fill(&mut self.calls, state.resource, offset, zero, span);
            } else {
                self.calls.push(Call::ZeroMapped { resource: state.resource, offset, size: span });
            }
        }
        assert(self@ =~= recorded(
            *tables,
            *inputs,
            Map::empty(),
            st,
            GpuCommand::ClearBuffer { buffer, offset, size },
        )->Ok_0.state);
        Ok(())
    }

    fn record_write(
        &mut self,
        tables: &RecordTables,
        inputs: &RecordInputs,
        buffer: u64,
        offset: u64,
        len: u64,
    ) -> (result: Result<(), RecordError>)
        ensures
            !tables.buffers@.contains_key(buffer) ==> result == Err::<(), RecordError>(
                RecordError::WriteBufferInvalidBuffer,
            ) && final(self)@ == old(self)@,
            tables.buffers@.contains_key(buffer) && !tables.buffers@[buffer].is_storage ==> result
                is Ok && final(self)@ == old(self)@.with_calls(
                seq![
                    Call::WriteMapped {
                        resource: tables.buffers@[buffer].resource,
                        offset,
                        size: len,
                    },
                ],
            ),
            tables.buffers@.contains_key(buffer) && tables.buffers@[buffer].is_storage
                && old(self)@.belt_idx >= inputs.belt_slices@.len() ==> result == Err::<
                (),
                RecordError,
            >(RecordError::WriteBufferBeltSliceMissing) && final(self)@ == old(self)@,
            tables.buffers@.contains_key(buffer) && tables.buffers@[buffer].is_storage
                && old(self)@.belt_idx < inputs.belt_slices@.len() ==> result is Ok
                && final(self)@ == (RecordView {
                belt_idx: old(self)@.belt_idx + 1,
                ..old(self)@.with_calls(
                    staged_write_calls(
                        inputs.use_global_buffer_barriers,
                        tables.buffers@[buffer].resource,
                        offset,
                        inputs.belt_slices@[old(self)@.belt_idx],
                        len,
                    ),
                )
            }),
    {
        let global = inputs.use_global_buffer_barriers;
        let state = match tables.buffers.get(&buffer) {
            Some(b) => b,
            None => {
                return Err(RecordError::WriteBufferInvalidBuffer);
            },
        };
        if !state.is_storage {
            self.calls.push(Call::WriteMapped { resource: state.resource, offset, size: len });
            assert(self.calls@ =~= old(self).calls@ + seq![
                Call::WriteMapped { resource: state.resource, offset, size: len },
            ]);
            return Ok(());
        }
        if self.belt_idx >= inputs.belt_slices.len() {
            return Err(RecordError::WriteBufferBeltSliceMissing);
        }
        let slice = inputs.belt_slices[self.belt_idx];
        self.belt_idx += 1;
        emit_transition(
            &mut self.calls,
            global,
            state.resource,
            SYNC_ALL,
            SYNC_COPY,
            ACCESS_UNORDERED_ACCESS,
            ACCESS_COPY_DEST,
        );
        self.calls.push(
            Call::CopyBufferRegion {
                dst: state.resource,
                dst_offset: offset,
                src: slice.resource,
                src_offset: slice.offset,
                size: len,
            },
        );
        assert(self.calls@ =~= old(self).calls@ + staged_write_calls(
            global,
            state.resource,
            offset,
            slice,
            len,
        ));
        Ok(())
    }

    fn record_copy_buffer(
        &mut self,
        tables: &RecordTables,
        global: bool,
        src: u64,
        src_offset: u64,
        dst: u64,
        dst_offset: u64,
        size: u64,
    ) -> (result: Result<(), RecordError>)
        ensures
            !tables.buffers@.contains_key(src) ==> result == Err::<(), RecordError>(
                RecordError::CopyBufferInvalidSrc,
            ),
            tables.buffers@.contains_key(src) && !tables.buffers@.contains_key(dst) ==> result
                == Err::<(), RecordError>(RecordError::CopyBufferInvalidDst),
            tables.buffers@.contains_key(src) && tables.buffers@.contains_key(dst) ==> {
                let s = tables.buffers@[src];
                let d = tables.buffers@[dst];
                if out_of_bounds(s.size, src_offset, size) || out_of_bounds(
                    d.size,
                    dst_offset,
                    size,
                ) {
                    result == Err::<(), RecordError>(RecordError::CopyBufferOutOfBounds)
                } else if s.flags.cpu_writable && s.upload_buffer is None {
                    result == Err::<(), RecordError>(RecordError::CopyBufferMissingUploadBuffer)
                } else {
                    result is Ok && final(self)@ == old(self)@.with_calls(
                        copy_buffer_calls(
                            global,
                            if s.flags.cpu_writable {
                                s.upload_buffer->0
                            } else {
                                s.resource
                            },
                            s.flags.cpu_writable,
                            src_offset,
                            d.resource,
                            dst_offset,
                            size,
                        ),
                    )
                }
            },
            result is Err ==> final(self)@ == old(self)@,
    {
        let s = match tables.buffers.get(&src) {
            Some(b) => b,
            None => {
                return Err(RecordError::CopyBufferInvalidSrc);
            },
        };
        let d = match tables.buffers.get(&dst) {
            Some(b) => b,
            None => {
                return Err(RecordError::CopyBufferInvalidDst);
            },
        };
        if src_offset.saturating_add(size) > s.size || dst_offset.saturating_add(size) > d.size {
            return Err(RecordError::CopyBufferOutOfBounds);
        }
        let is_upload = s.flags.cpu_writable;
        let source: u64 = if is_upload {
            match s.upload_buffer {
                Some(u) => u,
                None => {
                    return Err(RecordError::CopyBufferMissingUploadBuffer);
                },
            }
        } else {
            s.resource
        };
        let before: u32 = if is_upload { ACCESS_COPY_SOURCE } else { ACCESS_UNORDERED_ACCESS };
        emit_transition(
            &mut self.calls,
            global,
            source,
            SYNC_ALL,
            SYNC_COPY,
            before,
            ACCESS_COPY_SOURCE,
        );
        self.calls.push(
            Call::CopyBufferRegion {
                dst: d.resource,
                dst_offset,
                src: source,
                src_offset,
                size,
            },
        );
        assert(self.calls@ =~= old(self).calls@ + copy_buffer_calls(
            global,
            source,
            is_upload,
            src_offset,
            d.resource,
            dst_offset,
            size,
        ));
        Ok(())
    }
}

/// Appends words to a list.
fn append_words(words: &mut Vec<u32>, more: &Vec<u32>)
    ensures
        final(words)@ == old(words)@ + more@,
{
    let ghost start = words@;
    let mut i: usize = 0;
    while i < more.len()
        invariant
            i <= more.len(),
            words@ == start + more@.take(i as int),
        decreases more.len() - i,
    {
        words.push(more[i]);
        i += 1;
    }
    assert(more@.take(i as int) =~= more@);
}

} // verus!
