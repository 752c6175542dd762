//! What the calls of recorded commands come to on a command list: which groups run, which
//! resources are read as arguments, which layouts textures are in, and what is refused.

use vstd::bytes::spec_u32_from_le_bytes;
use vstd::prelude::*;

use super::barriers::{
    Barrier, ACCESS_COMMON, ACCESS_COPY_DEST, ACCESS_COPY_SOURCE, ACCESS_INDIRECT_ARGUMENT,
    ACCESS_UNORDERED_ACCESS, LAYOUT_COPY_DEST, LAYOUT_COPY_SOURCE,
    LAYOUT_DIRECT_QUEUE_SHADER_RESOURCE, LAYOUT_DIRECT_QUEUE_UNORDERED_ACCESS,
    LAYOUT_RENDER_TARGET, LAYOUT_SHADER_RESOURCE, LAYOUT_UNORDERED_ACCESS, SYNC_ALL,
    SYNC_COMPUTE_SHADING, SYNC_COPY, SYNC_EXECUTE_INDIRECT,
};
use super::command_list::{issue, ArgumentSource, Call, IndirectSignature};
use super::commands::{GpuCommand, GraphCommand, PushLayoutInfo};
use super::lowering::{buffer_access, buffer_sync, BarrierUsage};
use super::memory::{run_calls, Memory};
use super::record::{
    batch_calls, batch_entry, buffer_entry_barriers, copy_render_target_calls, copy_texture_calls,
    dispatch_indirect_calls, global_entry_barrier, global_entry_calls, recorded, relayout,
    texture_entry_barriers, Layouts, RecordError, RecordInputs, RecordView,
};
use super::record_laws::added_calls;
use super::stream::{run_graph, run_stream};
use super::types::{BufferState, RecordTables, TextureState};

verus! {

broadcast use vstd::std_specs::hash::group_hash_axioms;

/// A group runs: some dispatch has it.
pub open spec fn runs_group(calls: Seq<Call>, x: int, y: int, z: int) -> bool {
    exists|i: int|
        0 <= i < calls.len() && (#[trigger] calls[i] matches Call::Dispatch { x: gx, y: gy, z: gz }
            && x < gx && y < gy && z < gz)
}

/// How many of the calls run shaders.
pub open spec fn executions(calls: Seq<Call>) -> int
    decreases calls.len(),
{
    if calls.len() == 0 {
        0
    } else {
        executions(calls.drop_last()) + if calls.last() is Dispatch || calls.last()
            is ExecuteIndirect {
            1int
        } else {
            0
        }
    }
}

proof fn lemma_executions_of_both(a: Seq<Call>, b: Seq<Call>)
    ensures
        executions(a + b) == executions(a) + executions(b),
    decreases b.len(),
{
    if b.len() == 0 {
        assert(a + b =~= a);
    } else {
        lemma_executions_of_both(a, b.drop_last());
        assert((a + b).drop_last() =~= a + b.drop_last());
    }
}

proof fn lemma_executions_of_one(call: Call)
    ensures
        executions(seq![call]) == if call is Dispatch || call is ExecuteIndirect {
            1int
        } else {
            0
        },
{
    reveal_with_fuel(executions, 2);
    assert(seq![call].drop_last() =~= Seq::<Call>::empty());
}

proof fn lemma_executions_of_two(a: Call, b: Call)
    ensures
        executions(seq![a, b]) == executions(seq![a]) + executions(seq![b]),
{
    assert(seq![a, b] =~= seq![a] + seq![b]);
    lemma_executions_of_both(seq![a], seq![b]);
}

/// A dispatch runs shaders once, and group `(x, y, z)` runs exactly where each of its
/// numbers is below the number of groups that the command gives along that axis. Nothing
/// else is put on the list but the two timestamps of a timed dispatch, around it.
pub proof fn dispatch_runs_the_groups_of_its_command(
    tables: RecordTables,
    inputs: RecordInputs,
    textures: Layouts,
    st: RecordView,
    label: Option<&'static str>,
    workgroups_x: u32,
    workgroups_y: u32,
    workgroups_z: u32,
    x: int,
    y: int,
    z: int,
)
    requires
        0 <= st.dispatch_idx < 0x7fff_fff0,
    ensures
        ({
            let cmd = GpuCommand::Dispatch { label, workgroups_x, workgroups_y, workgroups_z };
            let added = added_calls(tables, inputs, textures, st, cmd);
            &&& recorded(tables, inputs, textures, st, cmd) matches Ok(to)
            &&& to.state.calls == st.calls + added
            &&& to.textures == textures
            &&& to.state.dispatch_idx == st.dispatch_idx + 1
            &&& executions(added) == 1
            &&& runs_group(added, x, y, z) <==> x < workgroups_x && y < workgroups_y && z
                < workgroups_z
            &&& added.len() == if inputs.profiling {
                3int
            } else {
                1
            }
            &&& inputs.profiling ==> added[0] == (Call::EndQuery {
                index: (2 + 2 * st.dispatch_idx) as u32,
            }) && added[2] == (Call::EndQuery { index: (3 + 2 * st.dispatch_idx) as u32 })
        }),
{
    let cmd = GpuCommand::Dispatch { label, workgroups_x, workgroups_y, workgroups_z };
    let added = added_calls(tables, inputs, textures, st, cmd);
    let to = recorded(tables, inputs, textures, st, cmd)->Ok_0;
    assert(to.state.calls =~= st.calls + added);
    if inputs.profiling {
        assert(added[1] is Dispatch);
        assert(added =~= seq![added[0]] + seq![added[1]] + seq![added[2]]);
        lemma_executions_of_one(added[0]);
        lemma_executions_of_one(added[1]);
        lemma_executions_of_one(added[2]);
        lemma_executions_of_both(seq![added[0]] + seq![added[1]], seq![added[2]]);
        lemma_executions_of_both(seq![added[0]], seq![added[1]]);
    } else {
        assert(added[0] is Dispatch);
        assert(added =~= seq![added[0]]);
        lemma_executions_of_one(added[0]);
    }
}

/// A batch on a device without a signature for batches runs each of its dispatches in turn:
/// the `i`th sets the push constants that its `stride` bytes begin with, then runs the
/// groups that the three words behind them say, along x, y and z in this order.
#[verifier::rlimit(40)]
pub proof fn batch_runs_the_groups_of_each_dispatch(
    tables: RecordTables,
    inputs: RecordInputs,
    textures: Layouts,
    st: RecordView,
    label: Option<&'static str>,
    arg_data: Vec<u8>,
    count: u32,
    i: int,
)
    requires
        inputs.push_layout.wf(),
        tables.devices@.contains_key(inputs.device_handle),
        !tables.devices@[inputs.device_handle].has_batch_dispatch_signature,
        0 <= i < count,
        (count - 1) * inputs.push_layout.stride + inputs.push_layout.size + 12 <= arg_data@.len()
            <= usize::MAX,
    ensures
        ({
            let cmd = GpuCommand::DispatchBatch { label, arg_data, count };
            let added = added_calls(tables, inputs, textures, st, cmd);
            let at = i * inputs.push_layout.stride;
            let words = at + inputs.push_layout.size;
            &&& recorded(tables, inputs, textures, st, cmd) matches Ok(to)
            &&& to.state.calls == st.calls + added
            &&& to.textures == textures
            &&& added.len() == 2 * count
            &&& executions(added) == count
            &&& added[2 * i] matches Call::SetRootConstants { first_byte, dwords } && first_byte
                == at && 4 * dwords == inputs.push_layout.size
            &&& added[2 * i + 1] matches Call::Dispatch { x, y, z } && x == spec_u32_from_le_bytes(
                arg_data@.subrange(words, words + 4),
            ) && y == spec_u32_from_le_bytes(arg_data@.subrange(words + 4, words + 8)) && z
                == spec_u32_from_le_bytes(arg_data@.subrange(words + 8, words + 12))
        }),
{
    let cmd = GpuCommand::DispatchBatch { label, arg_data, count };
    let added = added_calls(tables, inputs, textures, st, cmd);
    let to = recorded(tables, inputs, textures, st, cmd)->Ok_0;
    assert(to.state.calls =~= st.calls + added);
    let unrolled = batch_calls(inputs.push_layout, arg_data@, count as int);
    assert(added =~= unrolled);
    lemma_batch(inputs.push_layout, arg_data@, count as int, i);
    let stride = inputs.push_layout.stride as int;
    assert(0 <= i * stride <= (count - 1) * stride) by (nonlinear_arith)
        requires
            0 <= i <= count - 1,
            0 <= stride,
    ;
}

proof fn lemma_batch(layout: PushLayoutInfo, args: Seq<u8>, count: int, i: int)
    requires
        0 <= i < count,
    ensures
        batch_calls(layout, args, count).len() == 2 * count,
        executions(batch_calls(layout, args, count)) == count,
        batch_calls(layout, args, count)[2 * i] == batch_entry(layout, args, i)[0],
        batch_calls(layout, args, count)[2 * i + 1] == batch_entry(layout, args, i)[1],
    decreases count,
{
    let entry = batch_entry(layout, args, count - 1);
    assert(entry =~= seq![entry[0], entry[1]]);
    lemma_executions_of_two(entry[0], entry[1]);
    lemma_executions_of_one(entry[0]);
    lemma_executions_of_one(entry[1]);
    lemma_executions_of_both(batch_calls(layout, args, count - 1), entry);
    if count == 1 {
        assert(batch_calls(layout, args, 0) =~= Seq::<Call>::empty());
    } else if i < count - 1 {
        lemma_batch(layout, args, count - 1, i);
    } else {
        lemma_batch(layout, args, count - 1, 0);
    }
}

/// A batch on a device with a signature for batches uploads all of its argument bytes and
/// executes as many of them as the command says, from the first on.
pub proof fn batch_is_executed_from_its_arguments(
    tables: RecordTables,
    inputs: RecordInputs,
    textures: Layouts,
    st: RecordView,
    label: Option<&'static str>,
    arg_data: Vec<u8>,
    count: u32,
)
    requires
        tables.devices@.contains_key(inputs.device_handle),
        tables.devices@[inputs.device_handle].has_batch_dispatch_signature,
        arg_data@.len() <= u64::MAX,
    ensures
        ({
            let cmd = GpuCommand::DispatchBatch { label, arg_data, count };
            let added = added_calls(tables, inputs, textures, st, cmd);
            &&& recorded(tables, inputs, textures, st, cmd) matches Ok(to)
            &&& to.state.calls == st.calls + added
            &&& to.state.argument_buffers == st.argument_buffers + 1
            &&& added.len() == 2
            &&& added[0] matches Call::UploadArguments { size } && size == arg_data@.len()
            &&& added[1] matches Call::ExecuteIndirect {
                signature,
                count: executed,
                arguments,
                offset,
            } && signature is BatchDispatch && executed == count && arguments is UploadedArguments
                && offset == 0
        }),
{
    let cmd = GpuCommand::DispatchBatch { label, arg_data, count };
    let added = added_calls(tables, inputs, textures, st, cmd);
    let to = recorded(tables, inputs, textures, st, cmd)->Ok_0;
    assert(to.state.calls =~= st.calls + added);
}

/// A barrier that orders accesses to a resource: one on it, or one on all memory.
pub open spec fn orders(call: Call, resource: u64) -> bool {
    call matches Call::QueueBarrier(b) && match b {
        Barrier::Global(_) => true,
        Barrier::Buffer(b) => b.resource == resource,
        Barrier::Texture(b) => b.resource == resource,
    }
}

/// The stages and accesses that a barrier lets follow it.
pub open spec fn lets_follow(call: Call, sync: u32, access: u32) -> bool {
    call matches Call::QueueBarrier(b) && match b {
        Barrier::Global(b) => b.sync_after == sync && b.access_after == access,
        Barrier::Buffer(b) => b.sync_after == sync && b.access_after == access,
        Barrier::Texture(b) => b.sync_after == sync && b.access_after == access,
    }
}

/// The last barrier on a resource before a call lets a use of it follow, and was issued.
pub open spec fn opened_for(calls: Seq<Call>, n: int, resource: u64, sync: u32, access: u32) -> bool {
    exists|i: int|
        {
            &&& 0 <= i < n
            &&& orders(#[trigger] calls[i], resource)
            &&& lets_follow(calls[i], sync, access)
            &&& forall|j: int| i < j < n ==> !orders(#[trigger] calls[j], resource)
            &&& exists|j: int| i < j < n && #[trigger] calls[j] is IssueBarriers
        }
}

/// An indirect dispatch runs once, with the words that lie in the buffer of the command from
/// its offset on; the buffer is then open for reading arguments, and open for shaders again
/// after it. It is refused exactly where the device, the buffer or the signature is missing.
pub proof fn indirect_dispatch_reads_its_buffer(
    tables: RecordTables,
    inputs: RecordInputs,
    textures: Layouts,
    st: RecordView,
    label: Option<&'static str>,
    buffer: u64,
    offset: u64,
)
    ensures
        ({
            let cmd = GpuCommand::DispatchIndirect { label, buffer, offset };
            let added = added_calls(tables, inputs, textures, st, cmd);
            let resource = tables.buffers@[buffer].resource;
            &&& recorded(tables, inputs, textures, st, cmd) is Ok <==> tables.devices@.contains_key(
                inputs.device_handle,
            ) && tables.buffers@.contains_key(buffer)
                && tables.devices@[inputs.device_handle].has_dispatch_indirect_signature
            &&& recorded(tables, inputs, textures, st, cmd) matches Ok(to) ==> {
                &&& to.state.calls == st.calls + added
                &&& exists|n: int|
                    {
                        &&& 0 <= n < added.len()
                        &&& #[trigger] added[n] == (Call::ExecuteIndirect {
                            signature: IndirectSignature::Dispatch,
                            count: 1,
                            arguments: ArgumentSource::Resource(resource),
                            offset,
                        })
                        &&& forall|m: int|
                            0 <= m < added.len() && m != n ==> !(#[trigger] added[m]
                                is ExecuteIndirect) && !(added[m] is Dispatch)
                        &&& opened_for(
                            added,
                            n,
                            resource,
                            SYNC_EXECUTE_INDIRECT,
                            ACCESS_INDIRECT_ARGUMENT,
                        )
                    }
                &&& opened_for(
                    added,
                    added.len() as int,
                    resource,
                    SYNC_COMPUTE_SHADING,
                    ACCESS_UNORDERED_ACCESS,
                )
            }
        }),
{
    let cmd = GpuCommand::DispatchIndirect { label, buffer, offset };
    if recorded(tables, inputs, textures, st, cmd) is Ok {
        let to = recorded(tables, inputs, textures, st, cmd)->Ok_0;
        let added = added_calls(tables, inputs, textures, st, cmd);
        let resource = tables.buffers@[buffer].resource;
        assert(to.state.calls =~= st.calls + added);
        assert(added =~= dispatch_indirect_calls(
            inputs.use_global_buffer_barriers,
            inputs.profiling,
            st.dispatch_idx,
            resource,
            offset,
        ));
        let n: int = if inputs.profiling {
            3
        } else {
            2
        };
        assert(added.len() == n + if inputs.profiling {
            4int
        } else {
            3
        });
        let last = added.len() - 2;
        assert(added[n] is ExecuteIndirect);
        assert(orders(added[0], resource) && added[1] is IssueBarriers);
        assert(orders(added[last], resource) && added[last + 1] is IssueBarriers);
        assert(forall|j: int| 0 < j < n ==> !orders(#[trigger] added[j], resource));
        assert(lets_follow(added[0], SYNC_EXECUTE_INDIRECT, ACCESS_INDIRECT_ARGUMENT));
        assert(opened_for(added, n, resource, SYNC_EXECUTE_INDIRECT, ACCESS_INDIRECT_ARGUMENT));
        assert(lets_follow(added[last], SYNC_COMPUTE_SHADING, ACCESS_UNORDERED_ACCESS));
        assert(opened_for(
            added,
            added.len() as int,
            resource,
            SYNC_COMPUTE_SHADING,
            ACCESS_UNORDERED_ACCESS,
        ));
    }
}

/// Setting a pipeline that is known puts its own root signature and state on the list, and
/// later binds are held against it; an unknown one leaves the list as it was.
pub proof fn pipeline_is_set(
    tables: RecordTables,
    inputs: RecordInputs,
    textures: Layouts,
    st: RecordView,
    handle: u64,
)
    ensures
        ({
            let cmd = GpuCommand::SetPipeline(handle);
            let added = added_calls(tables, inputs, textures, st, cmd);
            &&& recorded(tables, inputs, textures, st, cmd) matches Ok(to)
            &&& to.state.calls == st.calls + added
            &&& to.state.current_compute_pipeline == Some(handle)
            &&& to.textures == textures
            &&& if tables.compute_pipelines@.contains_key(handle) {
                &&& added.len() == 2
                &&& added.contains(Call::SetComputeRootSignature { pipeline: handle })
                &&& added.contains(Call::SetPipelineState { pipeline: handle })
            } else {
                added.len() == 0
            }
        }),
{
    let cmd = GpuCommand::SetPipeline(handle);
    let added = added_calls(tables, inputs, textures, st, cmd);
    let to = recorded(tables, inputs, textures, st, cmd)->Ok_0;
    assert(to.state.calls =~= st.calls + added);
    if tables.compute_pipelines@.contains_key(handle) {
        assert(added[0] == Call::SetComputeRootSignature { pipeline: handle });
        assert(added[1] == Call::SetPipelineState { pipeline: handle });
    }
}

/// A bind hands over the base of its indices in the frame table and its own user words, and
/// leaves those of earlier binds as they are. Where the current pipeline is known the bind
/// is held against it first.
pub proof fn bind_hands_over_its_words(
    tables: RecordTables,
    inputs: RecordInputs,
    textures: Layouts,
    st: RecordView,
    indices: Vec<u32>,
    user: Vec<u32>,
    frame_table_base: u32,
)
    requires
        st.constants.len() + user@.len() <= usize::MAX,
    ensures
        ({
            let cmd = GpuCommand::BindResourcesRaw { indices, user, frame_table_base };
            let added = added_calls(tables, inputs, textures, st, cmd);
            let known = st.current_compute_pipeline matches Some(p)
                && tables.compute_pipelines@.contains_key(p);
            &&& recorded(tables, inputs, textures, st, cmd) matches Ok(to)
            &&& to.state.calls == st.calls + added
            &&& to.state.constants.take(st.constants.len() as int) == st.constants
            &&& added.len() == if known {
                2int
            } else {
                1
            }
            &&& known ==> added[0] == (Call::ValidateBindings {
                pipeline: st.current_compute_pipeline->0,
            })
            &&& added.last() matches Call::BindFrameTable { base, user_first, user_count } && base
                == frame_table_base && to.state.constants.subrange(
                user_first as int,
                user_first + user_count,
            ) == user@
        }),
{
    let cmd = GpuCommand::BindResourcesRaw { indices, user, frame_table_base };
    let added = added_calls(tables, inputs, textures, st, cmd);
    let to = recorded(tables, inputs, textures, st, cmd)->Ok_0;
    assert(to.state.calls =~= st.calls + added);
    assert(to.state.constants.take(st.constants.len() as int) =~= st.constants);
    assert(to.state.constants.subrange(
        st.constants.len() as int,
        (st.constants.len() + user@.len()) as int,
    ) =~= user@);
}

/// A write to a buffer that the host can map is a write of all its bytes at its offset, and
/// nothing else.
pub proof fn mapped_write_writes_its_bytes(
    tables: RecordTables,
    inputs: RecordInputs,
    textures: Layouts,
    st: RecordView,
    buffer: u64,
    offset: u64,
    data: Vec<u8>,
)
    requires
        data@.len() <= u64::MAX,
        tables.buffers@.contains_key(buffer),
        !tables.buffers@[buffer].is_storage,
    ensures
        ({
            let cmd = GpuCommand::WriteBuffer { buffer, offset, data };
            let added = added_calls(tables, inputs, textures, st, cmd);
            &&& recorded(tables, inputs, textures, st, cmd) matches Ok(to)
            &&& to.state.calls == st.calls + added
            &&& to.state.belt_idx == st.belt_idx
            &&& added.len() == 1
            &&& added[0] matches Call::WriteMapped { resource, offset: at, size } && resource
                == tables.buffers@[buffer].resource && at == offset && size == data@.len()
        }),
{
    let cmd = GpuCommand::WriteBuffer { buffer, offset, data };
    let added = added_calls(tables, inputs, textures, st, cmd);
    let to = recorded(tables, inputs, textures, st, cmd)->Ok_0;
    assert(to.state.calls =~= st.calls + added);
}

/// A recorded upload is the next one that was staged, and leaves its texture in the layout
/// that was staged with it; every other texture keeps its layout.
pub proof fn uploads_are_recorded_in_turn(
    tables: RecordTables,
    inputs: RecordInputs,
    textures: Layouts,
    st: RecordView,
    cmd: GpuCommand,
    other: u64,
)
    requires
        cmd is WriteTexture || cmd is WriteTextureRegion || cmd is CopyBufferToTexture,
        0 <= st.texture_upload_idx <= usize::MAX,
    ensures
        ({
            let added = added_calls(tables, inputs, textures, st, cmd);
            let upload = inputs.staged_texture_uploads@[st.texture_upload_idx];
            &&& recorded(tables, inputs, textures, st, cmd) is Ok <==> st.texture_upload_idx
                < inputs.staged_texture_uploads@.len()
            &&& recorded(tables, inputs, textures, st, cmd) matches Ok(to) ==> {
                &&& to.state.calls == st.calls + added
                &&& to.state.texture_upload_idx == st.texture_upload_idx + 1
                &&& added.len() == 1
                &&& added[0] matches Call::StagedTextureUpload { upload: u } && u
                    == st.texture_upload_idx
                &&& textures.contains_key(upload.texture) ==> to.textures[upload.texture]
                    == (TextureState {
                    last_layout: upload.layout_after,
                    ..textures[upload.texture]
                })
                &&& other != upload.texture ==> to.textures.contains_key(other)
                    == textures.contains_key(other) && to.textures[other] == textures[other]
            }
        }),
{
    if recorded(tables, inputs, textures, st, cmd) is Ok {
        let added = added_calls(tables, inputs, textures, st, cmd);
        let to = recorded(tables, inputs, textures, st, cmd)->Ok_0;
        assert(to.state.calls =~= st.calls + added);
    }
}

/// A barrier on a texture.
pub open spec fn on_texture(call: Call, resource: u64) -> bool {
    call matches Call::QueueBarrier(b) && (b matches Barrier::Texture(t) && t.resource == resource)
}

/// A texture is in a layout at a call: the last barrier on it before the call leads there.
pub open spec fn in_layout_at(calls: Seq<Call>, n: int, resource: u64, layout: u32) -> bool {
    exists|i: int|
        {
            &&& 0 <= i < n
            &&& on_texture(#[trigger] calls[i], resource)
            &&& calls[i]->QueueBarrier_0->Texture_0.layout_after == layout
            &&& forall|j: int| i < j < n ==> !on_texture(#[trigger] calls[j], resource)
        }
}

/// The first barrier on a texture takes it up in a layout.
pub open spec fn taken_up_in(calls: Seq<Call>, resource: u64, layout: u32) -> bool {
    exists|i: int|
        {
            &&& 0 <= i < calls.len()
            &&& on_texture(#[trigger] calls[i], resource)
            &&& calls[i]->QueueBarrier_0->Texture_0.layout_before == layout
            &&& forall|j: int| 0 <= j < i ==> !on_texture(#[trigger] calls[j], resource)
        }
}

/// The layout that a texture is found in on a direct queue, where it was left in `layout`.
pub open spec fn found_in(layout: u32) -> u32 {
    if layout == LAYOUT_UNORDERED_ACCESS {
        LAYOUT_DIRECT_QUEUE_UNORDERED_ACCESS
    } else if layout == LAYOUT_SHADER_RESOURCE {
        LAYOUT_DIRECT_QUEUE_SHADER_RESOURCE
    } else {
        layout
    }
}

/// The only copy of whole resources on a list is from one resource to another.
pub open spec fn copies_once(calls: Seq<Call>, n: int, src: u64, dst: u64) -> bool {
    &&& 0 <= n < calls.len()
    &&& calls[n] == (Call::CopyResource { dst, src })
    &&& forall|m: int| 0 <= m < calls.len() && m != n ==> !(#[trigger] calls[m] is CopyResource)
}

/// A copy of a texture copies the resource of the source to that of the destination, once,
/// while the one is in the layout of a copy source and the other in that of a destination.
/// Each is taken up in the layout that it was left in; what is noted as its layout is the
/// one that the list leaves it in, and shaders can use it there. No other texture is noted
/// otherwise. The copy is refused exactly where a texture is unknown.
pub proof fn texture_copy_is_recorded(
    tables: RecordTables,
    inputs: RecordInputs,
    textures: Layouts,
    st: RecordView,
    src: u64,
    dst: u64,
    other: u64,
)
    requires
        textures.contains_key(src) && textures.contains_key(dst) ==> textures[src].resource
            != textures[dst].resource,
    ensures
        ({
            let cmd = GpuCommand::CopyTexture { src, dst };
            let added = added_calls(tables, inputs, textures, st, cmd);
            let s = textures[src];
            let d = textures[dst];
            &&& recorded(tables, inputs, textures, st, cmd) is Ok <==> textures.contains_key(src)
                && textures.contains_key(dst)
            &&& recorded(tables, inputs, textures, st, cmd) matches Ok(to) ==> {
                &&& to.state.calls == st.calls + added
                &&& exists|n: int|
                    {
                        &&& #[trigger] copies_once(added, n, s.resource, d.resource)
                        &&& in_layout_at(added, n, s.resource, LAYOUT_COPY_SOURCE)
                        &&& in_layout_at(added, n, d.resource, LAYOUT_COPY_DEST)
                    }
                &&& taken_up_in(added, s.resource, found_in(s.last_layout))
                &&& taken_up_in(added, d.resource, found_in(d.last_layout))
                &&& in_layout_at(
                    added,
                    added.len() as int,
                    s.resource,
                    to.textures[src].last_layout,
                )
                &&& in_layout_at(
                    added,
                    added.len() as int,
                    d.resource,
                    to.textures[dst].last_layout,
                )
                &&& to.textures[src].last_layout == if s.is_storage {
                    LAYOUT_DIRECT_QUEUE_UNORDERED_ACCESS
                } else {
                    LAYOUT_DIRECT_QUEUE_SHADER_RESOURCE
                }
                &&& to.textures[dst].last_layout == if d.is_storage {
                    LAYOUT_DIRECT_QUEUE_UNORDERED_ACCESS
                } else {
                    LAYOUT_DIRECT_QUEUE_SHADER_RESOURCE
                }
                &&& other != src && other != dst ==> to.textures[other] == textures[other]
            }
        }),
{
    let cmd = GpuCommand::CopyTexture { src, dst };
    if recorded(tables, inputs, textures, st, cmd) is Ok {
        let to = recorded(tables, inputs, textures, st, cmd)->Ok_0;
        let added = added_calls(tables, inputs, textures, st, cmd);
        let s = textures[src];
        let d = textures[dst];
        assert(to.state.calls =~= st.calls + added);
        let calls = copy_texture_calls(s, d);
        assert(added =~= calls);
        assert(calls.len() == 7);
        assert(on_texture(calls[0], s.resource) && !on_texture(calls[0], d.resource));
        assert(on_texture(calls[1], d.resource) && !on_texture(calls[1], s.resource));
        assert(calls[2] is IssueBarriers && calls[3] is CopyResource && calls[6] is IssueBarriers);
        assert(on_texture(calls[4], s.resource) && !on_texture(calls[4], d.resource));
        assert(on_texture(calls[5], d.resource) && !on_texture(calls[5], s.resource));
        assert(copies_once(added, 3, s.resource, d.resource));
    }
}

/// A copy of a render target copies its texture into the resource of the destination, once,
/// while the one is in the layout of a copy source, in which rendering leaves it, and the
/// other in that of a destination. The target can then be rendered to again; what is noted
/// of the destination is the layout that the list leaves it in, and shaders can use it there.
pub proof fn render_target_copy_is_recorded(
    tables: RecordTables,
    inputs: RecordInputs,
    textures: Layouts,
    st: RecordView,
    src: u64,
    dst: u64,
    other: u64,
)
    requires
        tables.render_targets@.contains_key(src) && textures.contains_key(dst)
            ==> tables.render_targets@[src].texture != textures[dst].resource,
    ensures
        ({
            let cmd = GpuCommand::CopyRenderTarget { src, dst };
            let added = added_calls(tables, inputs, textures, st, cmd);
            let s = tables.render_targets@[src].texture;
            let d = textures[dst];
            &&& recorded(tables, inputs, textures, st, cmd) is Ok
                <==> tables.render_targets@.contains_key(src) && textures.contains_key(dst)
            &&& recorded(tables, inputs, textures, st, cmd) matches Ok(to) ==> {
                &&& to.state.calls == st.calls + added
                &&& exists|n: int|
                    {
                        &&& #[trigger] copies_once(added, n, s, d.resource)
                        &&& in_layout_at(added, n, s, LAYOUT_COPY_SOURCE)
                        &&& in_layout_at(added, n, d.resource, LAYOUT_COPY_DEST)
                    }
                &&& taken_up_in(added, s, LAYOUT_COPY_SOURCE)
                &&& taken_up_in(added, d.resource, found_in(d.last_layout))
                &&& in_layout_at(added, added.len() as int, s, LAYOUT_RENDER_TARGET)
                &&& in_layout_at(
                    added,
                    added.len() as int,
                    d.resource,
                    to.textures[dst].last_layout,
                )
                &&& to.textures[dst].last_layout == if d.is_storage {
                    LAYOUT_DIRECT_QUEUE_UNORDERED_ACCESS
                } else {
                    LAYOUT_DIRECT_QUEUE_SHADER_RESOURCE
                }
                &&& other != dst ==> to.textures[other] == textures[other]
            }
        }),
{
    let cmd = GpuCommand::CopyRenderTarget { src, dst };
    if recorded(tables, inputs, textures, st, cmd) is Ok {
        let to = recorded(tables, inputs, textures, st, cmd)->Ok_0;
        let added = added_calls(tables, inputs, textures, st, cmd);
        let s = tables.render_targets@[src].texture;
        let d = textures[dst];
        assert(to.state.calls =~= st.calls + added);
        let calls = copy_render_target_calls(s, d);
        assert(added =~= calls);
        assert(calls.len() == 7);
        assert(on_texture(calls[0], s) && !on_texture(calls[0], d.resource));
        assert(on_texture(calls[1], d.resource) && !on_texture(calls[1], s));
        assert(calls[2] is IssueBarriers && calls[3] is CopyResource && calls[6] is IssueBarriers);
        assert(on_texture(calls[4], s) && !on_texture(calls[4], d.resource));
        assert(on_texture(calls[5], d.resource) && !on_texture(calls[5], s));
        assert(copies_once(added, 3, s, d.resource));
    }
}

/// A copy of a texture for reading back names the texture and the read-back buffer of the
/// command, and notes the layout that the command says.
pub proof fn readback_copy_is_recorded(
    tables: RecordTables,
    inputs: RecordInputs,
    textures: Layouts,
    st: RecordView,
    src: u64,
    dst: u64,
    src_layout_after: u32,
    other: u64,
)
    ensures
        ({
            let cmd = GpuCommand::CopyTextureToReadback { src, dst, src_layout_after };
            let added = added_calls(tables, inputs, textures, st, cmd);
            &&& recorded(tables, inputs, textures, st, cmd) matches Ok(to)
            &&& to.state.calls == st.calls + added
            &&& added.len() == 1
            &&& added[0] matches Call::CopyTextureToReadback { src: from, dst: into } && from == src
                && into == dst
            &&& textures.contains_key(src) ==> to.textures[src].last_layout == src_layout_after
            &&& other != src ==> to.textures[other] == textures[other]
        }),
{
    let cmd = GpuCommand::CopyTextureToReadback { src, dst, src_layout_after };
    let added = added_calls(tables, inputs, textures, st, cmd);
    let to = recorded(tables, inputs, textures, st, cmd)->Ok_0;
    assert(to.state.calls =~= st.calls + added);
}

/// A copy between buffers is recorded exactly where both are known, the bytes lie in both,
/// and a source that the host writes has the upload buffer it is written through.
pub proof fn buffer_copy_is_refused_exactly_outside(
    tables: RecordTables,
    inputs: RecordInputs,
    textures: Layouts,
    st: RecordView,
    src: u64,
    src_offset: u64,
    dst: u64,
    dst_offset: u64,
    size: u64,
)
    requires
        tables.buffers@.contains_key(src) ==> tables.buffers@[src].size < u64::MAX,
        tables.buffers@.contains_key(dst) ==> tables.buffers@[dst].size < u64::MAX,
    ensures
        recorded(
            tables,
            inputs,
            textures,
            st,
            GpuCommand::CopyBuffer { src, src_offset, dst, dst_offset, size },
        ) is Ok <==> {
            &&& tables.buffers@.contains_key(src)
            &&& tables.buffers@.contains_key(dst)
            &&& src_offset + size <= tables.buffers@[src].size
            &&& dst_offset + size <= tables.buffers@[dst].size
            &&& tables.buffers@[src].flags.cpu_writable ==> tables.buffers@[src].upload_buffer
                is Some
        },
{
}

/// The bytes that a clear zeroes: as many as it says from its offset on, and all up to the
/// end of the buffer where it says none. Every other byte stays as it was.
pub proof fn clear_zeroes_its_bytes(
    tables: RecordTables,
    inputs: RecordInputs,
    textures: Layouts,
    st: RecordView,
    buffer: u64,
    offset: u64,
    size: u64,
    memory: Memory,
    other: u64,
    i: int,
)
    requires
        tables.buffers@.contains_key(buffer),
        tables.devices@.contains_key(inputs.device_handle),
        ({
            let b = tables.buffers@[buffer];
            let zero = tables.devices@[inputs.device_handle].zero_buffer;
            &&& memory.contains_key(b.resource)
            &&& b.size <= memory[b.resource].len()
            &&& offset + size <= memory[b.resource].len() <= u64::MAX
            &&& b.is_storage ==> super::memory::is_zero_buffer(memory, zero) && b.resource != zero
        }),
    ensures
        ({
            let cmd = GpuCommand::ClearBuffer { buffer, offset, size };
            let b = tables.buffers@[buffer];
            let after = run_calls(memory, added_calls(tables, inputs, textures, st, cmd));
            let end = if size != 0 {
                offset + size
            } else {
                b.size as int
            };
            &&& recorded(tables, inputs, textures, st, cmd) is Ok
            &&& after[b.resource].len() == memory[b.resource].len()
            &&& 0 <= i < memory[b.resource].len() ==> after[b.resource][i] == if offset <= i < end {
                0
            } else {
                memory[b.resource][i]
            }
            &&& other != b.resource ==> after[other] == memory[other]
        }),
{
    super::record_laws::recorded_clear_zeroes_the_range(
        tables,
        inputs,
        textures,
        st,
        buffer,
        offset,
        size,
        memory,
    );
}

/// A barrier on a buffer goes between two uses: what was done before it, and what is done
/// after it.
pub open spec fn separates(barrier: Barrier, b: BufferState, usage: BarrierUsage) -> bool {
    barrier matches Barrier::Buffer(x) && {
        &&& x.resource == b.resource
        &&& x.offset == 0
        &&& x.size == u64::MAX
        &&& x.sync_before == buffer_sync(usage.src)
        &&& x.sync_after == buffer_sync(usage.dst)
        &&& x.access_before == buffer_access(usage.src, b.is_storage)
        &&& x.access_after == buffer_access(usage.dst, b.is_storage)
    }
}

proof fn lemma_buffer_entry(
    buffers: Map<u64, BufferState>,
    entries: Seq<(u64, BarrierUsage)>,
    e: int,
) -> (k: int)
    requires
        0 <= e < entries.len(),
        buffers.contains_key(entries[e].0),
    ensures
        0 <= k < buffer_entry_barriers(buffers, entries).len(),
        separates(
            buffer_entry_barriers(buffers, entries)[k],
            buffers[entries[e].0],
            entries[e].1,
        ),
    decreases entries.len(),
{
    if e == entries.len() - 1 {
        buffer_entry_barriers(buffers, entries).len() - 1
    } else {
        assert(entries.drop_last()[e] == entries[e]);
        lemma_buffer_entry(buffers, entries.drop_last(), e)
    }
}

/// A texture is led from the layout that it was left in to one for its next use.
pub open spec fn leads_on(barrier: Barrier, t: TextureState, usage: BarrierUsage) -> bool {
    let writes = usage.dst.access is Write;
    barrier matches Barrier::Texture(x) && {
        &&& x.resource == t.resource
        &&& x.layout_before == found_in(t.last_layout)
        &&& usage.dst.kinds.transfer && writes ==> x.layout_after == LAYOUT_COPY_DEST
            && x.access_after == ACCESS_COPY_DEST && x.sync_after == SYNC_COPY
        &&& usage.dst.kinds.transfer && !writes ==> x.layout_after == LAYOUT_COPY_SOURCE
            && x.access_after == ACCESS_COPY_SOURCE && x.sync_after == SYNC_COPY
        &&& !usage.dst.kinds.transfer && usage.dst.kinds.compute ==> x.sync_after
            == SYNC_COMPUTE_SHADING && x.layout_after == if writes && t.is_storage {
            LAYOUT_DIRECT_QUEUE_UNORDERED_ACCESS
        } else {
            LAYOUT_DIRECT_QUEUE_SHADER_RESOURCE
        }
        &&& !usage.dst.kinds.transfer && !usage.dst.kinds.compute && usage.dst.kinds.render
            ==> x.layout_after == LAYOUT_RENDER_TARGET
    }
}

proof fn lemma_texture_entry(textures: Layouts, entries: Seq<(u64, BarrierUsage)>, e: int) -> (k:
    int)
    requires
        0 <= e < entries.len(),
        textures.contains_key(entries[e].0),
        forall|a: int, b: int|
            0 <= a < b < entries.len() ==> (#[trigger] entries[a]).0 != (#[trigger] entries[b]).0,
    ensures
        0 <= k < texture_entry_barriers(textures, entries).len(),
        leads_on(
            texture_entry_barriers(textures, entries)[k],
            textures[entries[e].0],
            entries[e].1,
        ),
        relayout(textures, entries).contains_key(entries[e].0),
        relayout(textures, entries)[entries[e].0] == (TextureState {
            last_layout: texture_entry_barriers(textures, entries)[k]->Texture_0.layout_after,
            ..textures[entries[e].0]
        }),
    decreases entries.len(),
{
    let rest = entries.drop_last();
    lemma_relayout_touches_entries(textures, rest, entries.last().0);
    if e == entries.len() - 1 {
        assert(forall|a: int| 0 <= a < rest.len() ==> (#[trigger] rest[a]).0 != entries[e].0) by {
            assert forall|a: int| 0 <= a < rest.len() implies (#[trigger] rest[a]).0
                != entries[e].0 by {
                assert(rest[a] == entries[a]);
            }
        }
        texture_entry_barriers(textures, entries).len() - 1
    } else {
        assert(rest[e] == entries[e]);
        assert forall|a: int, b: int| 0 <= a < b < rest.len() implies (#[trigger] rest[a]).0 != (
        #[trigger] rest[b]).0 by {
            assert(rest[a] == entries[a] && rest[b] == entries[b]);
        }
        assert(entries[e].0 != entries[entries.len() - 1].0);
        lemma_texture_entry(textures, rest, e)
    }
}

/// Layouts change only for the textures of the entries.
proof fn lemma_relayout_touches_entries(
    textures: Layouts,
    entries: Seq<(u64, BarrierUsage)>,
    handle: u64,
)
    ensures
        relayout(textures, entries).contains_key(handle) == textures.contains_key(handle),
        relayout(textures, entries)[handle].is_storage == textures[handle].is_storage
            || !textures.contains_key(handle),
        (forall|a: int| 0 <= a < entries.len() ==> (#[trigger] entries[a]).0 != handle)
            ==> relayout(textures, entries)[handle] == textures[handle],
    decreases entries.len(),
{
    if entries.len() > 0 {
        lemma_relayout_touches_entries(textures, entries.drop_last(), handle);
        lemma_relayout_touches_entries(textures, entries.drop_last(), entries.last().0);
        if forall|a: int| 0 <= a < entries.len() ==> (#[trigger] entries[a]).0 != handle {
            assert forall|a: int| 0 <= a < entries.drop_last().len() implies (
            #[trigger] entries.drop_last()[a]).0 != handle by {
                assert(entries[a] == entries.drop_last()[a]);
            }
            assert(entries[entries.len() - 1].0 != handle);
        }
    }
}

/// A resource barrier puts a barrier between the two uses of each known buffer that it
/// names, over the whole resource; where buffers have no barriers of their own it puts one
/// on all memory for each.
pub proof fn resource_barrier_separates_uses_of_buffers(
    tables: RecordTables,
    inputs: RecordInputs,
    textures: Layouts,
    st: RecordView,
    buffers: Vec<(u64, BarrierUsage)>,
    entries: Vec<(u64, BarrierUsage)>,
    e: int,
)
    requires
        0 <= e < buffers@.len(),
        inputs.use_global_buffer_barriers || tables.buffers@.contains_key(buffers@[e].0),
    ensures
        ({
            let cmd = GpuCommand::ResourceBarrier { buffers, textures: entries };
            let added = added_calls(tables, inputs, textures, st, cmd);
            let b = tables.buffers@[buffers@[e].0];
            let storage = tables.buffers@.contains_key(buffers@[e].0) && b.is_storage;
            &&& recorded(tables, inputs, textures, st, cmd) matches Ok(to)
            &&& to.state.calls == st.calls + added
            &&& exists|k: int|
                {
                    &&& 0 <= k < added.len() - 1
                    &&& #[trigger] added[k] matches Call::QueueBarrier(x)
                    &&& !inputs.use_global_buffer_barriers ==> separates(x, b, buffers@[e].1)
                    &&& inputs.use_global_buffer_barriers ==> x is Global
                    &&& inputs.use_global_buffer_barriers && storage ==> x->Global_0.sync_before
                        == SYNC_ALL && x->Global_0.sync_after == SYNC_ALL
                        && x->Global_0.access_before == ACCESS_COMMON && x->Global_0.access_after
                        == ACCESS_COMMON
                    &&& inputs.use_global_buffer_barriers && !storage ==> x->Global_0.sync_before
                        == buffer_sync(buffers@[e].1.src) && x->Global_0.sync_after == buffer_sync(
                        buffers@[e].1.dst,
                    ) && x->Global_0.access_before == buffer_access(buffers@[e].1.src, false)
                }
        }),
{
    let cmd = GpuCommand::ResourceBarrier { buffers, textures: entries };
    let added = added_calls(tables, inputs, textures, st, cmd);
    let to = recorded(tables, inputs, textures, st, cmd)->Ok_0;
    assert(to.state.calls =~= st.calls + added);
    let tex = texture_entry_barriers(textures, entries@);
    if inputs.use_global_buffer_barriers {
        let all = global_entry_calls(tables.buffers@, buffers@);
        assert(added =~= all + issue(tex));
        lemma_global_entry(tables.buffers@, buffers@, e);
        assert(added[2 * e] == all[2 * e]);
    } else {
        let all = buffer_entry_barriers(tables.buffers@, buffers@);
        let k = lemma_buffer_entry(tables.buffers@, buffers@, e);
        assert(added =~= issue(all + tex));
        assert(added[k] == Call::QueueBarrier((all + tex)[k]));
    }
}

proof fn lemma_global_entry(
    buffers: Map<u64, BufferState>,
    entries: Seq<(u64, BarrierUsage)>,
    e: int,
)
    requires
        0 <= e < entries.len(),
    ensures
        global_entry_calls(buffers, entries).len() == 2 * entries.len(),
        global_entry_calls(buffers, entries)[2 * e] == Call::QueueBarrier(
            Barrier::Global(global_entry_barrier(buffers, entries[e])),
        ),
    decreases entries.len(),
{
    let rest = entries.drop_last();
    if rest.len() == 0 {
        assert(global_entry_calls(buffers, rest) =~= Seq::<Call>::empty());
    } else if e < rest.len() {
        lemma_global_entry(buffers, rest, e);
        assert(rest[e] == entries[e]);
    } else {
        lemma_global_entry(buffers, rest, 0);
    }
}

/// A resource barrier leads each known texture that it names from the layout it was left in
/// to one in which its next use can be made, and that layout is what is noted of it. Every
/// other texture is noted as before.
pub proof fn resource_barrier_leads_textures_on(
    tables: RecordTables,
    inputs: RecordInputs,
    textures: Layouts,
    st: RecordView,
    buffers: Vec<(u64, BarrierUsage)>,
    entries: Vec<(u64, BarrierUsage)>,
    e: int,
    other: u64,
)
    requires
        0 <= e < entries@.len(),
        textures.contains_key(entries@[e].0),
        forall|a: int, b: int|
            0 <= a < b < entries@.len() ==> (#[trigger] entries@[a]).0 != (#[trigger] entries@[b]).0,
        forall|a: int| 0 <= a < entries@.len() ==> (#[trigger] entries@[a]).0 != other,
    ensures
        ({
            let cmd = GpuCommand::ResourceBarrier { buffers, textures: entries };
            let added = added_calls(tables, inputs, textures, st, cmd);
            let h = entries@[e].0;
            &&& recorded(tables, inputs, textures, st, cmd) matches Ok(to)
            &&& exists|k: int|
                {
                    &&& 0 <= k < added.len() - 1
                    &&& #[trigger] added[k] matches Call::QueueBarrier(x)
                    &&& leads_on(x, textures[h], entries@[e].1)
                    &&& to.textures[h] == (TextureState {
                        last_layout: x->Texture_0.layout_after,
                        ..textures[h]
                    })
                }
            &&& added.last() is IssueBarriers
            &&& to.textures[other] == textures[other]
        }),
{
    let cmd = GpuCommand::ResourceBarrier { buffers, textures: entries };
    let added = added_calls(tables, inputs, textures, st, cmd);
    let to = recorded(tables, inputs, textures, st, cmd)->Ok_0;
    assert(to.state.calls =~= st.calls + added);
    let tex = texture_entry_barriers(textures, entries@);
    let k = lemma_texture_entry(textures, entries@, e);
    lemma_relayout_touches_entries(textures, entries@, other);
    if inputs.use_global_buffer_barriers {
        let all = global_entry_calls(tables.buffers@, buffers@);
        assert(added =~= all + issue(tex));
        assert(issue(tex)[k] == Call::QueueBarrier(tex[k]));
        assert(added[all.len() + k] == issue(tex)[k]);
    } else {
        let all = buffer_entry_barriers(tables.buffers@, buffers@);
        assert(added =~= issue(all + tex));
        assert((all + tex)[all.len() + k] == tex[k]);
        assert(added[all.len() + k] == Call::QueueBarrier((all + tex)[all.len() + k]));
    }
}

/// Recording only appends: no command takes back what is on the list.
proof fn lemma_appends(
    tables: RecordTables,
    inputs: RecordInputs,
    textures: Layouts,
    st: RecordView,
    cmd: GpuCommand,
)
    requires
        recorded(tables, inputs, textures, st, cmd) is Ok,
    ensures
        recorded(tables, inputs, textures, st, cmd)->Ok_0.state.calls == st.calls + added_calls(
            tables,
            inputs,
            textures,
            st,
            cmd,
        ),
{
    let to = recorded(tables, inputs, textures, st, cmd)->Ok_0;
    assert(to.state.calls =~= st.calls + to.state.calls.skip(st.calls.len() as int));
}

/// Every command of a stream that is recorded to its end stands on the list: first its
/// index, then its calls, after those of the commands before it and before those that
/// follow.
pub proof fn every_command_is_recorded(
    tables: RecordTables,
    inputs: RecordInputs,
    textures: Layouts,
    st: RecordView,
    commands: Seq<GpuCommand>,
    i: int,
)
    requires
        run_stream(tables, inputs, textures, st, commands).error is None,
        0 <= i < commands.len() <= usize::MAX,
    ensures
        ({
            let all = run_stream(tables, inputs, textures, st, commands).recorded.state.calls;
            let before = run_stream(tables, inputs, textures, st, commands.take(i)).recorded;
            let from = before.state.calls.len() as int;
            let state = before.state.with_calls(seq![Call::Command { command: i as usize }]);
            let own = added_calls(tables, inputs, before.textures, state, commands[i]);
            &&& run_stream(tables, inputs, textures, st, commands.take(i)).error is None
            &&& recorded(tables, inputs, before.textures, state, commands[i]) is Ok
            &&& from + 1 + own.len() <= all.len()
            &&& all.take(from) == before.state.calls
            &&& all[from] == (Call::Command { command: i as usize })
            &&& all.subrange(from + 1, from + 1 + own.len()) == own
            &&& i == commands.len() - 1 ==> all.len() == from + 1 + own.len()
        }),
    decreases commands.len(),
{
    let rest = commands.drop_last();
    let whole = run_stream(tables, inputs, textures, st, commands).recorded;
    let all = whole.state.calls;
    let part = run_stream(tables, inputs, textures, st, rest).recorded;
    let last = part.state.with_calls(seq![Call::Command { command: (commands.len() - 1) as usize }]);
    lemma_appends(tables, inputs, part.textures, last, commands.last());
    let tail = added_calls(tables, inputs, part.textures, last, commands.last());
    assert(all == last.calls + tail);
    if i == commands.len() - 1 {
        assert(rest =~= commands.take(i));
        let from = part.state.calls.len() as int;
        assert(all.take(from) =~= part.state.calls);
        assert(all.subrange(from + 1, from + 1 + tail.len()) =~= tail);
    } else {
        every_command_is_recorded(tables, inputs, textures, st, rest, i);
        assert(rest.take(i) =~= commands.take(i));
        assert(rest[i] == commands[i]);
        let before = run_stream(tables, inputs, textures, st, commands.take(i)).recorded;
        let from = before.state.calls.len() as int;
        let state = before.state.with_calls(seq![Call::Command { command: i as usize }]);
        let own = added_calls(tables, inputs, before.textures, state, commands[i]);
        assert(all.take(from) =~= part.state.calls.take(from));
        assert(all.subrange(from + 1, from + 1 + own.len()) =~= part.state.calls.subrange(
            from + 1,
            from + 1 + own.len(),
        ));
    }
}

/// The first command of a stream that is refused ends the recording with its error.
pub proof fn first_refused_command_ends_the_recording(
    tables: RecordTables,
    inputs: RecordInputs,
    textures: Layouts,
    st: RecordView,
    commands: Seq<GpuCommand>,
    n: int,
)
    requires
        0 <= n < commands.len(),
        run_stream(tables, inputs, textures, st, commands.take(n)).error is None,
        ({
            let before = run_stream(tables, inputs, textures, st, commands.take(n)).recorded;
            recorded(
                tables,
                inputs,
                before.textures,
                before.state.with_calls(seq![Call::Command { command: n as usize }]),
                commands[n],
            ) is Err
        }),
    ensures
        ({
            let before = run_stream(tables, inputs, textures, st, commands.take(n)).recorded;
            run_stream(tables, inputs, textures, st, commands).error == Some(
                recorded(
                    tables,
                    inputs,
                    before.textures,
                    before.state.with_calls(seq![Call::Command { command: n as usize }]),
                    commands[n],
                )->Err_0,
            )
        }),
    decreases commands.len(),
{
    if commands.len() == n + 1 {
        assert(commands.drop_last() =~= commands.take(n));
    } else {
        assert(commands.drop_last().take(n) =~= commands.take(n));
        first_refused_command_ends_the_recording(
            tables,
            inputs,
            textures,
            st,
            commands.drop_last(),
            n,
        );
    }
}

/// Some command before an index of a graph has copied the frame table to the device.
pub open spec fn staged_before(commands: Seq<GraphCommand>, i: int) -> bool {
    exists|j: int|
        0 <= j < i && match #[trigger] commands[j] {
            GraphCommand::Compute(cmd) => cmd is FrameTableStaging,
            GraphCommand::Render { stages_frame_table, .. } => stages_frame_table,
        }
}

proof fn lemma_prologue_done(
    tables: RecordTables,
    inputs: RecordInputs,
    textures: Layouts,
    st: RecordView,
    commands: Seq<GraphCommand>,
)
    requires
        run_graph(tables, inputs, textures, st, commands).error is None,
    ensures
        run_graph(tables, inputs, textures, st, commands).prologue_done <==> staged_before(
            commands,
            commands.len() as int,
        ),
    decreases commands.len(),
{
    if commands.len() > 0 {
        let rest = commands.drop_last();
        lemma_prologue_done(tables, inputs, textures, st, rest);
        if staged_before(rest, rest.len() as int) {
            let j = choose|j: int|
                0 <= j < rest.len() && match #[trigger] rest[j] {
                    GraphCommand::Compute(cmd) => cmd is FrameTableStaging,
                    GraphCommand::Render { stages_frame_table, .. } => stages_frame_table,
                };
            assert(commands[j] == rest[j]);
        }
        if staged_before(commands, commands.len() as int) {
            let j = choose|j: int|
                0 <= j < commands.len() && match #[trigger] commands[j] {
                    GraphCommand::Compute(cmd) => cmd is FrameTableStaging,
                    GraphCommand::Render { stages_frame_table, .. } => stages_frame_table,
                };
            if j < rest.len() {
                assert(rest[j] == commands[j]);
            }
        }
        if (match commands.last() {
            GraphCommand::Compute(cmd) => cmd is FrameTableStaging,
            GraphCommand::Render { stages_frame_table, .. } => stages_frame_table,
        }) {
            assert(commands[commands.len() - 1] == commands.last());
        }
    }
}

/// A render pass that ends a graph is recorded once, into its own target and with its own
/// index, and is told that the frame table is on the device exactly where a command before
/// it has copied it there. The target counts as rendered; a depth texture of the target is
/// readable again afterwards.
pub proof fn render_pass_is_recorded(
    tables: RecordTables,
    inputs: RecordInputs,
    textures: Layouts,
    st: RecordView,
    commands: Seq<GraphCommand>,
)
    requires
        0 < commands.len() <= usize::MAX,
        commands.last() is Render,
        run_graph(tables, inputs, textures, st, commands.drop_last()).error is None,
    ensures
        ({
            let target = commands.last()->target;
            let before = run_graph(tables, inputs, textures, st, commands.drop_last());
            let after = run_graph(tables, inputs, textures, st, commands);
            let from = before.recorded.state.calls.len() as int;
            let added = after.recorded.state.calls.skip(from);
            &&& after.error is None
            &&& after.recorded.state.calls == before.recorded.state.calls + added
            &&& after.rendered_targets == before.rendered_targets.push(target)
            &&& after.recorded.textures == before.recorded.textures
            &&& added[0] == (Call::Command { command: (commands.len() - 1) as usize })
            &&& exists|n: int|
                {
                    &&& 0 < n < added.len()
                    &&& #[trigger] added[n] matches Call::RenderPass {
                        target: t,
                        command,
                        prologue_done,
                    } && t == target && command == commands.len() - 1 && (prologue_done
                        <==> staged_before(commands, commands.len() - 1))
                    &&& forall|m: int|
                        0 <= m < added.len() && m != n ==> !(#[trigger] added[m] is RenderPass)
                    &&& exists|j: int| 0 < j < n && #[trigger] added[j] is IssueBarriers
                }
            &&& tables.render_targets@.contains_key(target)
                && tables.render_targets@[target].depth_texture is Some ==> in_layout_at(
                added,
                added.len() as int,
                tables.render_targets@[target].depth_texture->0,
                super::barriers::LAYOUT_DEPTH_STENCIL_READ,
            )
        }),
{
    let before = run_graph(tables, inputs, textures, st, commands.drop_last());
    let after = run_graph(tables, inputs, textures, st, commands);
    let from = before.recorded.state.calls.len() as int;
    let added = after.recorded.state.calls.skip(from);
    assert(after.recorded.state.calls =~= before.recorded.state.calls + added);
    lemma_prologue_done(tables, inputs, textures, st, commands.drop_last());
    let rest = commands.drop_last();
    assert(staged_before(rest, rest.len() as int) <==> staged_before(commands, commands.len() - 1))
        by {
        if staged_before(rest, rest.len() as int) {
            let j = choose|j: int|
                0 <= j < rest.len() && match #[trigger] rest[j] {
                    GraphCommand::Compute(cmd) => cmd is FrameTableStaging,
                    GraphCommand::Render { stages_frame_table, .. } => stages_frame_table,
                };
            assert(commands[j] == rest[j]);
        }
        if staged_before(commands, commands.len() - 1) {
            let j = choose|j: int|
                0 <= j < commands.len() - 1 && match #[trigger] commands[j] {
                    GraphCommand::Compute(cmd) => cmd is FrameTableStaging,
                    GraphCommand::Render { stages_frame_table, .. } => stages_frame_table,
                };
            assert(rest[j] == commands[j]);
        }
    }
    let target = commands.last()->target;
    let pass = super::stream::render_pass_calls(
        tables,
        inputs.use_global_buffer_barriers,
        target,
        (commands.len() - 1) as usize,
        before.prologue_done,
    );
    assert(added =~= seq![Call::Command { command: (commands.len() - 1) as usize }] + pass);
    assert(added[3] is RenderPass);
    assert(added[2] is IssueBarriers);
    if tables.render_targets@.contains_key(target)
        && tables.render_targets@[target].depth_texture is Some {
        assert(added.len() == 6);
        assert(on_texture(added[4], tables.render_targets@[target].depth_texture->0));
        assert(!on_texture(added[5], tables.render_targets@[target].depth_texture->0));
    }
}

/// A copy between buffers is made once its source is open for being copied from; a write of
/// staged bytes once its buffer is open for being copied to.
pub proof fn transfers_wait_for_their_buffer(
    tables: RecordTables,
    inputs: RecordInputs,
    textures: Layouts,
    st: RecordView,
    cmd: GpuCommand,
)
    requires
        recorded(tables, inputs, textures, st, cmd) is Ok,
        cmd is CopyBuffer || (cmd matches GpuCommand::WriteBuffer { buffer, offset, data }
            && tables.buffers@[buffer].is_storage),
    ensures
        ({
            let added = added_calls(tables, inputs, textures, st, cmd);
            &&& exists|n: int|
                {
                    &&& 0 <= n < added.len()
                    &&& #[trigger] added[n] matches Call::CopyBufferRegion { src, dst, .. }
                    &&& if cmd is CopyBuffer {
                        opened_for(added, n, src, SYNC_COPY, ACCESS_COPY_SOURCE)
                    } else {
                        opened_for(added, n, dst, SYNC_COPY, ACCESS_COPY_DEST)
                    }
                    &&& forall|m: int|
                        0 <= m < added.len() && m != n ==> !(#[trigger] added[m]
                            is CopyBufferRegion)
                }
        }),
{
    let added = added_calls(tables, inputs, textures, st, cmd);
    assert(added.len() == 3);
    assert(added[0] is QueueBarrier && added[1] is IssueBarriers && added[2] is CopyBufferRegion);
    if cmd is CopyBuffer {
        let src = added[2]->CopyBufferRegion_src;
        assert(orders(added[0], src) && lets_follow(added[0], SYNC_COPY, ACCESS_COPY_SOURCE));
        assert(opened_for(added, 2, src, SYNC_COPY, ACCESS_COPY_SOURCE));
    } else {
        let dst = added[2]->CopyBufferRegion_dst;
        assert(orders(added[0], dst) && lets_follow(added[0], SYNC_COPY, ACCESS_COPY_DEST));
        assert(opened_for(added, 2, dst, SYNC_COPY, ACCESS_COPY_DEST));
    }
}

/// Every copy of a clear is made once its buffer is open for being copied to.
pub proof fn clears_wait_for_their_buffer(
    tables: RecordTables,
    inputs: RecordInputs,
    textures: Layouts,
    st: RecordView,
    buffer: u64,
    offset: u64,
    size: u64,
    n: int,
)
    requires
        recorded(
            tables,
            inputs,
            textures,
            st,
            GpuCommand::ClearBuffer { buffer, offset, size },
        ) is Ok,
        tables.buffers@[buffer].is_storage,
        ({
            let cmd = GpuCommand::ClearBuffer { buffer, offset, size };
            let added = added_calls(tables, inputs, textures, st, cmd);
            0 <= n < added.len() && added[n] is CopyBufferRegion
        }),
    ensures
        opened_for(
            added_calls(
                tables,
                inputs,
                textures,
                st,
                GpuCommand::ClearBuffer { buffer, offset, size },
            ),
            n,
            tables.buffers@[buffer].resource,
            SYNC_COPY,
            ACCESS_COPY_DEST,
        ),
{
    let cmd = GpuCommand::ClearBuffer { buffer, offset, size };
    let added = added_calls(tables, inputs, textures, st, cmd);
    let resource = tables.buffers@[buffer].resource;
    assert(added[0] is QueueBarrier && added[1] is IssueBarriers);
    assert(orders(added[0], resource) && lets_follow(added[0], SYNC_COPY, ACCESS_COPY_DEST));
    assert forall|j: int| 0 < j < n implies !orders(#[trigger] added[j], resource) by {
        if j >= 2 {
            assert(added[j] is CopyBufferRegion);
        }
    }
}

/// A command changes only the state that is its own: a pipeline is set by setting one,
/// words are handed over by binds, dispatches are counted by dispatches, belt slices are
/// taken by writes of storage, texture uploads by uploads, and argument buffers by batches.
pub proof fn command_changes_only_its_own_state(
    tables: RecordTables,
    inputs: RecordInputs,
    textures: Layouts,
    st: RecordView,
    cmd: GpuCommand,
)
    requires
        recorded(tables, inputs, textures, st, cmd) is Ok,
    ensures
        ({
            let to = recorded(tables, inputs, textures, st, cmd)->Ok_0.state;
            let uploads = cmd is WriteTexture || cmd is WriteTextureRegion || cmd
                is CopyBufferToTexture;
            let writes_storage = cmd matches GpuCommand::WriteBuffer { buffer, offset, data }
                && tables.buffers@[buffer].is_storage;
            &&& !(cmd is SetPipeline) ==> to.current_compute_pipeline == st.current_compute_pipeline
            &&& !(cmd is BindResourcesRaw) ==> to.constants == st.constants
            &&& to.dispatch_idx == st.dispatch_idx + if cmd is Dispatch || cmd is DispatchIndirect {
                1int
            } else {
                0
            }
            &&& to.belt_idx == st.belt_idx + if writes_storage {
                1int
            } else {
                0
            }
            &&& to.texture_upload_idx == st.texture_upload_idx + if uploads {
                1int
            } else {
                0
            }
            &&& !(cmd is DispatchBatch) ==> to.argument_buffers == st.argument_buffers
            &&& to.calls.len() >= st.calls.len()
            &&& to.calls.take(st.calls.len() as int) == st.calls
        }),
{
    let to = recorded(tables, inputs, textures, st, cmd)->Ok_0.state;
    assert(to.calls.take(st.calls.len() as int) =~= st.calls);
}

/// A barrier without resources is one barrier between everything before it and everything
/// after it. Staging the frame table is one prologue.
pub proof fn plain_barrier_is_on_everything(
    tables: RecordTables,
    inputs: RecordInputs,
    textures: Layouts,
    st: RecordView,
    words: Vec<u32>,
)
    ensures
        ({
            let added = added_calls(tables, inputs, textures, st, GpuCommand::Barrier);
            &&& recorded(tables, inputs, textures, st, GpuCommand::Barrier) is Ok
            &&& added.len() == 2
            &&& added[1] is IssueBarriers
            &&& added[0] matches Call::QueueBarrier(b)
            &&& b matches Barrier::Global(g)
            &&& g.sync_before == SYNC_ALL && g.sync_after == SYNC_ALL
            &&& g.access_before == ACCESS_COMMON && g.access_after == ACCESS_COMMON
        }),
        ({
            let cmd = GpuCommand::FrameTableStaging { words };
            let added = added_calls(tables, inputs, textures, st, cmd);
            &&& recorded(tables, inputs, textures, st, cmd) is Ok
            &&& added.len() == 1
            &&& added[0] is FrameTablePrologue
        }),
{
}

/// The error of a refused command tells what was missing for it, or which bytes it would
/// have touched outside.
pub proof fn refused_command_tells_why(
    tables: RecordTables,
    inputs: RecordInputs,
    textures: Layouts,
    st: RecordView,
    cmd: GpuCommand,
)
    requires
        recorded(tables, inputs, textures, st, cmd) is Err,
        forall|b: u64| #[trigger] tables.buffers@.contains_key(b) ==> tables.buffers@[b].size
            < u64::MAX,
    ensures
        ({
            let device = inputs.device_handle;
            match recorded(tables, inputs, textures, st, cmd)->Err_0 {
                RecordError::TypedBindingsNotLowered => cmd is BindResourcesTyped,
                RecordError::DispatchIndirectInvalidDevice => cmd is DispatchIndirect
                    && !tables.devices@.contains_key(device),
                RecordError::DispatchIndirectInvalidBuffer => cmd matches
                    GpuCommand::DispatchIndirect { label, buffer, offset }
                    && !tables.buffers@.contains_key(buffer),
                RecordError::DispatchIndirectNoSignature => cmd is DispatchIndirect
                    && !tables.devices@[device].has_dispatch_indirect_signature,
                RecordError::DispatchBatchInvalidDevice => cmd is DispatchBatch
                    && !tables.devices@.contains_key(device),
                RecordError::ClearBufferInvalidBuffer => cmd matches GpuCommand::ClearBuffer {
                    buffer,
                    offset,
                    size,
                } && !tables.buffers@.contains_key(buffer),
                RecordError::ClearBufferInvalidDevice => cmd is ClearBuffer
                    && !tables.devices@.contains_key(device),
                RecordError::WriteBufferInvalidBuffer => cmd matches GpuCommand::WriteBuffer {
                    buffer,
                    offset,
                    data,
                } && !tables.buffers@.contains_key(buffer),
                RecordError::WriteBufferBeltSliceMissing => cmd is WriteBuffer && st.belt_idx
                    >= inputs.belt_slices@.len(),
                RecordError::WriteTextureStagedUploadMissing => (cmd is WriteTexture || cmd
                    is WriteTextureRegion || cmd is CopyBufferToTexture) && st.texture_upload_idx
                    >= inputs.staged_texture_uploads@.len(),
                RecordError::CopyTextureSrcNotFound => cmd matches GpuCommand::CopyTexture {
                    src,
                    dst,
                } && !textures.contains_key(src),
                RecordError::CopyTextureDstNotFound => cmd matches GpuCommand::CopyTexture {
                    src,
                    dst,
                } && !textures.contains_key(dst),
                RecordError::CopyBufferInvalidSrc => cmd is CopyBuffer
                    && !tables.buffers@.contains_key(cmd->CopyBuffer_src),
                RecordError::CopyBufferInvalidDst => cmd is CopyBuffer
                    && !tables.buffers@.contains_key(cmd->CopyBuffer_dst),
                RecordError::CopyBufferOutOfBounds => cmd matches GpuCommand::CopyBuffer {
                    src,
                    src_offset,
                    dst,
                    dst_offset,
                    size,
                } && (src_offset + size > tables.buffers@[src].size || dst_offset + size
                    > tables.buffers@[dst].size),
                RecordError::CopyBufferMissingUploadBuffer => cmd is CopyBuffer
                    && tables.buffers@[cmd->CopyBuffer_src].upload_buffer is None,
                RecordError::CopyRenderTargetSrcNotFound => cmd matches
                    GpuCommand::CopyRenderTarget { src, dst } && !tables.render_targets@.contains_key(
                    src,
                ),
                RecordError::CopyRenderTargetDstNotFound => cmd matches
                    GpuCommand::CopyRenderTarget { src, dst } && !textures.contains_key(dst),
            }
        }),
{
}

} // verus!
