//! What submissions use, stage and measure.

use vstd::prelude::*;

use super::command_list::Call;
use super::commands::{GpuCommand, GraphCommand, PushLayoutInfo, RenderBinding};
use super::context::{AllocatorSlot, DeferredSlot};
use super::record::{Layouts, RecordInputs, RecordView};
use super::record_laws::added_calls;
use super::submit::{
    batch_slots, block_slots, buffer_slots, command_slots, dispatch_span, graph_slots, index_at,
    pass_slots, profile_plan, render_slots, stream_slots, stream_staging, with_slot,
    PrepassError, StagingStep,
};
use super::types::{BufferState, RecordTables};

verus! {

broadcast use vstd::std_specs::hash::group_hash_axioms;

/// Some of the two-byte words of a batch's blocks is an index.
pub open spec fn batch_holds(layout: PushLayoutInfo, args: Seq<u8>, count: int, slot: u32) -> bool {
    exists|d: int, e: int|
        {
            &&& 0 <= d < count
            &&& 0 <= e < layout.bindless_count
            &&& d * layout.stride + layout.size <= args.len()
            &&& slot == #[trigger] word_of(layout, args, d, e)
        }
}

/// The `e`th two-byte word of the indices in the `d`th block, lower byte first.
pub open spec fn word_of(layout: PushLayoutInfo, args: Seq<u8>, d: int, e: int) -> int {
    let at = d * layout.stride + layout.bindless_offset + 2 * e;
    args[at] + 256 * args[at + 1]
}

/// A command uses a descriptor.
pub open spec fn uses(layout: PushLayoutInfo, cmd: GpuCommand, slot: u32) -> bool {
    match cmd {
        GpuCommand::BindResourcesRaw { indices, user, frame_table_base } => indices@.contains(slot),
        GpuCommand::BindResourcesTyped { handles } => exists|i: int|
            0 <= i < handles@.len() && (#[trigger] handles@[i]).index == slot,
        GpuCommand::DispatchBatch { label, arg_data, count } => slot != 0 && batch_holds(
            layout,
            arg_data@,
            count as int,
            slot,
        ),
        _ => false,
    }
}

/// A command of a render pass uses a descriptor.
pub open spec fn pass_uses(buffers: Map<u64, BufferState>, cmd: RenderBinding, slot: u32) -> bool {
    match cmd {
        RenderBinding::BindResources { buffers: handles } => exists|i: int|
            {
                &&& 0 <= i < handles@.len()
                &&& buffers.contains_key(#[trigger] handles@[i])
                &&& buffers[handles@[i]].bindless_offset == Some(slot)
            },
        RenderBinding::BindResourcesRaw { indices } => indices@.contains(slot),
        RenderBinding::BindResourcesTyped { handles } => exists|i: int|
            0 <= i < handles@.len() && (#[trigger] handles@[i]).index == slot,
        _ => false,
    }
}

proof fn lemma_contains_both(a: Seq<DeferredSlot>, b: Seq<DeferredSlot>, slot: DeferredSlot)
    ensures
        (a + b).contains(slot) <==> a.contains(slot) || b.contains(slot),
{
    if a.contains(slot) {
        let k = choose|k: int| 0 <= k < a.len() && a[k] == slot;
        assert((a + b)[k] == slot);
    }
    if b.contains(slot) {
        let k = choose|k: int| 0 <= k < b.len() && b[k] == slot;
        assert((a + b)[a.len() + k] == slot);
    }
}

proof fn lemma_contains_push(a: Seq<DeferredSlot>, last: DeferredSlot, slot: DeferredSlot)
    ensures
        a.push(last).contains(slot) <==> a.contains(slot) || last == slot,
{
    assert(a.push(last) =~= a + seq![last]);
    lemma_contains_both(a, seq![last], slot);
    assert(seq![last][0] == last);
}

proof fn lemma_block(layout: PushLayoutInfo, args: Seq<u8>, d: int, n: int, slot: u32)
    requires
        0 <= d,
        0 <= n,
    ensures
        block_slots(layout, args, d * layout.stride, n).contains(DeferredSlot::CbvSrvUav(slot))
            <==> slot != 0 && exists|e: int|
            0 <= e < n && slot == #[trigger] word_of(layout, args, d, e),
    decreases n,
{
    let base = d * layout.stride;
    let all = block_slots(layout, args, base, n);
    if n > 0 {
        let rest = block_slots(layout, args, base, n - 1);
        let last = index_at(args, base + layout.bindless_offset + 2 * (n - 1));
        assert(last == word_of(layout, args, d, n - 1));
        lemma_block(layout, args, d, n - 1, slot);
        lemma_contains_push(rest, DeferredSlot::CbvSrvUav(last), DeferredSlot::CbvSrvUav(slot));
        if slot != 0 && exists|e: int|
            0 <= e < n && slot == #[trigger] word_of(layout, args, d, e) {
            let e = choose|e: int| 0 <= e < n && slot == #[trigger] word_of(layout, args, d, e);
            if e < n - 1 {
                assert(rest.contains(DeferredSlot::CbvSrvUav(slot)));
            }
        }
    }
}

proof fn lemma_batch(layout: PushLayoutInfo, args: Seq<u8>, count: int, slot: u32)
    requires
        0 <= count,
    ensures
        batch_slots(layout, args, count).contains(DeferredSlot::CbvSrvUav(slot)) <==> slot != 0
            && batch_holds(layout, args, count, slot),
    decreases count,
{
    if count > 0 {
        let d = count - 1;
        let n = layout.bindless_count as int;
        let rest = batch_slots(layout, args, d);
        let own = if d * layout.stride + layout.size <= args.len() {
            block_slots(layout, args, d * layout.stride, n)
        } else {
            Seq::empty()
        };
        lemma_batch(layout, args, d, slot);
        lemma_block(layout, args, d, n, slot);
        lemma_contains_both(rest, own, DeferredSlot::CbvSrvUav(slot));
        if slot != 0 && batch_holds(layout, args, count, slot) {
            let (k, e) = choose|k: int, e: int|
                {
                    &&& 0 <= k < count
                    &&& 0 <= e < layout.bindless_count
                    &&& k * layout.stride + layout.size <= args.len()
                    &&& slot == #[trigger] word_of(layout, args, k, e)
                };
            if k < d {
                assert(batch_holds(layout, args, d, slot));
            }
        }
        if slot != 0 && batch_holds(layout, args, d, slot) {
            let (k, e) = choose|k: int, e: int|
                {
                    &&& 0 <= k < d
                    &&& 0 <= e < layout.bindless_count
                    &&& k * layout.stride + layout.size <= args.len()
                    &&& slot == #[trigger] word_of(layout, args, k, e)
                };
            assert(batch_holds(layout, args, count, slot));
        }
    }
}

/// The descriptors noted for a command are exactly those that it uses.
pub proof fn command_notes_what_it_uses(layout: PushLayoutInfo, cmd: GpuCommand, slot: u32)
    ensures
        command_slots(layout, cmd).contains(DeferredSlot::CbvSrvUav(slot)) <==> uses(
            layout,
            cmd,
            slot,
        ),
{
    let noted = command_slots(layout, cmd);
    match cmd {
        GpuCommand::BindResourcesRaw { indices, user, frame_table_base } => {
            if indices@.contains(slot) {
                let k = choose|k: int| 0 <= k < indices@.len() && indices@[k] == slot;
                assert(noted[k] == DeferredSlot::CbvSrvUav(slot));
            }
            if noted.contains(DeferredSlot::CbvSrvUav(slot)) {
                let k = choose|k: int|
                    0 <= k < noted.len() && noted[k] == DeferredSlot::CbvSrvUav(slot);
                assert(indices@[k] == slot);
            }
        },
        GpuCommand::BindResourcesTyped { handles } => {
            if uses(layout, cmd, slot) {
                let k = choose|k: int|
                    0 <= k < handles@.len() && (#[trigger] handles@[k]).index == slot;
                assert(noted[k] == DeferredSlot::CbvSrvUav(slot));
            }
            if noted.contains(DeferredSlot::CbvSrvUav(slot)) {
                let k = choose|k: int|
                    0 <= k < noted.len() && noted[k] == DeferredSlot::CbvSrvUav(slot);
                assert(handles@[k].index == slot);
            }
        },
        GpuCommand::DispatchBatch { label, arg_data, count } => {
            lemma_batch(layout, arg_data@, count as int, slot);
        },
        _ => {},
    }
}

/// The descriptors noted for a stream are exactly those that some command of it uses.
pub proof fn stream_notes_what_it_uses(
    layout: PushLayoutInfo,
    commands: Seq<GpuCommand>,
    slot: u32,
)
    ensures
        stream_slots(layout, commands).contains(DeferredSlot::CbvSrvUav(slot)) <==> exists|i: int|
            0 <= i < commands.len() && uses(layout, #[trigger] commands[i], slot),
    decreases commands.len(),
{
    if commands.len() > 0 {
        let rest = commands.drop_last();
        stream_notes_what_it_uses(layout, rest, slot);
        command_notes_what_it_uses(layout, commands.last(), slot);
        lemma_contains_both(
            stream_slots(layout, rest),
            command_slots(layout, commands.last()),
            DeferredSlot::CbvSrvUav(slot),
        );
        if exists|i: int| 0 <= i < rest.len() && uses(layout, #[trigger] rest[i], slot) {
            let i = choose|i: int| 0 <= i < rest.len() && uses(layout, #[trigger] rest[i], slot);
            assert(commands[i] == rest[i]);
        }
        if exists|i: int| 0 <= i < commands.len() && uses(layout, #[trigger] commands[i], slot) {
            let i = choose|i: int|
                0 <= i < commands.len() && uses(layout, #[trigger] commands[i], slot);
            if i < rest.len() {
                assert(commands[i] == rest[i]);
            }
        }
        if uses(layout, commands.last(), slot) {
            assert(commands[commands.len() - 1] == commands.last());
        }
    }
}

proof fn lemma_buffers(buffers: Map<u64, BufferState>, handles: Seq<u64>, slot: u32)
    ensures
        buffer_slots(buffers, handles).contains(DeferredSlot::CbvSrvUav(slot)) <==> exists|i: int|
            {
                &&& 0 <= i < handles.len()
                &&& buffers.contains_key(#[trigger] handles[i])
                &&& buffers[handles[i]].bindless_offset == Some(slot)
            },
    decreases handles.len(),
{
    if handles.len() > 0 {
        let rest = handles.drop_last();
        let h = handles.last();
        let n = handles.len() - 1;
        lemma_buffers(buffers, rest, slot);
        if buffers.contains_key(h) && buffers[h].bindless_offset is Some {
            lemma_contains_push(
                buffer_slots(buffers, rest),
                DeferredSlot::CbvSrvUav(buffers[h].bindless_offset->0),
                DeferredSlot::CbvSrvUav(slot),
            );
        }
        if exists|i: int|
            {
                &&& 0 <= i < rest.len()
                &&& buffers.contains_key(#[trigger] rest[i])
                &&& buffers[rest[i]].bindless_offset == Some(slot)
            } {
            let i = choose|i: int|
                {
                    &&& 0 <= i < rest.len()
                    &&& buffers.contains_key(#[trigger] rest[i])
                    &&& buffers[rest[i]].bindless_offset == Some(slot)
                };
            assert(handles[i] == rest[i]);
        }
        if exists|i: int|
            {
                &&& 0 <= i < handles.len()
                &&& buffers.contains_key(#[trigger] handles[i])
                &&& buffers[handles[i]].bindless_offset == Some(slot)
            } {
            let i = choose|i: int|
                {
                    &&& 0 <= i < handles.len()
                    &&& buffers.contains_key(#[trigger] handles[i])
                    &&& buffers[handles[i]].bindless_offset == Some(slot)
                };
            if i < n {
                assert(handles[i] == rest[i]);
            }
        }
        assert(handles[n] == h);
    }
}

proof fn lemma_render(buffers: Map<u64, BufferState>, cmd: RenderBinding, slot: u32)
    ensures
        render_slots(buffers, cmd).contains(DeferredSlot::CbvSrvUav(slot)) <==> pass_uses(
            buffers,
            cmd,
            slot,
        ),
{
    let noted = render_slots(buffers, cmd);
    match cmd {
        RenderBinding::BindResources { buffers: handles } => {
            lemma_buffers(buffers, handles@, slot);
        },
        RenderBinding::BindResourcesRaw { indices } => {
            if indices@.contains(slot) {
                let k = choose|k: int| 0 <= k < indices@.len() && indices@[k] == slot;
                assert(noted[k] == DeferredSlot::CbvSrvUav(slot));
            }
            if noted.contains(DeferredSlot::CbvSrvUav(slot)) {
                let k = choose|k: int|
                    0 <= k < noted.len() && noted[k] == DeferredSlot::CbvSrvUav(slot);
                assert(indices@[k] == slot);
            }
        },
        RenderBinding::BindResourcesTyped { handles } => {
            if pass_uses(buffers, cmd, slot) {
                let k = choose|k: int|
                    0 <= k < handles@.len() && (#[trigger] handles@[k]).index == slot;
                assert(noted[k] == DeferredSlot::CbvSrvUav(slot));
            }
            if noted.contains(DeferredSlot::CbvSrvUav(slot)) {
                let k = choose|k: int|
                    0 <= k < noted.len() && noted[k] == DeferredSlot::CbvSrvUav(slot);
                assert(handles@[k].index == slot);
            }
        },
        _ => {},
    }
}

/// The descriptors noted for a render pass are exactly those that some command of it uses.
pub proof fn pass_notes_what_it_uses(
    buffers: Map<u64, BufferState>,
    commands: Seq<RenderBinding>,
    slot: u32,
)
    ensures
        pass_slots(buffers, commands).contains(DeferredSlot::CbvSrvUav(slot)) <==> exists|i: int|
            0 <= i < commands.len() && pass_uses(buffers, #[trigger] commands[i], slot),
    decreases commands.len(),
{
    if commands.len() > 0 {
        let rest = commands.drop_last();
        pass_notes_what_it_uses(buffers, rest, slot);
        lemma_render(buffers, commands.last(), slot);
        lemma_contains_both(
            pass_slots(buffers, rest),
            render_slots(buffers, commands.last()),
            DeferredSlot::CbvSrvUav(slot),
        );
        if exists|i: int| 0 <= i < rest.len() && pass_uses(buffers, #[trigger] rest[i], slot) {
            let i = choose|i: int|
                0 <= i < rest.len() && pass_uses(buffers, #[trigger] rest[i], slot);
            assert(commands[i] == rest[i]);
        }
        if exists|i: int|
            0 <= i < commands.len() && pass_uses(buffers, #[trigger] commands[i], slot) {
            let i = choose|i: int|
                0 <= i < commands.len() && pass_uses(buffers, #[trigger] commands[i], slot);
            if i < rest.len() {
                assert(commands[i] == rest[i]);
            }
        }
        if pass_uses(buffers, commands.last(), slot) {
            assert(commands[commands.len() - 1] == commands.last());
        }
    }
}

/// A command of a graph uses a descriptor.
pub open spec fn graph_command_uses(
    layout: PushLayoutInfo,
    buffers: Map<u64, BufferState>,
    cmd: GraphCommand,
    slot: u32,
) -> bool {
    match cmd {
        GraphCommand::Compute(cmd) => uses(layout, cmd, slot),
        GraphCommand::Render { target, commands, stages_frame_table } => exists|i: int|
            0 <= i < commands@.len() && pass_uses(buffers, #[trigger] commands@[i], slot),
    }
}

/// The descriptors noted for a graph are exactly those that some command of it uses.
pub proof fn graph_notes_what_it_uses(
    layout: PushLayoutInfo,
    buffers: Map<u64, BufferState>,
    commands: Seq<GraphCommand>,
    slot: u32,
)
    ensures
        graph_slots(layout, buffers, commands).contains(DeferredSlot::CbvSrvUav(slot))
            <==> exists|i: int|
            0 <= i < commands.len() && graph_command_uses(
                layout,
                buffers,
                #[trigger] commands[i],
                slot,
            ),
    decreases commands.len(),
{
    if commands.len() > 0 {
        let rest = commands.drop_last();
        let last = commands.last();
        graph_notes_what_it_uses(layout, buffers, rest, slot);
        let own = match last {
            GraphCommand::Compute(cmd) => command_slots(layout, cmd),
            GraphCommand::Render { target, commands: pass, stages_frame_table } => pass_slots(
                buffers,
                pass@,
            ),
        };
        match last {
            GraphCommand::Compute(cmd) => {
                command_notes_what_it_uses(layout, cmd, slot);
            },
            GraphCommand::Render { target, commands: pass, stages_frame_table } => {
                pass_notes_what_it_uses(buffers, pass@, slot);
            },
        }
        lemma_contains_both(
            graph_slots(layout, buffers, rest),
            own,
            DeferredSlot::CbvSrvUav(slot),
        );
        if exists|i: int|
            0 <= i < rest.len() && graph_command_uses(layout, buffers, #[trigger] rest[i], slot) {
            let i = choose|i: int|
                0 <= i < rest.len() && graph_command_uses(
                    layout,
                    buffers,
                    #[trigger] rest[i],
                    slot,
                );
            assert(commands[i] == rest[i]);
        }
        if exists|i: int|
            0 <= i < commands.len() && graph_command_uses(
                layout,
                buffers,
                #[trigger] commands[i],
                slot,
            ) {
            let i = choose|i: int|
                0 <= i < commands.len() && graph_command_uses(
                    layout,
                    buffers,
                    #[trigger] commands[i],
                    slot,
                );
            if i < rest.len() {
                assert(commands[i] == rest[i]);
            }
        }
        if graph_command_uses(layout, buffers, last, slot) {
            assert(commands[commands.len() - 1] == last);
        }
    }
}

/// The span of a dispatch lies between the timestamps that are taken just before it and
/// just after it, and has its label; `dispatch` where it has none.
pub proof fn span_lies_around_its_dispatch(
    tables: RecordTables,
    inputs: RecordInputs,
    textures: Layouts,
    st: RecordView,
    cmd: GpuCommand,
    values: Seq<u64>,
    labels: Seq<Option<&'static str>>,
)
    requires
        cmd is Dispatch,
        inputs.profiling,
        0 <= st.dispatch_idx < 0x7fff_fff0,
    ensures
        ({
            let added = added_calls(tables, inputs, textures, st, cmd);
            let span = dispatch_span(values, labels, st.dispatch_idx);
            &&& added.len() == 3
            &&& added[1] is Dispatch
            &&& added[0] matches Call::EndQuery { index } && span.start == values[index as int]
            &&& added[2] matches Call::EndQuery { index } && span.end == values[index as int]
            &&& span.label == match labels[st.dispatch_idx] {
                Some(label) => label,
                None => "dispatch",
            }
        }),
{
}

/// There is a timestamp for both ends of the list and of each dispatch, and eight bytes for
/// each, in a whole number of 256 bytes.
pub proof fn profile_has_room_for_every_timestamp(dispatches: usize)
    requires
        dispatches <= 0x7fff_fffe,
    ensures
        profile_plan(dispatches).query_count == 2 + 2 * dispatches,
        profile_plan(dispatches).readback_width >= 8 * (2 + 2 * dispatches),
        profile_plan(dispatches).readback_width % 256 == 0,
        profile_plan(dispatches).readback_width == 256 || profile_plan(dispatches).readback_width
            < 8 * (2 + 2 * dispatches) + 256,
{
    assert(dispatches <= 0x7fff_fffeusize ==> dispatches as u32 == dispatches) by (bit_vector);
}

/// The pool keeps every slot but the one that is recorded from, which gets the list; a new
/// slot gets the allocator as well.
pub proof fn adopted_slot_has_its_list(
    pool: Seq<AllocatorSlot>,
    idx: int,
    allocator: u64,
    command_list: u64,
    other: int,
)
    requires
        0 <= idx <= pool.len(),
        0 <= other < pool.len(),
        other != idx,
    ensures
        ({
            let after = with_slot(pool, idx, allocator, command_list);
            &&& after[other] == pool[other]
            &&& after[idx].command_list == Some(command_list)
            &&& idx < pool.len() ==> after.len() == pool.len() && after[idx].allocator
                == pool[idx].allocator && after[idx].fence_value == pool[idx].fence_value
                && after[idx].retained == pool[idx].retained
            &&& idx == pool.len() ==> after.len() == pool.len() + 1 && after[idx].allocator
                == allocator && !after[idx].retained && after[idx].fence_value == 0
        }),
{
}

/// A step stages a command.
pub open spec fn stages(step: StagingStep, tables: RecordTables, cmd: GpuCommand, i: int) -> bool {
    match cmd {
        GpuCommand::WriteBuffer { buffer, offset, data } => step == (StagingStep::BeltWrite {
            command: i as usize,
            device: tables.buffers@[buffer].device_handle,
        }),
        _ => step == (StagingStep::TextureUpload { command: i as usize }),
    }
}

/// A command needs its bytes staged: it writes a storage buffer, or a texture.
pub open spec fn needs_staging(tables: RecordTables, cmd: GpuCommand) -> bool {
    match cmd {
        GpuCommand::WriteBuffer { buffer, offset, data } => tables.buffers@[buffer].is_storage,
        GpuCommand::WriteTexture { .. } => true,
        GpuCommand::WriteTextureRegion { .. } => true,
        GpuCommand::CopyBufferToTexture { .. } => true,
        _ => false,
    }
}

/// What is staged before a stream is recorded are the commands that need it, and each of
/// them, in order: the command at `i` is the next to be staged after those before it.
pub proof fn prepass_stages_the_command(
    tables: RecordTables,
    commands: Seq<GpuCommand>,
    i: int,
)
    requires
        stream_staging(tables, commands) is Ok,
        0 <= i < commands.len() <= usize::MAX,
    ensures
        stream_staging(tables, commands.take(i)) is Ok,
        ({
            let steps = stream_staging(tables, commands)->Ok_0;
            let before = stream_staging(tables, commands.take(i))->Ok_0;
            &&& before.len() <= steps.len()
            &&& steps.take(before.len() as int) == before
            &&& if needs_staging(tables, commands[i]) {
                before.len() < steps.len() && stages(
                    steps[before.len() as int],
                    tables,
                    commands[i],
                    i,
                )
            } else {
                i == commands.len() - 1 ==> steps.len() == before.len()
            }
        }),
    decreases commands.len(),
{
    let rest = commands.drop_last();
    let steps = stream_staging(tables, commands)->Ok_0;
    let part = stream_staging(tables, rest)->Ok_0;
    if i == commands.len() - 1 {
        assert(rest =~= commands.take(i));
        assert(steps.take(part.len() as int) =~= part);
    } else {
        prepass_stages_the_command(tables, rest, i);
        assert(rest.take(i) =~= commands.take(i));
        assert(rest[i] == commands[i]);
        let before = stream_staging(tables, commands.take(i))->Ok_0;
        assert(steps.take(part.len() as int) =~= part);
        assert(steps.take(before.len() as int) =~= part.take(before.len() as int));
    }
}

/// A stream is refused before it is recorded exactly where it writes a buffer that is not
/// known, or a storage buffer whose device is not; the error names the first such command.
pub proof fn prepass_refuses_exactly_unknown_buffers(tables: RecordTables, commands: Seq<GpuCommand>)
    requires
        commands.len() <= usize::MAX,
    ensures
        stream_staging(tables, commands) is Err <==> exists|i: int|
            0 <= i < commands.len() && writes_nowhere(tables, #[trigger] commands[i]),
        stream_staging(tables, commands) matches Err(e) ==> {
            let i = match e {
                PrepassError::WriteBufferInvalidHandle { command } => command as int,
                PrepassError::WriteBufferDeviceMissing { command } => command as int,
            };
            &&& 0 <= i < commands.len()
            &&& writes_nowhere(tables, commands[i])
            &&& e is WriteBufferInvalidHandle <==> !tables.buffers@.contains_key(
                commands[i]->WriteBuffer_buffer,
            )
            &&& forall|j: int| 0 <= j < i ==> !writes_nowhere(tables, #[trigger] commands[j])
        },
    decreases commands.len(),
{
    if commands.len() > 0 {
        let rest = commands.drop_last();
        prepass_refuses_exactly_unknown_buffers(tables, rest);
        assert(forall|j: int| 0 <= j < rest.len() ==> #[trigger] rest[j] == commands[j]);
        if exists|i: int| 0 <= i < rest.len() && writes_nowhere(tables, #[trigger] rest[i]) {
            let i = choose|i: int| 0 <= i < rest.len() && writes_nowhere(tables, #[trigger] rest[i]);
            assert(commands[i] == rest[i]);
        }
        if stream_staging(tables, rest) is Ok {
            assert forall|j: int| 0 <= j < rest.len() implies !writes_nowhere(
                tables,
                #[trigger] commands[j],
            ) by {
                assert(rest[j] == commands[j]);
            }
        } else {
            let e = stream_staging(tables, rest)->Err_0;
            let i = match e {
                PrepassError::WriteBufferInvalidHandle { command } => command as int,
                PrepassError::WriteBufferDeviceMissing { command } => command as int,
            };
            assert(rest[i] == commands[i]);
            assert forall|j: int| 0 <= j < i implies !writes_nowhere(
                tables,
                #[trigger] commands[j],
            ) by {
                assert(rest[j] == commands[j]);
            }
        }
        assert(commands[commands.len() - 1] == commands.last());
    }
}

/// A command writes a buffer that cannot be reached.
pub open spec fn writes_nowhere(tables: RecordTables, cmd: GpuCommand) -> bool {
    cmd matches GpuCommand::WriteBuffer { buffer, offset, data } && (!tables.buffers@.contains_key(
        buffer,
    ) || tables.buffers@[buffer].is_storage && !tables.devices@.contains_key(
        tables.buffers@[buffer].device_handle,
    ))
}

} // verus!
