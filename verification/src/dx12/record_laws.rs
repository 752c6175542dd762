//! What holds of every recorded list.

use vstd::prelude::*;

use super::barriers::{barrier_well_paired, Barrier};
use super::command_list::{calls_well_paired, issue, issue_one, lemma_paired_concat, Call};
use super::commands::{GpuCommand, GraphCommand};
use super::frame_table::{
    payload_copy, prologue_calls, transition_calls, FrameTableLayout, ResourceState,
};
use super::lowering::{lowered_buffer_usage_is_paired, BarrierUsage};
use super::memory::{
    apply, is_zero_buffer, overwrite, run_calls, run_calls_in_a_row, zero_fill_zeroes_the_range,
    zeros, Memory,
};
use super::record::{
    batch_calls, batch_entry, buffer_entry_barriers, clear_calls, clear_span, copied_to_shader,
    copy_buffer_calls, copy_render_target_calls, copy_texture_calls, global_entry_barrier,
    global_entry_calls, recorded, staged_write_calls, texture_entry_barriers, to_copy_dest,
    to_copy_source, zero_fill, Layouts, RecordError, RecordInputs, RecordView,
};
use super::stream::{
    announced, list_close, list_open, pre_render_barrier, render_pass_calls, run_graph, run_stream,
    tail_barrier,
};
use super::submit::{graph_staging, stream_staging, StagingStep};
use super::types::{BufferState, RecordTables};

verus! {

/// The command writes a known storage buffer.
pub open spec fn takes_belt_slice(tables: RecordTables, cmd: GpuCommand) -> bool {
    cmd matches GpuCommand::WriteBuffer { buffer, offset, data } && tables.buffers@.contains_key(
        buffer,
    ) && tables.buffers@[buffer].is_storage
}

/// The command uploads to a texture.
pub open spec fn takes_texture_upload(cmd: GpuCommand) -> bool {
    cmd is WriteTexture || cmd is WriteTextureRegion || cmd is CopyBufferToTexture
}

/// How many commands write a known storage buffer.
pub open spec fn belt_writes(tables: RecordTables, commands: Seq<GpuCommand>) -> int
    decreases commands.len(),
{
    if commands.len() == 0 {
        0
    } else {
        belt_writes(tables, commands.drop_last()) + if takes_belt_slice(tables, commands.last()) {
            1int
        } else {
            0
        }
    }
}

/// How many commands upload to a texture.
pub open spec fn texture_uploads(commands: Seq<GpuCommand>) -> int
    decreases commands.len(),
{
    if commands.len() == 0 {
        0
    } else {
        texture_uploads(commands.drop_last()) + if takes_texture_upload(commands.last()) {
            1int
        } else {
            0
        }
    }
}

/// How many of the steps write to the staging belt.
pub open spec fn belt_steps(steps: Seq<StagingStep>) -> int
    decreases steps.len(),
{
    if steps.len() == 0 {
        0
    } else {
        belt_steps(steps.drop_last()) + if steps.last() is BeltWrite {
            1int
        } else {
            0
        }
    }
}

/// The compute commands of a graph, in order.
pub open spec fn compute_commands(commands: Seq<GraphCommand>) -> Seq<GpuCommand>
    decreases commands.len(),
{
    if commands.len() == 0 {
        Seq::empty()
    } else {
        match commands.last() {
            GraphCommand::Compute(cmd) => compute_commands(commands.drop_last()).push(cmd),
            GraphCommand::Render { .. } => compute_commands(commands.drop_last()),
        }
    }
}

proof fn lemma_recorded_counts(
    tables: RecordTables,
    inputs: RecordInputs,
    textures: Layouts,
    st: RecordView,
    cmd: GpuCommand,
)
    ensures
        recorded(tables, inputs, textures, st, cmd) matches Ok(to) ==> to.state.belt_idx
            == st.belt_idx + (if takes_belt_slice(tables, cmd) {
            1int
        } else {
            0
        }) && to.state.texture_upload_idx == st.texture_upload_idx + (if takes_texture_upload(cmd) {
            1int
        } else {
            0
        }),
{
}

/// Every staged upload is used, in order, by the recording of a stream: where the
/// stream was recorded to its end, the recorder has taken as many belt slices and
/// texture uploads as the stream has commands that need one.
pub proof fn recording_uses_every_staged_upload(
    tables: RecordTables,
    inputs: RecordInputs,
    textures: Layouts,
    st: RecordView,
    commands: Seq<GpuCommand>,
)
    requires
        run_stream(tables, inputs, textures, st, commands).error is None,
    ensures
        run_stream(tables, inputs, textures, st, commands).recorded.state.belt_idx == st.belt_idx
            + belt_writes(tables, commands),
        run_stream(tables, inputs, textures, st, commands).recorded.state.texture_upload_idx
            == st.texture_upload_idx + texture_uploads(commands),
    decreases commands.len(),
{
    if commands.len() > 0 {
        let before = run_stream(tables, inputs, textures, st, commands.drop_last());
        recording_uses_every_staged_upload(tables, inputs, textures, st, commands.drop_last());
        lemma_recorded_counts(
            tables,
            inputs,
            before.recorded.textures,
            announced(before.recorded.state, commands.len() - 1),
            commands.last(),
        );
    }
}

/// The staging pre-pass prepares one belt slice for each command that takes one,
/// and one texture upload for each command that takes one.
pub proof fn prepass_stages_every_upload(tables: RecordTables, commands: Seq<GpuCommand>)
    requires
        stream_staging(tables, commands) is Ok,
    ensures
        belt_steps(stream_staging(tables, commands)->Ok_0) == belt_writes(tables, commands),
        stream_staging(tables, commands)->Ok_0.len() == belt_writes(tables, commands)
            + texture_uploads(commands),
    decreases commands.len(),
{
    if commands.len() > 0 {
        prepass_stages_every_upload(tables, commands.drop_last());
        let steps = stream_staging(tables, commands.drop_last())->Ok_0;
        let all = stream_staging(tables, commands)->Ok_0;
        if all.len() > steps.len() {
            assert(all.drop_last() =~= steps);
        }
    }
}

/// The same of a graph: its pre-pass is that of its compute commands.
pub proof fn graph_prepass_stages_every_upload(tables: RecordTables, commands: Seq<GraphCommand>)
    requires
        graph_staging(tables, commands) is Ok,
    ensures
        belt_steps(graph_staging(tables, commands)->Ok_0) == belt_writes(
            tables,
            compute_commands(commands),
        ),
        graph_staging(tables, commands)->Ok_0.len() == belt_writes(
            tables,
            compute_commands(commands),
        ) + texture_uploads(compute_commands(commands)),
    decreases commands.len(),
{
    if commands.len() > 0 {
        graph_prepass_stages_every_upload(tables, commands.drop_last());
        let steps = graph_staging(tables, commands.drop_last())->Ok_0;
        let all = graph_staging(tables, commands)->Ok_0;
        if all.len() > steps.len() {
            assert(all.drop_last() =~= steps);
        }
        match commands.last() {
            GraphCommand::Compute(cmd) => {
                let rest = compute_commands(commands.drop_last());
                assert(rest.push(cmd).drop_last() =~= rest);
            },
            GraphCommand::Render { .. } => {},
        }
    }
}

proof fn lemma_counts_monotonic(tables: RecordTables, commands: Seq<GpuCommand>, n: int)
    requires
        0 <= n <= commands.len(),
    ensures
        0 <= belt_writes(tables, commands.take(n)) <= belt_writes(tables, commands),
        0 <= texture_uploads(commands.take(n)) <= texture_uploads(commands),
    decreases commands.len(),
{
    if commands.len() == 0 {
        assert(commands.take(n) =~= commands);
    } else if n == commands.len() {
        assert(commands.take(n) =~= commands);
        lemma_counts_monotonic(tables, commands.drop_last(), n - 1);
        assert(commands.drop_last().take(n - 1) =~= commands.drop_last());
    } else {
        lemma_counts_monotonic(tables, commands.drop_last(), n);
        assert(commands.drop_last().take(n) =~= commands.take(n));
    }
}

/// A stream never runs out of staged uploads: where as many belt slices and texture
/// uploads were staged as it takes, recording does not fail for the lack of one.
pub proof fn staged_uploads_never_run_out(
    tables: RecordTables,
    inputs: RecordInputs,
    textures: Layouts,
    st: RecordView,
    commands: Seq<GpuCommand>,
)
    requires
        st.belt_idx == 0,
        st.texture_upload_idx == 0,
        inputs.belt_slices@.len() == belt_writes(tables, commands),
        inputs.staged_texture_uploads@.len() == texture_uploads(commands),
    ensures
        run_stream(tables, inputs, textures, st, commands).error != Some(
            RecordError::WriteBufferBeltSliceMissing,
        ),
        run_stream(tables, inputs, textures, st, commands).error != Some(
            RecordError::WriteTextureStagedUploadMissing,
        ),
{
    lemma_never_runs_out(tables, inputs, textures, st, commands, commands.len() as int);
    assert(commands.take(commands.len() as int) =~= commands);
}

proof fn lemma_never_runs_out(
    tables: RecordTables,
    inputs: RecordInputs,
    textures: Layouts,
    st: RecordView,
    commands: Seq<GpuCommand>,
    n: int,
)
    requires
        0 <= n <= commands.len(),
        st.belt_idx == 0,
        st.texture_upload_idx == 0,
        inputs.belt_slices@.len() == belt_writes(tables, commands),
        inputs.staged_texture_uploads@.len() == texture_uploads(commands),
    ensures
        run_stream(tables, inputs, textures, st, commands.take(n)).error != Some(
            RecordError::WriteBufferBeltSliceMissing,
        ),
        run_stream(tables, inputs, textures, st, commands.take(n)).error != Some(
            RecordError::WriteTextureStagedUploadMissing,
        ),
    decreases n,
{
    if n > 0 {
        lemma_never_runs_out(tables, inputs, textures, st, commands, n - 1);
        assert(commands.take(n).drop_last() =~= commands.take(n - 1));
        let before = run_stream(tables, inputs, textures, st, commands.take(n - 1));
        if before.error is None {
            recording_uses_every_staged_upload(
                tables,
                inputs,
                textures,
                st,
                commands.take(n - 1),
            );
            lemma_counts_monotonic(tables, commands, n);
        }
    }
}

// Pairing of stages and accesses.

proof fn lemma_issue_one_paired(b: Barrier)
    requires
        barrier_well_paired(b),
    ensures
        calls_well_paired(issue_one(b)),
{
}

proof fn lemma_issue_paired(barriers: Seq<Barrier>)
    requires
        forall|i: int| 0 <= i < barriers.len() ==> barrier_well_paired(#[trigger] barriers[i]),
    ensures
        calls_well_paired(issue(barriers)),
{
    if barriers.len() > 0 {
        let queued = barriers.map_values(|b: Barrier| Call::QueueBarrier(b));
        assert forall|i: int| 0 <= i < issue(barriers).len() implies (#[trigger] issue(
            barriers,
        )[i] matches Call::QueueBarrier(x) ==> barrier_well_paired(x)) by {
            if i < barriers.len() {
                assert(issue(barriers)[i] == Call::QueueBarrier(barriers[i]));
            }
        }
    }
}

proof fn lemma_batch_paired(
    layout: super::commands::PushLayoutInfo,
    args: Seq<u8>,
    count: int,
)
    ensures
        calls_well_paired(batch_calls(layout, args, count)),
    decreases count,
{
    if count > 0 {
        lemma_batch_paired(layout, args, count - 1);
        lemma_paired_concat(
            batch_calls(layout, args, count - 1),
            batch_entry(layout, args, count - 1),
        );
    }
}

proof fn lemma_global_entries_paired(
    buffers: Map<u64, BufferState>,
    entries: Seq<(u64, BarrierUsage)>,
)
    ensures
        calls_well_paired(global_entry_calls(buffers, entries)),
    decreases entries.len(),
{
    if entries.len() > 0 {
        lemma_global_entries_paired(buffers, entries.drop_last());
        let e = entries.last();
        lowered_buffer_usage_is_paired(e.1.src, false);
        lowered_buffer_usage_is_paired(e.1.dst, false);
        let b = Barrier::Global(global_entry_barrier(buffers, e));
        lemma_issue_one_paired(b);
        lemma_paired_concat(global_entry_calls(buffers, entries.drop_last()), issue_one(b));
    }
}

proof fn lemma_buffer_entries_paired(
    buffers: Map<u64, BufferState>,
    entries: Seq<(u64, BarrierUsage)>,
)
    ensures
        forall|i: int|
            0 <= i < buffer_entry_barriers(buffers, entries).len() ==> barrier_well_paired(
                #[trigger] buffer_entry_barriers(buffers, entries)[i],
            ),
    decreases entries.len(),
{
    if entries.len() > 0 {
        lemma_buffer_entries_paired(buffers, entries.drop_last());
        let (h, usage) = entries.last();
        if buffers.contains_key(h) {
            lowered_buffer_usage_is_paired(usage.src, buffers[h].is_storage);
            lowered_buffer_usage_is_paired(usage.dst, buffers[h].is_storage);
        }
        let rest = buffer_entry_barriers(buffers, entries.drop_last());
        let all = buffer_entry_barriers(buffers, entries);
        assert forall|i: int| 0 <= i < all.len() implies barrier_well_paired(#[trigger] all[i]) by {
            if i < rest.len() {
                assert(all[i] == rest[i]);
            }
        }
    }
}

proof fn lemma_texture_entries_paired(textures: Layouts, entries: Seq<(u64, BarrierUsage)>)
    ensures
        forall|i: int|
            0 <= i < texture_entry_barriers(textures, entries).len() ==> barrier_well_paired(
                #[trigger] texture_entry_barriers(textures, entries)[i],
            ),
    decreases entries.len(),
{
    if entries.len() > 0 {
        lemma_texture_entries_paired(textures, entries.drop_last());
        let rest = texture_entry_barriers(textures, entries.drop_last());
        let all = texture_entry_barriers(textures, entries);
        assert forall|i: int| 0 <= i < all.len() implies barrier_well_paired(#[trigger] all[i]) by {
            if i < rest.len() {
                assert(all[i] == rest[i]);
            }
        }
    }
}

/// No command puts a barrier on the list that pairs no stage with an access, or a
/// stage with no access.
pub proof fn recorded_barriers_are_paired(
    tables: RecordTables,
    inputs: RecordInputs,
    textures: Layouts,
    st: RecordView,
    cmd: GpuCommand,
)
    requires
        calls_well_paired(st.calls),
    ensures
        recorded(tables, inputs, textures, st, cmd) matches Ok(to) ==> calls_well_paired(
            to.state.calls,
        ),
{
    if recorded(tables, inputs, textures, st, cmd) is Ok {
        let to = recorded(tables, inputs, textures, st, cmd)->Ok_0;
        let added = to.state.calls.skip(st.calls.len() as int);
        assert(to.state.calls =~= st.calls + added);
        assert(calls_well_paired(added)) by {
            lemma_added_calls_are_paired(tables, inputs, textures, st, cmd);
        }
        lemma_paired_concat(st.calls, added);
    }
}

#[verifier::rlimit(40)]
proof fn lemma_added_calls_are_paired(
    tables: RecordTables,
    inputs: RecordInputs,
    textures: Layouts,
    st: RecordView,
    cmd: GpuCommand,
)
    requires
        recorded(tables, inputs, textures, st, cmd) is Ok,
    ensures
        calls_well_paired(
            recorded(tables, inputs, textures, st, cmd)->Ok_0.state.calls.skip(
                st.calls.len() as int,
            ),
        ),
{
    let to = recorded(tables, inputs, textures, st, cmd)->Ok_0;
    let added = to.state.calls.skip(st.calls.len() as int);
    match cmd {
        GpuCommand::DispatchBatch { label, arg_data, count } => {
            lemma_batch_paired(inputs.push_layout, arg_data@, count as int);
            let unrolled = batch_calls(inputs.push_layout, arg_data@, count as int);
            if !tables.devices@[inputs.device_handle].has_batch_dispatch_signature {
                assert(added =~= unrolled);
            }
        },
        GpuCommand::ResourceBarrier { buffers, textures: entries } => {
            lemma_texture_entries_paired(textures, entries@);
            let tex = texture_entry_barriers(textures, entries@);
            if inputs.use_global_buffer_barriers {
                lemma_global_entries_paired(tables.buffers@, buffers@);
                lemma_issue_paired(tex);
                let a = global_entry_calls(tables.buffers@, buffers@);
                lemma_paired_concat(a, issue(tex));
                assert(added =~= a + issue(tex));
            } else {
                lemma_buffer_entries_paired(tables.buffers@, buffers@);
                let all = buffer_entry_barriers(tables.buffers@, buffers@) + tex;
                assert forall|i: int| 0 <= i < all.len() implies barrier_well_paired(
                    #[trigger] all[i],
                ) by {
                    let n = buffer_entry_barriers(tables.buffers@, buffers@).len();
                    if i >= n {
                        assert(all[i] == tex[i - n]);
                    }
                }
                lemma_issue_paired(all);
                assert(added =~= issue(all));
            }
        },
        GpuCommand::ClearBuffer { buffer, offset, size } => {
            let b = tables.buffers@[buffer];
            let span = clear_span(b.size, offset, size);
            let zero = tables.devices@[inputs.device_handle].zero_buffer;
            let fill = zero_fill(b.resource, offset as int, zero, span as int);
            assert(calls_well_paired(fill));
            if span > 0 && b.is_storage {
                let head = added.take(2);
                assert(calls_well_paired(head));
                lemma_paired_concat(head, fill);
                assert(added =~= head + fill);
            }
        },
        GpuCommand::CopyTexture { src, dst } => {
            let s = textures[src];
            let d = textures[dst];
            let pre = seq![to_copy_source(s), to_copy_dest(d)];
            let post = seq![
                copied_to_shader(
                    s,
                    super::barriers::ACCESS_COPY_SOURCE,
                    super::barriers::LAYOUT_COPY_SOURCE,
                ),
                copied_to_shader(
                    d,
                    super::barriers::ACCESS_COPY_DEST,
                    super::barriers::LAYOUT_COPY_DEST,
                ),
            ];
            lemma_issue_paired(pre);
            lemma_issue_paired(post);
            let mid = issue(pre).push(Call::CopyResource { dst: d.resource, src: s.resource });
            lemma_paired_concat(mid, issue(post));
            assert(added =~= copy_texture_calls(s, d));
        },
        GpuCommand::CopyRenderTarget { src, dst } => {
            let calls = copy_render_target_calls(
                tables.render_targets@[src].texture,
                textures[dst],
            );
            assert(added =~= calls);
            assert(calls.len() == 7);
            assert(calls_well_paired(calls));
        },
        _ => {
            assert(calls_well_paired(added));
        },
    }
}

proof fn lemma_announcing_keeps_pairs(st: RecordView, index: int)
    requires
        calls_well_paired(st.calls),
    ensures
        calls_well_paired(announced(st, index).calls),
{
    lemma_paired_concat(st.calls, seq![Call::Command { command: index as usize }]);
}

/// Every barrier on a recorded command list pairs its stages and accesses.
pub proof fn stream_barriers_are_paired(
    tables: RecordTables,
    inputs: RecordInputs,
    textures: Layouts,
    st: RecordView,
    commands: Seq<GpuCommand>,
)
    requires
        calls_well_paired(st.calls),
    ensures
        calls_well_paired(run_stream(tables, inputs, textures, st, commands).recorded.state.calls),
    decreases commands.len(),
{
    if commands.len() > 0 {
        stream_barriers_are_paired(tables, inputs, textures, st, commands.drop_last());
        let before = run_stream(tables, inputs, textures, st, commands.drop_last());
        lemma_announcing_keeps_pairs(before.recorded.state, commands.len() - 1);
        recorded_barriers_are_paired(
            tables,
            inputs,
            before.recorded.textures,
            announced(before.recorded.state, commands.len() - 1),
            commands.last(),
        );
    }
}

proof fn lemma_list_barriers_are_paired(global: bool)
    ensures
        barrier_well_paired(Barrier::Global(tail_barrier())),
        barrier_well_paired(Barrier::Global(pre_render_barrier(global))),
{
    assert(0x80u32 | 0x200u32 == 0x280u32) by (bit_vector);
    assert(0x10u32 | 0x400u32 == 0x410u32) by (bit_vector);
    assert(0x40u32 | 0x20u32 | 0x8u32 | 0x10u32 == 0x78u32) by (bit_vector);
    assert(0x8u32 | 0x20u32 | 0x80u32 == 0xa8u32) by (bit_vector);
}

/// Every barrier on the list of a graph pairs its stages and accesses.
pub proof fn graph_barriers_are_paired(
    tables: RecordTables,
    inputs: RecordInputs,
    textures: Layouts,
    st: RecordView,
    commands: Seq<GraphCommand>,
)
    requires
        calls_well_paired(st.calls),
    ensures
        calls_well_paired(run_graph(tables, inputs, textures, st, commands).recorded.state.calls),
    decreases commands.len(),
{
    if commands.len() > 0 {
        graph_barriers_are_paired(tables, inputs, textures, st, commands.drop_last());
        let before = run_graph(tables, inputs, textures, st, commands.drop_last());
        let state = announced(before.recorded.state, commands.len() - 1);
        lemma_announcing_keeps_pairs(before.recorded.state, commands.len() - 1);
        match commands.last() {
            GraphCommand::Compute(cmd) => {
                recorded_barriers_are_paired(
                    tables,
                    inputs,
                    before.recorded.textures,
                    announced(before.recorded.state, commands.len() - 1),
                    cmd,
                );
            },
            GraphCommand::Render { target, commands: pass, stages_frame_table } => {
                lemma_list_barriers_are_paired(inputs.use_global_buffer_barriers);
                let calls = render_pass_calls(
                    tables,
                    inputs.use_global_buffer_barriers,
                    target,
                    (commands.len() - 1) as usize,
                    before.prologue_done,
                );
                assert(calls_well_paired(calls));
                lemma_paired_concat(state.calls, calls);
            },
        }
    }
}

/// The calls around a list pair their stages and accesses too.
pub proof fn list_ends_are_paired(timed: bool, queries: Option<u32>)
    ensures
        calls_well_paired(list_open(timed)),
        calls_well_paired(list_close(queries)),
{
    lemma_list_barriers_are_paired(false);
}

// What recorded commands do to memory.

/// The calls that recording a command adds to the list.
pub open spec fn added_calls(
    tables: RecordTables,
    inputs: RecordInputs,
    textures: Layouts,
    st: RecordView,
    cmd: GpuCommand,
) -> Seq<Call>
    recommends
        recorded(tables, inputs, textures, st, cmd) is Ok,
{
    recorded(tables, inputs, textures, st, cmd)->Ok_0.state.calls.skip(st.calls.len() as int)
}

proof fn lemma_barrier_then_copy(memory: Memory, barrier: Barrier, copy: Call)
    ensures
        run_calls(memory, issue_one(barrier).push(copy)) == apply(memory, copy),
{
    let calls = issue_one(barrier).push(copy);
    assert(calls.drop_last() =~= issue_one(barrier));
    reveal_with_fuel(run_calls, 4);
    assert(issue_one(barrier).drop_last() =~= seq![Call::QueueBarrier(barrier)]);
    assert(seq![Call::QueueBarrier(barrier)].drop_last() =~= Seq::<Call>::empty());
}

proof fn lemma_transition_moves_nothing(
    memory: Memory,
    resource: u64,
    before: ResourceState,
    after: ResourceState,
)
    ensures
        run_calls(memory, transition_calls(resource, before, after)) == memory,
{
    let calls = transition_calls(resource, before, after);
    reveal_with_fuel(run_calls, 3);
    if before != after {
        let barrier = calls[0];
        assert(calls.drop_last() =~= seq![barrier]);
        assert(seq![barrier].drop_last() =~= Seq::<Call>::empty());
    }
}

/// The copies that open a submission bring the staged words of its row to the row's
/// place in the device table and the row's index to the selector, and change nothing
/// else.
pub proof fn prologue_delivers_the_row(
    layout: FrameTableLayout,
    device_table: u64,
    selector: u64,
    staging: u64,
    words: int,
    row: u32,
    memory: Memory,
)
    requires
        layout.wf(),
        row < layout.max_rows,
        0 <= words,
        device_table != selector,
        device_table != staging,
        selector != staging,
    ensures
        run_calls(memory, prologue_calls(layout, device_table, selector, staging, words, row))
            == memory.insert(
            device_table,
            overwrite(
                memory[device_table],
                4 * row * layout.row_stride,
                memory[staging].subrange(
                    4 * layout.row_word(row),
                    4 * layout.row_word(row) + 4 * layout.fitting(words),
                ),
            ),
        ).insert(
            selector,
            overwrite(memory[selector], 0, memory[staging].subrange(4 * row, 4 * row + 4)),
        ),
{
    layout.row_fits(row);
    assert(4 * row * layout.row_stride == 4 * (row * layout.row_stride)) by (nonlinear_arith);
    let a = transition_calls(staging, ResourceState::GenericRead, ResourceState::CopySource);
    let b = transition_calls(device_table, ResourceState::Common, ResourceState::CopyDest);
    let c = transition_calls(selector, ResourceState::Common, ResourceState::CopyDest);
    let payload = payload_copy(layout, device_table, staging, words, row);
    let index = Call::CopyBufferRegion {
        dst: selector,
        dst_offset: 0,
        src: staging,
        src_offset: (4 * row) as u64,
        size: 4,
    };
    let d = transition_calls(device_table, ResourceState::CopyDest, ResourceState::UnorderedAccess);
    let e = transition_calls(selector, ResourceState::CopyDest, ResourceState::UnorderedAccess);
    let f = transition_calls(staging, ResourceState::CopySource, ResourceState::GenericRead);
    lemma_transition_moves_nothing(
        memory,
        staging,
        ResourceState::GenericRead,
        ResourceState::CopySource,
    );
    run_calls_in_a_row(memory, a, b);
    lemma_transition_moves_nothing(
        memory,
        device_table,
        ResourceState::Common,
        ResourceState::CopyDest,
    );
    run_calls_in_a_row(memory, a + b, c);
    lemma_transition_moves_nothing(
        memory,
        selector,
        ResourceState::Common,
        ResourceState::CopyDest,
    );
    let copies = seq![payload, index];
    run_calls_in_a_row(memory, a + b + c, copies);
    let copied = apply(apply(memory, payload), index);
    assert(run_calls(memory, copies) == copied) by {
        reveal_with_fuel(run_calls, 3);
        assert(copies.drop_last() =~= seq![payload]);
        assert(seq![payload].drop_last() =~= Seq::<Call>::empty());
    }
    run_calls_in_a_row(memory, a + b + c + copies, d);
    lemma_transition_moves_nothing(
        copied,
        device_table,
        ResourceState::CopyDest,
        ResourceState::UnorderedAccess,
    );
    run_calls_in_a_row(memory, a + b + c + copies + d, e);
    lemma_transition_moves_nothing(
        copied,
        selector,
        ResourceState::CopyDest,
        ResourceState::UnorderedAccess,
    );
    run_calls_in_a_row(memory, a + b + c + copies + d + e, f);
    lemma_transition_moves_nothing(
        copied,
        staging,
        ResourceState::CopySource,
        ResourceState::GenericRead,
    );
}

/// A recorded buffer copy moves exactly the bytes that it names, from the source's
/// upload buffer where the source is written by the host, and changes nothing else.
pub proof fn recorded_copy_moves_the_bytes(
    tables: RecordTables,
    inputs: RecordInputs,
    textures: Layouts,
    st: RecordView,
    src: u64,
    src_offset: u64,
    dst: u64,
    dst_offset: u64,
    size: u64,
    memory: Memory,
)
    requires
        recorded(
            tables,
            inputs,
            textures,
            st,
            GpuCommand::CopyBuffer { src, src_offset, dst, dst_offset, size },
        ) is Ok,
    ensures
        ({
            let cmd = GpuCommand::CopyBuffer { src, src_offset, dst, dst_offset, size };
            let s = tables.buffers@[src];
            let from = if s.flags.cpu_writable {
                s.upload_buffer->0
            } else {
                s.resource
            };
            let to = tables.buffers@[dst].resource;
            run_calls(memory, added_calls(tables, inputs, textures, st, cmd)) == memory.insert(
                to,
                overwrite(
                    memory[to],
                    dst_offset as int,
                    memory[from].subrange(src_offset as int, src_offset + size),
                ),
            )
        }),
{
    let cmd = GpuCommand::CopyBuffer { src, src_offset, dst, dst_offset, size };
    let s = tables.buffers@[src];
    let from = if s.flags.cpu_writable {
        s.upload_buffer->0
    } else {
        s.resource
    };
    let calls = copy_buffer_calls(
        inputs.use_global_buffer_barriers,
        from,
        s.flags.cpu_writable,
        src_offset,
        tables.buffers@[dst].resource,
        dst_offset,
        size,
    );
    assert(added_calls(tables, inputs, textures, st, cmd) =~= calls);
    assert(calls[0] is QueueBarrier);
    lemma_barrier_then_copy(memory, calls[0]->QueueBarrier_0, calls[2]);
    assert(calls =~= issue_one(calls[0]->QueueBarrier_0).push(calls[2]));
}

/// A recorded write to a storage buffer copies the staged bytes of its belt slice to
/// the offset, and changes nothing else.
pub proof fn recorded_write_copies_its_slice(
    tables: RecordTables,
    inputs: RecordInputs,
    textures: Layouts,
    st: RecordView,
    buffer: u64,
    offset: u64,
    data: Vec<u8>,
    memory: Memory,
)
    requires
        data@.len() <= u64::MAX,
        tables.buffers@.contains_key(buffer),
        tables.buffers@[buffer].is_storage,
        0 <= st.belt_idx < inputs.belt_slices@.len(),
    ensures
        ({
            let cmd = GpuCommand::WriteBuffer { buffer, offset, data };
            let slice = inputs.belt_slices@[st.belt_idx];
            let to = tables.buffers@[buffer].resource;
            &&& recorded(tables, inputs, textures, st, cmd) is Ok
            &&& run_calls(memory, added_calls(tables, inputs, textures, st, cmd))
                == memory.insert(
                to,
                overwrite(
                    memory[to],
                    offset as int,
                    memory[slice.resource].subrange(
                        slice.offset as int,
                        slice.offset + data@.len(),
                    ),
                ),
            )
        }),
{
    let cmd = GpuCommand::WriteBuffer { buffer, offset, data };
    let calls = staged_write_calls(
        inputs.use_global_buffer_barriers,
        tables.buffers@[buffer].resource,
        offset,
        inputs.belt_slices@[st.belt_idx],
        data@.len() as u64,
    );
    assert(added_calls(tables, inputs, textures, st, cmd) =~= calls);
    lemma_barrier_then_copy(memory, calls[0]->QueueBarrier_0, calls[2]);
    assert(calls =~= issue_one(calls[0]->QueueBarrier_0).push(calls[2]));
}

/// A recorded clear zeroes its range, to the end of the buffer where no size is
/// given, and changes nothing else.
pub proof fn recorded_clear_zeroes_the_range(
    tables: RecordTables,
    inputs: RecordInputs,
    textures: Layouts,
    st: RecordView,
    buffer: u64,
    offset: u64,
    size: u64,
    memory: Memory,
)
    requires
        recorded(
            tables,
            inputs,
            textures,
            st,
            GpuCommand::ClearBuffer { buffer, offset, size },
        ) is Ok,
        ({
            let b = tables.buffers@[buffer];
            let zero = tables.devices@[inputs.device_handle].zero_buffer;
            &&& memory.contains_key(b.resource)
            &&& offset + clear_span(b.size, offset, size) <= memory[b.resource].len()
            &&& offset + clear_span(b.size, offset, size) <= u64::MAX
            &&& b.is_storage ==> is_zero_buffer(memory, zero) && b.resource != zero
        }),
    ensures
        ({
            let cmd = GpuCommand::ClearBuffer { buffer, offset, size };
            let b = tables.buffers@[buffer];
            run_calls(memory, added_calls(tables, inputs, textures, st, cmd)) == memory.insert(
                b.resource,
                overwrite(
                    memory[b.resource],
                    offset as int,
                    zeros(clear_span(b.size, offset, size) as int),
                ),
            )
        }),
{
    let cmd = GpuCommand::ClearBuffer { buffer, offset, size };
    let b = tables.buffers@[buffer];
    let zero = tables.devices@[inputs.device_handle].zero_buffer;
    let span = clear_span(b.size, offset, size);
    let calls = clear_calls(inputs.use_global_buffer_barriers, zero, b, offset, size);
    assert(added_calls(tables, inputs, textures, st, cmd) =~= calls);
    if span == 0 {
        assert(overwrite(memory[b.resource], offset as int, zeros(0)) =~= memory[b.resource]);
        assert(memory.insert(b.resource, memory[b.resource]) =~= memory);
    } else if b.is_storage {
        let fill = zero_fill(b.resource, offset as int, zero, span as int);
        let head = calls.take(2);
        assert(calls =~= head + fill);
        run_calls_in_a_row(memory, head, fill);
        reveal_with_fuel(run_calls, 3);
        assert(head.drop_last() =~= seq![head[0]]);
        assert(seq![head[0]].drop_last() =~= Seq::<Call>::empty());
        assert(run_calls(memory, head) == memory);
        zero_fill_zeroes_the_range(memory, b.resource, offset as int, zero, span as int);
    } else {
        assert(calls.drop_last() =~= Seq::<Call>::empty());
        reveal_with_fuel(run_calls, 2);
    }
}

/// Every staged upload of a graph is used by its recording.
pub proof fn graph_recording_uses_every_staged_upload(
    tables: RecordTables,
    inputs: RecordInputs,
    textures: Layouts,
    st: RecordView,
    commands: Seq<GraphCommand>,
)
    requires
        run_graph(tables, inputs, textures, st, commands).error is None,
    ensures
        run_graph(tables, inputs, textures, st, commands).recorded.state.belt_idx == st.belt_idx
            + belt_writes(tables, compute_commands(commands)),
        run_graph(tables, inputs, textures, st, commands).recorded.state.texture_upload_idx
            == st.texture_upload_idx + texture_uploads(compute_commands(commands)),
    decreases commands.len(),
{
    if commands.len() > 0 {
        let before = run_graph(tables, inputs, textures, st, commands.drop_last());
        graph_recording_uses_every_staged_upload(
            tables,
            inputs,
            textures,
            st,
            commands.drop_last(),
        );
        match commands.last() {
            GraphCommand::Compute(cmd) => {
                lemma_recorded_counts(
                    tables,
                    inputs,
                    before.recorded.textures,
                    announced(before.recorded.state, commands.len() - 1),
                    cmd,
                );
                let rest = compute_commands(commands.drop_last());
                assert(rest.push(cmd).drop_last() =~= rest);
            },
            GraphCommand::Render { .. } => {},
        }
    }
}

/// A graph never runs out of staged uploads: where as many belt slices and texture
/// uploads were staged as its compute commands take, recording does not fail for the
/// lack of one.
pub proof fn graph_staged_uploads_never_run_out(
    tables: RecordTables,
    inputs: RecordInputs,
    textures: Layouts,
    st: RecordView,
    commands: Seq<GraphCommand>,
)
    requires
        st.belt_idx == 0,
        st.texture_upload_idx == 0,
        inputs.belt_slices@.len() == belt_writes(tables, compute_commands(commands)),
        inputs.staged_texture_uploads@.len() == texture_uploads(compute_commands(commands)),
    ensures
        run_graph(tables, inputs, textures, st, commands).error != Some(
            RecordError::WriteBufferBeltSliceMissing,
        ),
        run_graph(tables, inputs, textures, st, commands).error != Some(
            RecordError::WriteTextureStagedUploadMissing,
        ),
{
    lemma_graph_never_runs_out(tables, inputs, textures, st, commands, commands.len() as int);
    assert(commands.take(commands.len() as int) =~= commands);
}

proof fn lemma_graph_counts_monotonic(tables: RecordTables, commands: Seq<GraphCommand>, n: int)
    requires
        0 <= n <= commands.len(),
    ensures
        belt_writes(tables, compute_commands(commands.take(n))) <= belt_writes(
            tables,
            compute_commands(commands),
        ),
        texture_uploads(compute_commands(commands.take(n))) <= texture_uploads(
            compute_commands(commands),
        ),
    decreases commands.len() - n,
{
    if n == commands.len() {
        assert(commands.take(n) =~= commands);
    } else {
        lemma_graph_counts_monotonic(tables, commands, n + 1);
        assert(commands.take(n + 1).drop_last() =~= commands.take(n));
        let rest = compute_commands(commands.take(n));
        match commands[n] {
            GraphCommand::Compute(cmd) => {
                assert(rest.push(cmd).drop_last() =~= rest);
            },
            GraphCommand::Render { .. } => {},
        }
    }
}

proof fn lemma_graph_never_runs_out(
    tables: RecordTables,
    inputs: RecordInputs,
    textures: Layouts,
    st: RecordView,
    commands: Seq<GraphCommand>,
    n: int,
)
    requires
        0 <= n <= commands.len(),
        st.belt_idx == 0,
        st.texture_upload_idx == 0,
        inputs.belt_slices@.len() == belt_writes(tables, compute_commands(commands)),
        inputs.staged_texture_uploads@.len() == texture_uploads(compute_commands(commands)),
    ensures
        run_graph(tables, inputs, textures, st, commands.take(n)).error != Some(
            RecordError::WriteBufferBeltSliceMissing,
        ),
        run_graph(tables, inputs, textures, st, commands.take(n)).error != Some(
            RecordError::WriteTextureStagedUploadMissing,
        ),
    decreases n,
{
    if n > 0 {
        lemma_graph_never_runs_out(tables, inputs, textures, st, commands, n - 1);
        assert(commands.take(n).drop_last() =~= commands.take(n - 1));
        let before = run_graph(tables, inputs, textures, st, commands.take(n - 1));
        if before.error is None {
            graph_recording_uses_every_staged_upload(
                tables,
                inputs,
                textures,
                st,
                commands.take(n - 1),
            );
            lemma_graph_counts_monotonic(tables, commands, n);
            let rest = compute_commands(commands.take(n - 1));
            match commands[n - 1] {
                GraphCommand::Compute(cmd) => {
                    assert(rest.push(cmd).drop_last() =~= rest);
                },
                GraphCommand::Render { .. } => {},
            }
        }
    }
}

} // verus!
