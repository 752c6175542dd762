//! Whole command lists: streams and graphs recorded command by command between
//! the calls that open and close a list.

use std::collections::HashMap;
use vstd::prelude::*;

use super::barriers::{
    full_texture_barrier, texture_barrier_full, Barrier, GlobalBarrier, ACCESS_COMMON,
    ACCESS_COPY_DEST, ACCESS_DEPTH_STENCIL_READ, ACCESS_DEPTH_STENCIL_WRITE, ACCESS_RENDER_TARGET,
    ACCESS_SHADER_RESOURCE, ACCESS_UNORDERED_ACCESS, LAYOUT_DEPTH_STENCIL_READ,
    LAYOUT_DEPTH_STENCIL_WRITE, SYNC_ALL, SYNC_COMPUTE_SHADING, SYNC_COPY, SYNC_DEPTH_STENCIL,
    SYNC_PIXEL_SHADING, SYNC_RENDER_TARGET, SYNC_VERTEX_SHADING,
};
use super::command_list::{issue_barrier, issue_one, Call};
use super::commands::{GpuCommand, GraphCommand};
use super::context::DeferredSlot;
use super::frame_table::{
    extract_staging_from_commands, extract_staging_from_graph, graph_stages_frame_table,
    stages_frame_table,
};
use super::record::{
    full_global_barrier, recordable, recorded, warp_full_global_barrier, Layouts, RecordError,
    RecordInputs, RecordView, Recorded, Recorder,
};
use super::submit::{
    collect_bindless_slots_from_gpu_commands, collect_bindless_slots_from_graph_commands,
    graph_slots, stream_slots,
};
use super::types::{RecordTables, RenderTargetState, TextureState};

verus! {

broadcast use vstd::std_specs::hash::group_hash_axioms;

/// How far a recording has come, and why it stopped if it did.
#[verifier::ext_equal]
pub struct Run {
    pub recorded: Recorded,
    pub error: Option<RecordError>,
}

/// The state with the command at an index announced on the list.
pub open spec fn announced(st: RecordView, index: int) -> RecordView {
    st.with_calls(seq![Call::Command { command: index as usize }])
}

/// Announces the command at an index on the list.
fn announce(recorder: &mut Recorder, index: usize)
    ensures
        final(recorder)@ == announced(old(recorder)@, index as int),
{
    recorder.calls.push(Call::Command { command: index });
    assert(recorder@ =~= announced(old(recorder)@, index as int));
}

/// The recording of a command stream: command after command, each announced by its
/// index, up to the first that cannot be recorded.
pub open spec fn run_stream(
    tables: RecordTables,
    inputs: RecordInputs,
    textures: Layouts,
    st: RecordView,
    commands: Seq<GpuCommand>,
) -> Run
    decreases commands.len(),
{
    if commands.len() == 0 {
        Run { recorded: Recorded { state: st, textures }, error: None }
    } else {
        let before = run_stream(tables, inputs, textures, st, commands.drop_last());
        if before.error is Some {
            before
        } else {
            let state = announced(before.recorded.state, commands.len() - 1);
            match recorded(tables, inputs, before.recorded.textures, state, commands.last()) {
                Ok(to) => Run { recorded: to, error: None },
                Err(e) => Run {
                    recorded: Recorded { state, textures: before.recorded.textures },
                    error: Some(e),
                },
            }
        }
    }
}

proof fn lemma_stream_stops(
    tables: RecordTables,
    inputs: RecordInputs,
    textures: Layouts,
    st: RecordView,
    commands: Seq<GpuCommand>,
    n: int,
)
    requires
        0 <= n <= commands.len(),
        run_stream(tables, inputs, textures, st, commands.take(n)).error is Some,
    ensures
        run_stream(tables, inputs, textures, st, commands) == run_stream(
            tables,
            inputs,
            textures,
            st,
            commands.take(n),
        ),
    decreases commands.len() - n,
{
    if n < commands.len() {
        assert(commands.take(n + 1).drop_last() =~= commands.take(n));
        lemma_stream_stops(tables, inputs, textures, st, commands, n + 1);
    } else {
        assert(commands.take(n) =~= commands);
    }
}

/// A command that was recorded times at most one dispatch and makes at most one
/// argument buffer.
proof fn lemma_one_command_grows_little(
    tables: RecordTables,
    inputs: RecordInputs,
    textures: Layouts,
    st: RecordView,
    cmd: GpuCommand,
)
    ensures
        recorded(tables, inputs, textures, st, cmd) matches Ok(to) ==> to.state.dispatch_idx
            <= st.dispatch_idx + 1 && to.state.argument_buffers <= st.argument_buffers + 1,
{
}

/// Every command of a stream can be recorded within the machine's limits.
pub open spec fn stream_recordable(
    tables: RecordTables,
    inputs: RecordInputs,
    commands: Seq<GpuCommand>,
) -> bool {
    &&& commands.len() < 0x7fff_0000
    &&& inputs.push_layout.wf()
    &&& forall|i: int|
        0 <= i < commands.len() ==> recordable(tables, inputs, #[trigger] commands[i])
}

/// Every compute command of a graph can be recorded within the machine's limits.
pub open spec fn graph_recordable(
    tables: RecordTables,
    inputs: RecordInputs,
    commands: Seq<GraphCommand>,
) -> bool {
    &&& commands.len() < 0x7fff_0000
    &&& inputs.push_layout.wf()
    &&& forall|i: int|
        0 <= i < commands.len() ==> (#[trigger] commands[i] matches GraphCommand::Compute(c)
            ==> recordable(tables, inputs, c))
}

fn can_record(tables: &RecordTables, inputs: &RecordInputs, cmd: &GpuCommand) -> (can: bool)
    requires
        inputs.push_layout.wf(),
    ensures
        can == recordable(*tables, *inputs, *cmd),
{
    match cmd {
        GpuCommand::DispatchBatch { label: _, arg_data, count } => {
            let unrolled: bool = match tables.devices.get(&inputs.device_handle) {
                Some(device) => !device.has_batch_dispatch_signature,
                None => false,
            };
            if !unrolled || *count == 0 {
                return true;
            }
            let before: u64 = *count as u64 - 1;
            let stride: u64 = inputs.push_layout.stride as u64;
            assert(0 <= before * stride <= 0xffff_ffff * 0x1_0000) by (nonlinear_arith)
                requires
                    0 <= before <= 0xffff_ffff,
                    0 <= stride <= 0x1_0000,
            ;
            before * stride + inputs.push_layout.size as u64 + 12 <= arg_data.len() as u64
        },
        GpuCommand::ClearBuffer { buffer, offset, size } => !tables.buffers.contains_key(buffer)
            || *offset <= u64::MAX - *size,
        _ => true,
    }
}

/// Whether a command stream can be recorded within the machine's limits.
pub fn can_record_stream(
    tables: &RecordTables,
    inputs: &RecordInputs,
    commands: &Vec<GpuCommand>,
) -> (can: bool)
    ensures
        can == stream_recordable(*tables, *inputs, commands@),
{
    if commands.len() >= 0x7fff_0000 || !inputs.push_layout.is_consistent() {
        return false;
    }
    let mut i: usize = 0;
    while i < commands.len()
        invariant
            i <= commands.len(),
            inputs.push_layout.wf(),
            forall|j: int| 0 <= j < i ==> recordable(*tables, *inputs, #[trigger] commands@[j]),
        decreases commands.len() - i,
    {
        if !can_record(tables, inputs, &commands[i]) {
            assert(!recordable(*tables, *inputs, commands@[i as int]));
            return false;
        }
        i += 1;
    }
    true
}

/// Whether a graph can be recorded within the machine's limits.
pub fn can_record_graph(
    tables: &RecordTables,
    inputs: &RecordInputs,
    commands: &Vec<GraphCommand>,
) -> (can: bool)
    ensures
        can == graph_recordable(*tables, *inputs, commands@),
{
    if commands.len() >= 0x7fff_0000 || !inputs.push_layout.is_consistent() {
        return false;
    }
    let mut i: usize = 0;
    while i < commands.len()
        invariant
            i <= commands.len(),
            inputs.push_layout.wf(),
            forall|j: int|
                0 <= j < i ==> (#[trigger] commands@[j] matches GraphCommand::Compute(c)
                    ==> recordable(*tables, *inputs, c)),
        decreases commands.len() - i,
    {
        match &commands[i] {
            GraphCommand::Compute(command) => {
                if !can_record(tables, inputs, command) {
                    assert(commands@[i as int] == GraphCommand::Compute(*command));
                    return false;
                }
            },
            _ => {},
        }
        i += 1;
    }
    true
}

/// Records a command stream.
pub fn record_stream(
    recorder: &mut Recorder,
    tables: &RecordTables,
    inputs: &RecordInputs,
    textures: &mut HashMap<u64, TextureState>,
    commands: &Vec<GpuCommand>,
) -> (result: Result<(), RecordError>)
    requires
        stream_recordable(*tables, *inputs, commands@),
        old(recorder)@.dispatch_idx == 0,
        old(recorder)@.argument_buffers == 0,
    ensures
        ({
            let run = run_stream(
                *tables,
                *inputs,
                old(textures)@,
                old(recorder)@,
                commands@,
            );
            &&& final(recorder)@ == run.recorded.state
            &&& final(textures)@ == run.recorded.textures
            &&& match run.error {
                None => result is Ok,
                Some(e) => result == Err::<(), RecordError>(e),
            }
        }),
{
    let ghost st = recorder@;
    let ghost layouts = textures@;
    let mut i: usize = 0;
    while i < commands.len()
        invariant
            i <= commands.len(),
            st == old(recorder)@,
            layouts == old(textures)@,
            stream_recordable(*tables, *inputs, commands@),
            recorder@.dispatch_idx <= i,
            recorder@.argument_buffers <= i,
            run_stream(*tables, *inputs, layouts, st, commands@.take(i as int)) == (Run {
                recorded: Recorded { state: recorder@, textures: textures@ },
                error: None,
            }),
        decreases commands.len() - i,
    {
        assert(commands@.take(i + 1).drop_last() =~= commands@.take(i as int));
        announce(recorder, i);
        proof {
            lemma_one_command_grows_little(
                *tables,
                *inputs,
                textures@,
                recorder@,
                commands@[i as int],
            );
        }
        match recorder.record_gpu_command(tables, inputs, textures, &commands[i]) {
            Ok(_) => {},
            Err(e) => {
                proof {
                    lemma_stream_stops(*tables, *inputs, layouts, st, commands@, i + 1);
                }
                return Err(e);
            },
        }
        i += 1;
    }
    assert(commands@.take(i as int) =~= commands@);
    Ok(())
}

/// Calls that open a list: descriptor heaps, then the first timestamp where the
/// list is timed.
pub open spec fn list_open(timed: bool) -> Seq<Call> {
    if timed {
        seq![Call::SetDescriptorHeaps, Call::EndQuery { index: 0 }]
    } else {
        seq![Call::SetDescriptorHeaps]
    }
}

/// The barrier that makes the writes of a list visible to whatever follows.
pub open spec fn tail_barrier() -> GlobalBarrier {
    GlobalBarrier {
        sync_before: SYNC_COMPUTE_SHADING | SYNC_COPY,
        sync_after: SYNC_ALL,
        access_before: ACCESS_UNORDERED_ACCESS | ACCESS_COPY_DEST,
        access_after: ACCESS_COMMON,
    }
}

/// Calls that close a list: the tail barrier, then the last timestamp and the
/// resolution of all of them where the list is timed.
pub open spec fn list_close(queries: Option<u32>) -> Seq<Call> {
    match queries {
        Some(count) => issue_one(Barrier::Global(tail_barrier())) + seq![
            Call::EndQuery { index: 1 },
            Call::ResolveQueries { count },
        ],
        None => issue_one(Barrier::Global(tail_barrier())),
    }
}

fn open_list(recorder: &mut Recorder, timed: bool)
    ensures
        final(recorder)@ == old(recorder)@.with_calls(list_open(timed)),
{
    recorder.calls.push(Call::SetDescriptorHeaps);
    if timed {
        recorder.calls.push(Call::EndQuery { index: 0 });
    }
    assert(recorder@ =~= old(recorder)@.with_calls(list_open(timed)));
}

fn close_list(recorder: &mut Recorder, queries: Option<u32>)
    ensures
        final(recorder)@ == old(recorder)@.with_calls(list_close(queries)),
{
    issue_barrier(
        &mut recorder.calls,
        Barrier::Global(
            GlobalBarrier {
                sync_before: SYNC_COMPUTE_SHADING | SYNC_COPY,
                sync_after: SYNC_ALL,
                access_before: ACCESS_UNORDERED_ACCESS | ACCESS_COPY_DEST,
                access_after: ACCESS_COMMON,
            },
        ),
    );
    match queries {
        Some(count) => {
            recorder.calls.push(Call::EndQuery { index: 1 });
            recorder.calls.push(Call::ResolveQueries { count });
        },
        None => {},
    }
    assert(recorder@ =~= old(recorder)@.with_calls(list_close(queries)));
}

/// A recorded list and what its submission needs to know of it.
pub struct RecordedList {
    pub recorder: Recorder,
    /// The descriptors it uses.
    pub used_slots: Vec<DeferredSlot>,
    /// The command that stages its frame table.
    pub staging_command: Option<usize>,
    /// The render targets it renders to, in order.
    pub rendered_targets: Vec<u64>,
}

/// `first` is the first command that stages a frame table.
pub open spec fn first_staging(commands: Seq<GpuCommand>, first: Option<usize>) -> bool {
    match first {
        Some(i) => i < commands.len() && stages_frame_table(commands[i as int]) && forall|j: int|
            0 <= j < i ==> !#[trigger] stages_frame_table(commands[j]),
        None => forall|j: int|
            0 <= j < commands.len() ==> !#[trigger] stages_frame_table(commands[j]),
    }
}

/// `first` is the first command of a graph that stages a frame table.
pub open spec fn first_graph_staging(commands: Seq<GraphCommand>, first: Option<usize>) -> bool {
    match first {
        Some(i) => i < commands.len() && graph_stages_frame_table(commands[i as int])
            && forall|j: int| 0 <= j < i ==> !#[trigger] graph_stages_frame_table(commands[j]),
        None => forall|j: int|
            0 <= j < commands.len() ==> !#[trigger] graph_stages_frame_table(commands[j]),
    }
}

/// Records the list of a command stream. `queries` is the number of timestamps
/// where the list is timed.
pub fn submit_with_scope(
    tables: &RecordTables,
    inputs: &RecordInputs,
    textures: &mut HashMap<u64, TextureState>,
    commands: &Vec<GpuCommand>,
    queries: Option<u32>,
) -> (result: Result<RecordedList, RecordError>)
    requires
        stream_recordable(*tables, *inputs, commands@),
        inputs.profiling == (queries is Some),
    ensures
        ({
            let run = run_stream(
                *tables,
                *inputs,
                old(textures)@,
                RecordView::start().with_calls(list_open(queries is Some)),
                commands@,
            );
            &&& final(textures)@ == run.recorded.textures
            &&& match run.error {
                Some(e) => result == Err::<RecordedList, RecordError>(e),
                None => {
                    &&& result matches Ok(list)
                    &&& list.recorder@ == run.recorded.state.with_calls(list_close(queries))
                    &&& list.used_slots@ == stream_slots(inputs.push_layout, commands@)
                    &&& first_staging(commands@, list.staging_command)
                    &&& list.rendered_targets@ == Seq::<u64>::empty()
                },
            }
        }),
{
    let staging_command = extract_staging_from_commands(commands);
    let mut recorder = Recorder::new();
    open_list(&mut recorder, queries.is_some());
    match record_stream(&mut recorder, tables, inputs, textures, commands) {
        Ok(_) => {},
        Err(e) => {
            return Err(e);
        },
    }
    close_list(&mut recorder, queries);
    let used_slots = collect_bindless_slots_from_gpu_commands(&inputs.push_layout, commands);
    Ok(RecordedList { recorder, used_slots, staging_command, rendered_targets: Vec::new() })
}

/// How far the recording of a graph has come.
#[verifier::ext_equal]
pub struct GraphRun {
    pub recorded: Recorded,
    /// The list has copied the frame table to the device already.
    pub prologue_done: bool,
    pub rendered_targets: Seq<u64>,
    pub error: Option<RecordError>,
}

/// The barrier before a render pass: from compute and copy writes to what a pass
/// reads and writes, or on everything where buffer barriers are not used.
pub open spec fn pre_render_barrier(global: bool) -> GlobalBarrier {
    if global {
        full_global_barrier()
    } else {
        GlobalBarrier {
            sync_before: SYNC_COMPUTE_SHADING | SYNC_COPY,
            sync_after: SYNC_RENDER_TARGET | SYNC_DEPTH_STENCIL | SYNC_VERTEX_SHADING
                | SYNC_PIXEL_SHADING,
            access_before: ACCESS_UNORDERED_ACCESS | ACCESS_COPY_DEST,
            access_after: ACCESS_RENDER_TARGET | ACCESS_DEPTH_STENCIL_WRITE
                | ACCESS_SHADER_RESOURCE,
        }
    }
}

/// The barrier after a render pass on a depth texture: readable again.
pub open spec fn depth_readable(depth: u64) -> Barrier {
    Barrier::Texture(
        full_texture_barrier(
            depth,
            SYNC_DEPTH_STENCIL,
            SYNC_ALL,
            ACCESS_DEPTH_STENCIL_WRITE,
            ACCESS_DEPTH_STENCIL_READ,
            LAYOUT_DEPTH_STENCIL_WRITE,
            LAYOUT_DEPTH_STENCIL_READ,
        ),
    )
}

/// Calls of a render pass in a graph.
pub open spec fn render_pass_calls(
    tables: RecordTables,
    global: bool,
    target: u64,
    command: usize,
    prologue_done: bool,
) -> Seq<Call> {
    let pass = issue_one(Barrier::Global(pre_render_barrier(global))).push(
        Call::RenderPass { target, command, prologue_done },
    );
    if tables.render_targets@.contains_key(target)
        && tables.render_targets@[target].depth_texture is Some {
        pass + issue_one(depth_readable(tables.render_targets@[target].depth_texture->0))
    } else {
        pass
    }
}

/// The recording of a graph.
pub open spec fn run_graph(
    tables: RecordTables,
    inputs: RecordInputs,
    textures: Layouts,
    st: RecordView,
    commands: Seq<GraphCommand>,
) -> GraphRun
    decreases commands.len(),
{
    if commands.len() == 0 {
        GraphRun {
            recorded: Recorded { state: st, textures },
            prologue_done: false,
            rendered_targets: Seq::empty(),
            error: None,
        }
    } else {
        let before = run_graph(tables, inputs, textures, st, commands.drop_last());
        if before.error is Some {
            before
        } else {
            let state = announced(before.recorded.state, commands.len() - 1);
            match commands.last() {
                GraphCommand::Compute(cmd) => match recorded(
                    tables,
                    inputs,
                    before.recorded.textures,
                    state,
                    cmd,
                ) {
                    Ok(to) => GraphRun {
                        recorded: to,
                        prologue_done: before.prologue_done || stages_frame_table(cmd),
                        ..before
                    },
                    Err(e) => GraphRun {
                        recorded: Recorded { state, textures: before.recorded.textures },
                        error: Some(e),
                        ..before
                    },
                },
                GraphCommand::Render { target, commands: pass, stages_frame_table } => GraphRun {
                    recorded: Recorded {
                        state: state.with_calls(
                            render_pass_calls(
                                tables,
                                inputs.use_global_buffer_barriers,
                                target,
                                (commands.len() - 1) as usize,
                                before.prologue_done,
                            ),
                        ),
                        textures: before.recorded.textures,
                    },
                    prologue_done: before.prologue_done || stages_frame_table,
                    rendered_targets: before.rendered_targets.push(target),
                    error: None,
                },
            }
        }
    }
}

proof fn lemma_graph_stops(
    tables: RecordTables,
    inputs: RecordInputs,
    textures: Layouts,
    st: RecordView,
    commands: Seq<GraphCommand>,
    n: int,
)
    requires
        0 <= n <= commands.len(),
        run_graph(tables, inputs, textures, st, commands.take(n)).error is Some,
    ensures
        run_graph(tables, inputs, textures, st, commands) == run_graph(
            tables,
            inputs,
            textures,
            st,
            commands.take(n),
        ),
    decreases commands.len() - n,
{
    if n < commands.len() {
        assert(commands.take(n + 1).drop_last() =~= commands.take(n));
        lemma_graph_stops(tables, inputs, textures, st, commands, n + 1);
    } else {
        assert(commands.take(n) =~= commands);
    }
}

fn record_render_pass(
    recorder: &mut Recorder,
    tables: &RecordTables,
    global: bool,
    target: u64,
    command: usize,
    prologue_done: bool,
)
    ensures
        final(recorder)@ == old(recorder)@.with_calls(
            render_pass_calls(*tables, global, target, command, prologue_done),
        ),
{
    let barrier = if global {
        warp_full_global_barrier()
    } else {
        GlobalBarrier {
            sync_before: SYNC_COMPUTE_SHADING | SYNC_COPY,
            sync_after: SYNC_RENDER_TARGET | SYNC_DEPTH_STENCIL | SYNC_VERTEX_SHADING
                | SYNC_PIXEL_SHADING,
            access_before: ACCESS_UNORDERED_ACCESS | ACCESS_COPY_DEST,
            access_after: ACCESS_RENDER_TARGET | ACCESS_DEPTH_STENCIL_WRITE
                | ACCESS_SHADER_RESOURCE,
        }
    };
    issue_barrier(&mut recorder.calls, Barrier::Global(barrier));
    recorder.calls.push(Call::RenderPass { target, command, prologue_done });
    match tables.render_targets.get(&target) {
        Some(rt) => match rt.depth_texture {
            Some(depth) => {
                let b = texture_barrier_full(
                    depth,
                    SYNC_DEPTH_STENCIL,
                    SYNC_ALL,
                    ACCESS_DEPTH_STENCIL_WRITE,
                    ACCESS_DEPTH_STENCIL_READ,
                    LAYOUT_DEPTH_STENCIL_WRITE,
                    LAYOUT_DEPTH_STENCIL_READ,
                );
                issue_barrier(&mut recorder.calls, Barrier::Texture(b));
            },
            None => {},
        },
        None => {},
    }
    assert(recorder@ =~= old(recorder)@.with_calls(
        render_pass_calls(*tables, global, target, command, prologue_done),
    ));
}

/// Records the list of a mixed compute and render graph. `queries` is the number of
/// timestamps where the list is timed.
pub fn submit_graph_with_scope(
    tables: &RecordTables,
    inputs: &RecordInputs,
    textures: &mut HashMap<u64, TextureState>,
    commands: &Vec<GraphCommand>,
    queries: Option<u32>,
) -> (result: Result<RecordedList, RecordError>)
    requires
        graph_recordable(*tables, *inputs, commands@),
        inputs.profiling == (queries is Some),
    ensures
        ({
            let run = run_graph(
                *tables,
                *inputs,
                old(textures)@,
                RecordView::start().with_calls(list_open(queries is Some)),
                commands@,
            );
            &&& final(textures)@ == run.recorded.textures
            &&& match run.error {
                Some(e) => result == Err::<RecordedList, RecordError>(e),
                None => {
                    &&& result matches Ok(list)
                    &&& list.recorder@ == run.recorded.state.with_calls(list_close(queries))
                    &&& list.used_slots@ == graph_slots(
                        inputs.push_layout,
                        tables.buffers@,
                        commands@,
                    )
                    &&& first_graph_staging(commands@, list.staging_command)
                    &&& list.rendered_targets@ == run.rendered_targets
                },
            }
        }),
{
    let staging_command = extract_staging_from_graph(commands);
    let mut recorder = Recorder::new();
    open_list(&mut recorder, queries.is_some());
    let ghost st = recorder@;
    let ghost layouts = textures@;
    let mut rendered_targets: Vec<u64> = Vec::new();
    let mut prologue_done = false;
    let mut i: usize = 0;
    while i < commands.len()
        invariant
            i <= commands.len(),
            st == RecordView::start().with_calls(list_open(queries is Some)),
            layouts == old(textures)@,
            graph_recordable(*tables, *inputs, commands@),
            recorder@.dispatch_idx <= i,
            recorder@.argument_buffers <= i,
            run_graph(*tables, *inputs, layouts, st, commands@.take(i as int)) == (GraphRun {
                recorded: Recorded { state: recorder@, textures: textures@ },
                prologue_done,
                rendered_targets: rendered_targets@,
                error: None,
            }),
        decreases commands.len() - i,
    {
        assert(commands@.take(i + 1).drop_last() =~= commands@.take(i as int));
        announce(&mut recorder, i);
        match &commands[i] {
            GraphCommand::Compute(cmd) => {
                proof {
                    lemma_one_command_grows_little(*tables, *inputs, textures@, recorder@, *cmd);
                }
                match recorder.record_gpu_command(tables, inputs, textures, cmd) {
                    Ok(_) => {},
                    Err(e) => {
                        proof {
                            lemma_graph_stops(*tables, *inputs, layouts, st, commands@, i + 1);
                        }
                        return Err(e);
                    },
                }
                match cmd {
                    GpuCommand::FrameTableStaging { .. } => {
                        prologue_done = true;
                    },
                    _ => {},
                }
            },
            GraphCommand::Render { target, commands: _, stages_frame_table } => {
                record_render_pass(
                    &mut recorder,
                    tables,
                    inputs.use_global_buffer_barriers,
                    *target,
                    i,
                    prologue_done,
                );
                prologue_done = prologue_done || *stages_frame_table;
                rendered_targets.push(*target);
            },
        }
        i += 1;
    }
    assert(commands@.take(i as int) =~= commands@);
    close_list(&mut recorder, queries);
    let used_slots = collect_bindless_slots_from_graph_commands(
        &inputs.push_layout,
        &tables.buffers,
        commands,
    );
    Ok(RecordedList { recorder, used_slots, staging_command, rendered_targets })
}

/// The render targets once those in the list have been rendered to.
pub open spec fn marked_rendered(
    targets: Map<u64, RenderTargetState>,
    rendered: Seq<u64>,
) -> Map<u64, RenderTargetState> {
    Map::new(
        |t: u64| targets.contains_key(t),
        |t: u64|
            RenderTargetState {
                has_rendered: targets[t].has_rendered || rendered.contains(t),
                ..targets[t]
            },
    )
}

/// Notes that render targets have been rendered to. Unknown ones are passed over.
pub fn mark_rendered(targets: &mut HashMap<u64, RenderTargetState>, rendered: &Vec<u64>)
    ensures
        final(targets)@ == marked_rendered(old(targets)@, rendered@),
{
    let ghost start = targets@;
    let mut i: usize = 0;
    assert(targets@ =~= marked_rendered(start, rendered@.take(0)));
    while i < rendered.len()
        invariant
            i <= rendered.len(),
            targets@ == marked_rendered(start, rendered@.take(i as int)),
        decreases rendered.len() - i,
    {
        let t: u64 = rendered[i];
        let known: Option<RenderTargetState> = match targets.get(&t) {
            Some(rt) => Some(*rt),
            None => None,
        };
        match known {
            Some(rt) => {
                targets.insert(t, RenderTargetState { has_rendered: true, ..rt });
            },
            None => {},
        }
        assert(rendered@.take(i + 1) =~= rendered@.take(i as int).push(t));
        assert forall|x: u64|
            rendered@.take(i + 1).contains(x) == (rendered@.take(i as int).contains(x) || x == t) by {
            if x == t {
                assert(rendered@.take(i + 1)[i as int] == t);
            }
            if rendered@.take(i as int).contains(x) {
                let j = choose|j: int|
                    0 <= j < rendered@.take(i as int).len() && rendered@.take(i as int)[j] == x;
                assert(rendered@.take(i + 1)[j] == x);
            }
        }
        assert(targets@ =~= marked_rendered(start, rendered@.take(i + 1)));
        i += 1;
    }
    assert(rendered@.take(i as int) =~= rendered@);
}

} // verus!
