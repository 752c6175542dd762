//! The steps of a raster pass around and in its command list.

use vstd::prelude::*;

use super::raster::{
    d3d12_topology, index_dxgi, index_format_to_dxgi, topology_to_d3d12, CudaRenderTarget,
    RasterError,
};
use super::raster_backing::{twin_current, CudaPhysKind, RasterBuffer, SharedBacking};
use super::raster_pass::{RasterScene, RenderCommand, TargetLoad};
use crate::dx12::commands::{ResourceCategory, TypedHandle};

verus! {

broadcast use vstd::std_specs::hash::group_hash_axioms;

/// A resource that every device may use.
pub const STATE_COMMON: i32 = 0;

/// A resource that is rendered to.
pub const STATE_RENDER_TARGET: i32 = 4;

/// How one command is lowered to the frame table.
pub enum Lowering {
    /// The indices go into the frame table; the command becomes a raw bind of them.
    Bind { indices: Vec<u32> },
    /// The command is lowered without the tables of the back end.
    Forward,
}

/// The bindless indices of buffers, or the first buffer that has none.
pub open spec fn slots_of(scene: RasterScene, buffers: Seq<u64>) -> Result<Seq<u32>, RasterError>
    decreases buffers.len(),
{
    if buffers.len() == 0 {
        Ok(Seq::empty())
    } else {
        match slots_of(scene, buffers.drop_last()) {
            Err(e) => Err(e),
            Ok(before) => {
                let b = buffers.last();
                if scene.buffers@.contains_key(b) && scene.buffers@[b].slot is Some {
                    Ok(before.push(scene.buffers@[b].slot->Some_0))
                } else {
                    Err(RasterError::BufferWithoutSlot { buffer: b })
                }
            },
        }
    }
}

proof fn lemma_slots_error(scene: RasterScene, buffers: Seq<u64>, n: int)
    requires
        0 <= n <= buffers.len(),
        slots_of(scene, buffers.take(n)) is Err,
    ensures
        slots_of(scene, buffers) == slots_of(scene, buffers.take(n)),
    decreases buffers.len(),
{
    if n < buffers.len() {
        assert(buffers.drop_last().take(n) =~= buffers.take(n));
        lemma_slots_error(scene, buffers.drop_last(), n);
    } else {
        assert(buffers.take(n) =~= buffers);
    }
}

/// Resolves the bindless indices of a bind of buffers.
pub fn lower_bind(scene: &RasterScene, buffers: &Vec<u64>) -> (indices: Result<
    Vec<u32>,
    RasterError,
>)
    ensures
        match slots_of(*scene, buffers@) {
            Ok(slots) => indices is Ok && indices->Ok_0@ == slots,
            Err(e) => indices == Err::<Vec<u32>, RasterError>(e),
        },
{
    let mut indices: Vec<u32> = Vec::new();
    let mut i: usize = 0;
    while i < buffers.len()
        invariant
            i <= buffers.len(),
            slots_of(*scene, buffers@.take(i as int)) == Ok::<Seq<u32>, RasterError>(indices@),
        decreases buffers.len() - i,
    {
        assert(buffers@.take(i + 1).drop_last() =~= buffers@.take(i as int));
        let b: u64 = buffers[i];
        let slot = match scene.buffers.get(&b) {
            Some(buffer) => buffer.slot,
            None => None,
        };
        match slot {
            Some(slot) => {
                indices.push(slot);
            },
            None => {
                proof {
                    lemma_slots_error(*scene, buffers@, i + 1);
                }
                return Err(RasterError::BufferWithoutSlot { buffer: b });
            },
        }
        i += 1;
    }
    assert(buffers@.take(i as int) =~= buffers@);
    Ok(indices)
}

/// The lowering of a command.
pub open spec fn lowers_to(scene: RasterScene, command: RenderCommand, lowering: Lowering) -> bool {
    match command {
        RenderCommand::BindResources { buffers } => lowering matches Lowering::Bind { indices }
            && slots_of(scene, buffers@) == Ok::<Seq<u32>, RasterError>(indices@),
        _ => lowering is Forward,
    }
}

/// The first command that cannot be lowered, up to `n` commands.
pub open spec fn lowering_error(scene: RasterScene, commands: Seq<RenderCommand>) -> Option<
    RasterError,
>
    decreases commands.len(),
{
    if commands.len() == 0 {
        None
    } else {
        match lowering_error(scene, commands.drop_last()) {
            Some(e) => Some(e),
            None => match commands.last() {
                RenderCommand::BindResources { buffers } => match slots_of(scene, buffers@) {
                    Ok(_) => None,
                    Err(e) => Some(e),
                },
                _ => None,
            },
        }
    }
}

proof fn lemma_lowering_error(scene: RasterScene, commands: Seq<RenderCommand>, n: int)
    requires
        0 <= n <= commands.len(),
        lowering_error(scene, commands.take(n)) is Some,
    ensures
        lowering_error(scene, commands) == lowering_error(scene, commands.take(n)),
    decreases commands.len(),
{
    if n < commands.len() {
        assert(commands.drop_last().take(n) =~= commands.take(n));
        lemma_lowering_error(scene, commands.drop_last(), n);
    } else {
        assert(commands.take(n) =~= commands);
    }
}

/// Lowers the commands of a pass that has no frame table of its own yet.
pub fn prepare_cuda_render_commands(scene: &RasterScene, commands: &Vec<RenderCommand>) -> (result:
    Result<Vec<Lowering>, RasterError>)
    ensures
        match lowering_error(*scene, commands@) {
            Some(e) => result == Err::<Vec<Lowering>, RasterError>(e),
            None => result is Ok && result->Ok_0@.len() == commands@.len() && forall|i: int|
                0 <= i < commands@.len() ==> lowers_to(
                    *scene,
                    commands@[i],
                    #[trigger] result->Ok_0@[i],
                ),
        },
{
    let mut out: Vec<Lowering> = Vec::new();
    let mut i: usize = 0;
    while i < commands.len()
        invariant
            i <= commands.len(),
            lowering_error(*scene, commands@.take(i as int)) is None,
            out@.len() == i,
            forall|j: int|
                0 <= j < i ==> lowers_to(*scene, commands@[j], #[trigger] out@[j]),
        decreases commands.len() - i,
    {
        assert(commands@.take(i + 1).drop_last() =~= commands@.take(i as int));
        match &commands[i] {
            RenderCommand::BindResources { buffers } => {
                match lower_bind(scene, buffers) {
                    Ok(indices) => {
                        out.push(Lowering::Bind { indices });
                    },
                    Err(e) => {
                        proof {
                            lemma_lowering_error(*scene, commands@, i + 1);
                        }
                        return Err(e);
                    },
                }
            },
            _ => {
                out.push(Lowering::Forward);
            },
        }
        i += 1;
    }
    assert(commands@.take(i as int) =~= commands@);
    Ok(out)
}

/// The command binds resources.
pub open spec fn binds(command: RenderCommand) -> bool {
    command is BindResourcesRaw || command is BindResourcesTyped || command is BindResources
}

/// Whether a pass whose frame table comes with the graph has anything bound: a bind
/// command, or a word of the table that is not zero.
pub fn graph_has_bindings(commands: &Vec<RenderCommand>, staging: &Vec<u32>) -> (has: bool)
    ensures
        has == ((exists|i: int| 0 <= i < commands@.len() && #[trigger] binds(commands@[i]))
            || exists|i: int| 0 <= i < staging@.len() && #[trigger] staging@[i] != 0),
{
    let mut i: usize = 0;
    while i < commands.len()
        invariant
            i <= commands.len(),
            forall|j: int| 0 <= j < i ==> !#[trigger] binds(commands@[j]),
        decreases commands.len() - i,
    {
        match &commands[i] {
            RenderCommand::BindResourcesRaw { .. } | RenderCommand::BindResourcesTyped { .. }
            | RenderCommand::BindResources { .. } => {
                assert(binds(commands@[i as int]));
                return true;
            },
            _ => {},
        }
        i += 1;
    }
    i = 0;
    while i < staging.len()
        invariant
            i <= staging.len(),
            forall|j: int| 0 <= j < commands@.len() ==> !#[trigger] binds(commands@[j]),
            forall|j: int| 0 <= j < i ==> #[trigger] staging@[j] == 0,
        decreases staging.len() - i,
    {
        if staging[i] != 0 {
            assert(staging@[i as int] != 0);
            return true;
        }
        i += 1;
    }
    false
}

/// What a pass needs of a buffer.
#[derive(Clone, Copy, Debug, PartialEq, Eq, Structural)]
pub struct Requirement {
    pub buffer: u64,
    /// The input assembler reads it, else a shader.
    pub vertex: bool,
}

/// A shader reads the buffer at a bindless slot, where there is one.
pub open spec fn slot_requirement(scene: RasterScene, slot: u32) -> Seq<Requirement> {
    if scene.buffer_slots@.contains_key(slot) {
        seq![Requirement { buffer: scene.buffer_slots@[slot], vertex: false }]
    } else {
        Seq::empty()
    }
}

/// What typed binds need: only scattered and broadcast handles are of buffers.
pub open spec fn handle_requirements(scene: RasterScene, handles: Seq<TypedHandle>) -> Seq<
    Requirement,
>
    decreases handles.len(),
{
    if handles.len() == 0 {
        Seq::empty()
    } else {
        let h = handles.last();
        handle_requirements(scene, handles.drop_last()) + if h.category is Scattered
            || h.category is Broadcast {
            slot_requirement(scene, h.index)
        } else {
            Seq::empty()
        }
    }
}

/// What a command needs.
pub open spec fn command_requirements(scene: RasterScene, command: RenderCommand) -> Seq<Requirement> {
    match command {
        RenderCommand::SetVertexBuffer { slot, buffer, offset } => seq![
            Requirement { buffer, vertex: true },
        ],
        RenderCommand::SetIndexBuffer { buffer, offset, format } => seq![
            Requirement { buffer, vertex: true },
        ],
        RenderCommand::BindResourcesTyped { handles } => handle_requirements(scene, handles@),
        _ => Seq::empty(),
    }
}

/// What commands need, in order.
pub open spec fn commands_requirements(scene: RasterScene, commands: Seq<RenderCommand>) -> Seq<
    Requirement,
>
    decreases commands.len(),
{
    if commands.len() == 0 {
        Seq::empty()
    } else {
        commands_requirements(scene, commands.drop_last()) + command_requirements(
            scene,
            commands.last(),
        )
    }
}

/// What the words of a frame table need, in order.
pub open spec fn staging_requirements(scene: RasterScene, words: Seq<u32>) -> Seq<Requirement>
    decreases words.len(),
{
    if words.len() == 0 {
        Seq::empty()
    } else {
        staging_requirements(scene, words.drop_last()) + slot_requirement(scene, words.last())
    }
}

fn push_slot(scene: &RasterScene, out: &mut Vec<Requirement>, slot: u32)
    ensures
        final(out)@ == old(out)@ + slot_requirement(*scene, slot),
{
    match scene.buffer_slots.get(&slot) {
        Some(buffer) => {
            out.push(Requirement { buffer: *buffer, vertex: false });
        },
        None => {},
    }
    assert(out@ =~= old(out)@ + slot_requirement(*scene, slot));
}

fn push_handle_requirements(scene: &RasterScene, out: &mut Vec<Requirement>, handles: &Vec<TypedHandle>)
    ensures
        final(out)@ == old(out)@ + handle_requirements(*scene, handles@),
{
    let mut i: usize = 0;
    assert(out@ =~= old(out)@ + handle_requirements(*scene, handles@.take(0)));
    while i < handles.len()
        invariant
            i <= handles.len(),
            out@ == old(out)@ + handle_requirements(*scene, handles@.take(i as int)),
        decreases handles.len() - i,
    {
        assert(handles@.take(i + 1).drop_last() =~= handles@.take(i as int));
        let ghost before = out@;
        match handles[i].category {
            ResourceCategory::Scattered | ResourceCategory::Broadcast => {
                push_slot(scene, out, handles[i].index);
            },
            _ => {
                assert(before =~= before + Seq::<Requirement>::empty());
            },
        }
        assert(out@ =~= old(out)@ + handle_requirements(*scene, handles@.take(i + 1)));
        i += 1;
    }
    assert(handles@.take(i as int) =~= handles@);
}

/// Lists what a pass needs of its buffers: those of its commands, then those that
/// the frame table names.
pub fn collect_requirements(scene: &RasterScene, commands: &Vec<RenderCommand>, staging: &Vec<u32>) -> (out: Vec<
    Requirement,
>)
    ensures
        out@ == commands_requirements(*scene, commands@) + staging_requirements(*scene, staging@),
{
    let mut out: Vec<Requirement> = Vec::new();
    let mut i: usize = 0;
    while i < commands.len()
        invariant
            i <= commands.len(),
            out@ == commands_requirements(*scene, commands@.take(i as int)),
        decreases commands.len() - i,
    {
        assert(commands@.take(i + 1).drop_last() =~= commands@.take(i as int));
        let ghost before = out@;
        match &commands[i] {
            RenderCommand::SetVertexBuffer { slot, buffer, offset } => {
                out.push(Requirement { buffer: *buffer, vertex: true });
            },
            RenderCommand::SetIndexBuffer { buffer, offset, format } => {
                out.push(Requirement { buffer: *buffer, vertex: true });
            },
            RenderCommand::BindResourcesTyped { handles } => {
                push_handle_requirements(scene, &mut out, handles);
            },
            _ => {},
        }
        assert(out@ =~= before + command_requirements(*scene, commands@[i as int]));
        i += 1;
    }
    assert(commands@.take(i as int) =~= commands@);
    let ghost start = out@;
    i = 0;
    assert(out@ =~= start + staging_requirements(*scene, staging@.take(0)));
    while i < staging.len()
        invariant
            i <= staging.len(),
            out@ == start + staging_requirements(*scene, staging@.take(i as int)),
        decreases staging.len() - i,
    {
        assert(staging@.take(i + 1).drop_last() =~= staging@.take(i as int));
        push_slot(scene, &mut out, staging[i]);
        assert(out@ =~= start + staging_requirements(*scene, staging@.take(i + 1)));
        i += 1;
    }
    assert(staging@.take(i as int) =~= staging@);
    out
}

/// The buffers needed in one way, each where it is needed first.
pub open spec fn needed(requirements: Seq<Requirement>, vertex: bool) -> Seq<u64>
    decreases requirements.len(),
{
    if requirements.len() == 0 {
        Seq::empty()
    } else {
        let before = needed(requirements.drop_last(), vertex);
        let r = requirements.last();
        if r.vertex == vertex && !before.contains(r.buffer) {
            before.push(r.buffer)
        } else {
            before
        }
    }
}

fn contains(handles: &Vec<u64>, handle: u64) -> (found: bool)
    ensures
        found == handles@.contains(handle),
{
    let mut i: usize = 0;
    while i < handles.len()
        invariant
            i <= handles.len(),
            forall|j: int| 0 <= j < i ==> handles@[j] != handle,
        decreases handles.len() - i,
    {
        if handles[i] == handle {
            assert(handles@[i as int] == handle);
            return true;
        }
        i += 1;
    }
    false
}

/// The buffers that the input assembler reads, or those that shaders read: each once.
pub fn needed_buffers(requirements: &Vec<Requirement>, vertex: bool) -> (handles: Vec<u64>)
    ensures
        handles@ == needed(requirements@, vertex),
{
    let mut handles: Vec<u64> = Vec::new();
    let mut i: usize = 0;
    while i < requirements.len()
        invariant
            i <= requirements.len(),
            handles@ == needed(requirements@.take(i as int), vertex),
        decreases requirements.len() - i,
    {
        assert(requirements@.take(i + 1).drop_last() =~= requirements@.take(i as int));
        let r = requirements[i];
        if r.vertex == vertex && !contains(&handles, r.buffer) {
            handles.push(r.buffer);
        }
        i += 1;
    }
    assert(requirements@.take(i as int) =~= requirements@);
    handles
}

/// No buffer is listed twice, and every one that is needed is listed.
pub proof fn needed_lists_each_once(requirements: Seq<Requirement>, vertex: bool)
    ensures
        needed(requirements, vertex).no_duplicates(),
        forall|i: int|
            0 <= i < requirements.len() && (#[trigger] requirements[i]).vertex == vertex
                ==> needed(requirements, vertex).contains(requirements[i].buffer),
    decreases requirements.len(),
{
    if requirements.len() > 0 {
        let before = needed(requirements.drop_last(), vertex);
        let all = needed(requirements, vertex);
        needed_lists_each_once(requirements.drop_last(), vertex);
        assert forall|b: u64| before.contains(b) implies #[trigger] all.contains(b) by {
            let k = choose|k: int| 0 <= k < before.len() && before[k] == b;
            assert(all[k] == b);
        }
        assert forall|i: int|
            0 <= i < requirements.len() && (#[trigger] requirements[i]).vertex == vertex implies all.contains(
            requirements[i].buffer,
        ) by {
            if i < requirements.len() - 1 {
                assert(requirements.drop_last()[i] == requirements[i]);
            } else if !before.contains(requirements[i].buffer) {
                assert(all[before.len() as int] == requirements[i].buffer);
            }
        }
    }
}

/// The twin of the buffer lags behind its contents.
pub open spec fn twin_lags(scene: RasterScene, handle: u64) -> bool {
    scene.buffers@.contains_key(handle) && scene.buffers@[handle].phys_kind is NativeAndTwin
        && !twin_current(scene.buffers@[handle])
}

/// Whether some twin lags behind: the worker is then flushed and the streams of the
/// device are waited for before it is brought up to date.
pub fn needs_twin_sync(scene: &RasterScene, handles: &Vec<u64>) -> (needs: bool)
    ensures
        needs == exists|i: int|
            0 <= i < handles@.len() && twin_lags(*scene, #[trigger] handles@[i]),
{
    let mut i: usize = 0;
    while i < handles.len()
        invariant
            i <= handles.len(),
            forall|j: int| 0 <= j < i ==> !twin_lags(*scene, #[trigger] handles@[j]),
        decreases handles.len() - i,
    {
        match scene.buffers.get(&handles[i]) {
            Some(buffer) => {
                if let CudaPhysKind::NativeAndTwin = buffer.phys_kind {
                    if buffer.content_epoch != buffer.shared_epoch {
                        assert(twin_lags(*scene, handles@[i as int]));
                        return true;
                    }
                }
            },
            None => {},
        }
        i += 1;
    }
    false
}

/// Checks the target of a pass.
pub fn check_target(scene: &RasterScene, device: u64, target: u64) -> (result: Result<
    CudaRenderTarget,
    RasterError,
>)
    ensures
        result == (if !scene.render_targets@.contains_key(target) {
            Err(RasterError::InvalidRenderTarget)
        } else if scene.render_targets@[target].device != device {
            Err(RasterError::TargetOnOtherDevice)
        } else {
            Ok(scene.render_targets@[target])
        }),
{
    match scene.render_targets.get(&target) {
        None => Err(RasterError::InvalidRenderTarget),
        Some(rt) => if rt.device != device {
            Err(RasterError::TargetOnOtherDevice)
        } else {
            Ok(*rt)
        },
    }
}

/// Whether the list recorded last for a target is that of a pass with this
/// fingerprint.
pub fn can_reuse(scene: &RasterScene, target: u64, fingerprint: u64) -> (reuse: bool)
    ensures
        reuse == (scene.list_cache@.contains_key(target) && scene.list_cache@[target]
            == fingerprint),
{
    match scene.list_cache.get(&target) {
        Some(cached) => *cached == fingerprint,
        None => false,
    }
}

/// One call on the command list of a pass. `command` is the position of a command.
#[derive(Clone, Copy, Debug, PartialEq, Eq, Structural)]
pub enum RasterCall {
    SetDescriptorHeaps,
    /// Uploads the frame table.
    RecordPrologue,
    Transition { resource: u64, before: i32, after: i32 },
    SetRenderTarget { rtv_offset: u32 },
    ClearTarget { r: u32, g: u32, b: u32, a: u32 },
    SetViewport { width: u32, height: u32 },
    SetScissor { width: u32, height: u32 },
    SetRootSignature { root_signature: u64 },
    SetPipelineState { pipeline_state: u64 },
    SetTopology { topology: i32 },
    SetVertexBuffer { slot: u32, location: u64, size: u32, stride: u32 },
    SetIndexBuffer { location: u64, size: u32, dxgi_format: u32 },
    /// Holds the bound indices against the slot kinds of a pipeline.
    ValidateSlots { pipeline: u64, command: usize },
    SetRootConstants { command: usize },
    Draw { vertex_count: u32, instance_count: u32, first_vertex: u32, first_instance: u32 },
    DrawIndexed {
        index_count: u32,
        instance_count: u32,
        first_index: u32,
        base_vertex: i32,
        first_instance: u32,
    },
}

/// What recording has come to.
#[verifier::ext_equal]
pub struct RasterView {
    pub calls: Seq<RasterCall>,
    /// Vertex stride of the current pipeline.
    pub stride: u32,
    pub pipeline: Option<u64>,
}

/// A view of a buffer from an offset, or why there is none.
pub open spec fn buffer_view(
    scene: RasterScene,
    buffer: u64,
    offset: u64,
    unknown: RasterError,
    outside: RasterError,
    missing: RasterError,
) -> Result<(u64, u32), RasterError> {
    if !scene.buffers@.contains_key(buffer) {
        Err(unknown)
    } else {
        let b = scene.buffers@[buffer];
        if offset >= b.size {
            Err(outside)
        } else if b.shared is None {
            Err(missing)
        } else {
            Ok(
                (
                    (b.shared->Some_0.gpu_va + b.offset + offset) as u64,
                    ((b.size - offset) as u64) as u32,
                ),
            )
        }
    }
}

/// Recording of one command.
pub open spec fn raster_step(
    scene: RasterScene,
    view: RasterView,
    command: RenderCommand,
    index: usize,
) -> Result<RasterView, RasterError> {
    match command {
        RenderCommand::ClearDepth { .. } => Err(RasterError::ClearDepthUnsupported),
        RenderCommand::SetPipeline { pipeline } => if !scene.pipelines@.contains_key(pipeline) {
            Err(RasterError::InvalidPipeline)
        } else {
            let p = scene.pipelines@[pipeline];
            Ok(
                RasterView {
                    calls: view.calls + seq![
                        RasterCall::SetRootSignature { root_signature: p.root_signature },
                        RasterCall::SetPipelineState { pipeline_state: p.pipeline_state },
                        RasterCall::SetTopology { topology: d3d12_topology(p.topology) },
                    ],
                    stride: p.vertex_stride,
                    pipeline: Some(pipeline),
                },
            )
        },
        RenderCommand::SetVertexBuffer { slot, buffer, offset } => match buffer_view(
            scene,
            buffer,
            offset,
            RasterError::InvalidVertexBuffer,
            RasterError::VertexOffsetOutOfRange,
            RasterError::VertexBackingMissing,
        ) {
            Ok((location, size)) => Ok(
                RasterView {
                    calls: view.calls.push(
                        RasterCall::SetVertexBuffer { slot, location, size, stride: view.stride },
                    ),
                    ..view
                },
            ),
            Err(e) => Err(e),
        },
        RenderCommand::SetIndexBuffer { buffer, offset, format } => match buffer_view(
            scene,
            buffer,
            offset,
            RasterError::InvalidIndexBuffer,
            RasterError::IndexOffsetOutOfRange,
            RasterError::IndexBackingMissing,
        ) {
            Ok((location, size)) => Ok(
                RasterView {
                    calls: view.calls.push(
                        RasterCall::SetIndexBuffer {
                            location,
                            size,
                            dxgi_format: index_dxgi(format),
                        },
                    ),
                    ..view
                },
            ),
            Err(e) => Err(e),
        },
        RenderCommand::BindResources { .. } => Err(RasterError::BindNotLowered),
        RenderCommand::BindResourcesTyped { .. } => Err(RasterError::BindNotLowered),
        RenderCommand::BindResourcesRaw { .. } => Ok(
            RasterView {
                calls: (match view.pipeline {
                    Some(pipeline) => view.calls.push(
                        RasterCall::ValidateSlots { pipeline, command: index },
                    ),
                    None => view.calls,
                }).push(RasterCall::SetRootConstants { command: index }),
                ..view
            },
        ),
        RenderCommand::Draw { vertex_count, instance_count, first_vertex, first_instance } => Ok(
            RasterView {
                calls: view.calls.push(
                    RasterCall::Draw { vertex_count, instance_count, first_vertex, first_instance },
                ),
                ..view
            },
        ),
        RenderCommand::DrawIndexed {
            index_count,
            instance_count,
            first_index,
            base_vertex,
            first_instance,
        } => Ok(
            RasterView {
                calls: view.calls.push(
                    RasterCall::DrawIndexed {
                        index_count,
                        instance_count,
                        first_index,
                        base_vertex,
                        first_instance,
                    },
                ),
                ..view
            },
        ),
    }
}

/// Recording of commands in order, up to the first that fails.
pub open spec fn raster_run(scene: RasterScene, start: RasterView, commands: Seq<RenderCommand>) -> Result<
    RasterView,
    RasterError,
>
    decreases commands.len(),
{
    if commands.len() == 0 {
        Ok(start)
    } else {
        match raster_run(scene, start, commands.drop_last()) {
            Ok(view) => raster_step(scene, view, commands.last(), (commands.len() - 1) as usize),
            Err(e) => Err(e),
        }
    }
}

proof fn lemma_run_error(scene: RasterScene, start: RasterView, commands: Seq<RenderCommand>, n: int)
    requires
        0 <= n <= commands.len(),
        raster_run(scene, start, commands.take(n)) is Err,
    ensures
        raster_run(scene, start, commands) == raster_run(scene, start, commands.take(n)),
    decreases commands.len(),
{
    if n < commands.len() {
        assert(commands.drop_last().take(n) =~= commands.take(n));
        lemma_run_error(scene, start, commands.drop_last(), n);
    } else {
        assert(commands.take(n) =~= commands);
    }
}

/// The calls that begin a pass.
pub open spec fn pass_prologue(rt: CudaRenderTarget, load: TargetLoad, has_bindings: bool) -> Seq<
    RasterCall,
> {
    let bound = if has_bindings {
        seq![RasterCall::SetDescriptorHeaps, RasterCall::RecordPrologue]
    } else {
        seq![RasterCall::SetDescriptorHeaps]
    };
    let targeted = bound + seq![
        RasterCall::Transition {
            resource: rt.resource,
            before: STATE_COMMON,
            after: STATE_RENDER_TARGET,
        },
        RasterCall::SetRenderTarget { rtv_offset: rt.rtv_offset },
    ];
    let cleared = match load {
        TargetLoad::Clear { r, g, b, a } => targeted.push(RasterCall::ClearTarget { r, g, b, a }),
        _ => targeted,
    };
    cleared + seq![
        RasterCall::SetViewport { width: rt.width, height: rt.height },
        RasterCall::SetScissor { width: rt.width, height: rt.height },
    ]
}

/// Vertex stride before any pipeline was set.
pub const DEFAULT_VERTEX_STRIDE: u32 = 24;

/// The calls of a whole pass: the target goes from its common state to that of a
/// render target and back.
pub open spec fn pass_calls(
    scene: RasterScene,
    rt: CudaRenderTarget,
    load: TargetLoad,
    has_bindings: bool,
    commands: Seq<RenderCommand>,
) -> Result<Seq<RasterCall>, RasterError> {
    let start = RasterView {
        calls: pass_prologue(rt, load, has_bindings),
        stride: DEFAULT_VERTEX_STRIDE,
        pipeline: None,
    };
    match raster_run(scene, start, commands) {
        Ok(view) => Ok(
            view.calls.push(
                RasterCall::Transition {
                    resource: rt.resource,
                    before: STATE_RENDER_TARGET,
                    after: STATE_COMMON,
                },
            ),
        ),
        Err(e) => Err(e),
    }
}

struct PassRecorder {
    calls: Vec<RasterCall>,
    stride: u32,
    pipeline: Option<u64>,
}

impl View for PassRecorder {
    type V = RasterView;

    closed spec fn view(&self) -> RasterView {
        RasterView { calls: self.calls@, stride: self.stride, pipeline: self.pipeline }
    }
}

/// The addresses of the buffers of a scene end within the address space.
pub open spec fn addressable(scene: RasterScene) -> bool {
    forall|b: u64| #[trigger]
        scene.buffers@.contains_key(b) && scene.buffers@[b].shared is Some
            ==> scene.buffers@[b].shared->Some_0.gpu_va + scene.buffers@[b].offset
            + scene.buffers@[b].size <= u64::MAX
}

/// The ranges and allocations of the buffers of a scene end within the address space.
pub open spec fn ranges_end(scene: RasterScene) -> bool {
    forall|b: u64| #[trigger]
        scene.buffers@.contains_key(b) ==> scene.buffers@[b].offset + scene.buffers@[b].size
            <= u64::MAX && scene.buffers@[b].memory_base + scene.buffers@[b].memory_len
            <= u64::MAX
}

impl RasterBuffer {
    fn is_addressable(&self) -> (ok: bool)
        ensures
            ok == (self.offset + self.size <= u64::MAX && self.memory_base + self.memory_len
                <= u64::MAX && (self.shared matches Some(shared) ==> shared.gpu_va + self.offset
                + self.size <= u64::MAX)),
    {
        if self.offset > u64::MAX - self.size || self.memory_base > u64::MAX - self.memory_len {
            return false;
        }
        match &self.shared {
            Some(shared) => shared.gpu_va <= u64::MAX - (self.offset + self.size),
            None => true,
        }
    }
}

impl RasterScene {
    /// Whether what is planned for the buffers of the scene stays within the address space.
    pub fn is_addressable(&self) -> (ok: bool)
        ensures
            ok == (addressable(*self) && ranges_end(*self)),
    {
        let ghost all = self.buffers@;
        for entry in iter: self.buffers.iter()
            invariant
                all == self.buffers@,
                forall|i: int|
                    0 <= i < iter.seq().len() ==> all.contains_key(*(#[trigger] iter.seq()[i]).0)
                        && all[*iter.seq()[i].0] == *iter.seq()[i].1,
                forall|k: u64| #[trigger] all.contains_key(k) ==> iter.seq().contains((&k, &all[k])),
                forall|i: int|
                    0 <= i < iter.index() ==> {
                        let b = *(#[trigger] iter.seq()[i]).1;
                        &&& b.offset + b.size <= u64::MAX
                        &&& b.memory_base + b.memory_len <= u64::MAX
                        &&& b.shared matches Some(shared) ==> shared.gpu_va + b.offset + b.size
                            <= u64::MAX
                    },
        {
            if !entry.1.is_addressable() {
                assert(all.contains_key(*entry.0) && all[*entry.0] == *entry.1);
                return false;
            }
        }
        true
    }
}

fn view_of(
    scene: &RasterScene,
    buffer: u64,
    offset: u64,
    unknown: RasterError,
    outside: RasterError,
    missing: RasterError,
) -> (result: Result<(u64, u32), RasterError>)
    requires
        addressable(*scene),
    ensures
        result == buffer_view(*scene, buffer, offset, unknown, outside, missing),
{
    match scene.buffers.get(&buffer) {
        None => Err(unknown),
        Some(b) => {
            if offset >= b.size {
                return Err(outside);
            }
            match b.shared {
                None => Err(missing),
                Some(shared) => Ok((shared.gpu_va + b.offset + offset, (b.size - offset) as u32)),
            }
        },
    }
}

impl PassRecorder {
    fn record(&mut self, scene: &RasterScene, command: &RenderCommand, index: usize) -> (result: Result<
        (),
        RasterError,
    >)
        requires
            addressable(*scene),
        ensures
            match raster_step(*scene, old(self)@, *command, index) {
                Ok(view) => result is Ok && final(self)@ == view,
                Err(e) => result == Err::<(), RasterError>(e),
            },
    {
        match command {
            RenderCommand::ClearDepth { .. } => {
                return Err(RasterError::ClearDepthUnsupported);
            },
            RenderCommand::SetPipeline { pipeline } => {
                let p = match scene.pipelines.get(pipeline) {
                    Some(p) => *p,
                    None => {
                        return Err(RasterError::InvalidPipeline);
                    },
                };
                self.calls.push(RasterCall::SetRootSignature { root_signature: p.root_signature });
                self.calls.push(RasterCall::SetPipelineState { pipeline_state: p.pipeline_state });
                self.calls.push(RasterCall::SetTopology { topology: topology_to_d3d12(p.topology) });
                self.stride = p.vertex_stride;
                self.pipeline = Some(*pipeline);
            },
            RenderCommand::SetVertexBuffer { slot, buffer, offset } => {
                match view_of(
                    scene,
                    *buffer,
                    *offset,
                    RasterError::InvalidVertexBuffer,
                    RasterError::VertexOffsetOutOfRange,
                    RasterError::VertexBackingMissing,
                ) {
                    Ok((location, size)) => {
                        self.calls.push(
                            RasterCall::SetVertexBuffer {
                                slot: *slot,
                                location,
                                size,
                                stride: self.stride,
                            },
                        );
                    },
                    Err(e) => {
                        return Err(e);
                    },
                }
            },
            RenderCommand::SetIndexBuffer { buffer, offset, format } => {
                match view_of(
                    scene,
                    *buffer,
                    *offset,
                    RasterError::InvalidIndexBuffer,
                    RasterError::IndexOffsetOutOfRange,
                    RasterError::IndexBackingMissing,
                ) {
                    Ok((location, size)) => {
                        self.calls.push(
                            RasterCall::SetIndexBuffer {
                                location,
                                size,
                                dxgi_format: index_format_to_dxgi(*format),
                            },
                        );
                    },
                    Err(e) => {
                        return Err(e);
                    },
                }
            },
            RenderCommand::BindResources { .. } | RenderCommand::BindResourcesTyped { .. } => {
                return Err(RasterError::BindNotLowered);
            },
            RenderCommand::BindResourcesRaw { .. } => {
                if let Some(pipeline) = self.pipeline {
                    self.calls.push(RasterCall::ValidateSlots { pipeline, command: index });
                }
                self.calls.push(RasterCall::SetRootConstants { command: index });
            },
            RenderCommand::Draw { vertex_count, instance_count, first_vertex, first_instance } => {
                self.calls.push(
                    RasterCall::Draw {
                        vertex_count: *vertex_count,
                        instance_count: *instance_count,
                        first_vertex: *first_vertex,
                        first_instance: *first_instance,
                    },
                );
            },
            RenderCommand::DrawIndexed {
                index_count,
                instance_count,
                first_index,
                base_vertex,
                first_instance,
            } => {
                self.calls.push(
                    RasterCall::DrawIndexed {
                        index_count: *index_count,
                        instance_count: *instance_count,
                        first_index: *first_index,
                        base_vertex: *base_vertex,
                        first_instance: *first_instance,
                    },
                );
            },
        }
        assert(self@ =~= raster_step(*scene, old(self)@, *command, index)->Ok_0);
        Ok(())
    }
}

/// Records the command list of a pass.
pub fn record_pass(
    scene: &RasterScene,
    rt: &CudaRenderTarget,
    load: TargetLoad,
    has_bindings: bool,
    commands: &Vec<RenderCommand>,
) -> (result: Result<Vec<RasterCall>, RasterError>)
    requires
        addressable(*scene),
    ensures
        match pass_calls(*scene, *rt, load, has_bindings, commands@) {
            Ok(calls) => result is Ok && result->Ok_0@ == calls,
            Err(e) => result == Err::<Vec<RasterCall>, RasterError>(e),
        },
{
    let mut calls: Vec<RasterCall> = Vec::new();
    calls.push(RasterCall::SetDescriptorHeaps);
    if has_bindings {
        calls.push(RasterCall::RecordPrologue);
    }
    calls.push(
        RasterCall::Transition {
            resource: rt.resource,
            before: STATE_COMMON,
            after: STATE_RENDER_TARGET,
        },
    );
    calls.push(RasterCall::SetRenderTarget { rtv_offset: rt.rtv_offset });
    if let TargetLoad::Clear { r, g, b, a } = load {
        calls.push(RasterCall::ClearTarget { r, g, b, a });
    }
    calls.push(RasterCall::SetViewport { width: rt.width, height: rt.height });
    calls.push(RasterCall::SetScissor { width: rt.width, height: rt.height });
    assert(calls@ =~= pass_prologue(*rt, load, has_bindings));
    let mut recorder = PassRecorder { calls, stride: DEFAULT_VERTEX_STRIDE, pipeline: None };
    let ghost start = recorder@;
    let mut i: usize = 0;
    while i < commands.len()
        invariant
            i <= commands.len(),
            addressable(*scene),
            start == (RasterView {
                calls: pass_prologue(*rt, load, has_bindings),
                stride: DEFAULT_VERTEX_STRIDE,
                pipeline: None,
            }),
            raster_run(*scene, start, commands@.take(i as int)) == Ok::<RasterView, RasterError>(
                recorder@,
            ),
        decreases commands.len() - i,
    {
        assert(commands@.take(i + 1).drop_last() =~= commands@.take(i as int));
        match recorder.record(scene, &commands[i], i) {
            Ok(_) => {},
            Err(e) => {
                proof {
                    lemma_run_error(*scene, start, commands@, i + 1);
                }
                return Err(e);
            },
        }
        i += 1;
    }
    assert(commands@.take(i as int) =~= commands@);
    let mut calls = recorder.calls;
    calls.push(
        RasterCall::Transition {
            resource: rt.resource,
            before: STATE_RENDER_TARGET,
            after: STATE_COMMON,
        },
    );
    Ok(calls)
}

/// The indices that a raw bind binds: its own, or those in the frame table from its
/// base on, none where they leave the table.
pub open spec fn bound_indices(
    indices: Seq<u32>,
    frame_table_base: u32,
    slot_kinds: usize,
    staging: Seq<u32>,
) -> Seq<u32> {
    if indices.len() > 0 {
        indices
    } else if frame_table_base + slot_kinds <= staging.len() {
        staging.subrange(frame_table_base as int, frame_table_base + slot_kinds)
    } else {
        Seq::empty()
    }
}

/// The indices that a raw bind binds.
pub fn staged_indices(
    indices: &Vec<u32>,
    frame_table_base: u32,
    slot_kinds: usize,
    staging: &Vec<u32>,
) -> (bound: Vec<u32>)
    ensures
        bound@ == bound_indices(indices@, frame_table_base, slot_kinds, staging@),
{
    let mut bound: Vec<u32> = Vec::new();
    if indices.len() > 0 {
        let mut i: usize = 0;
        while i < indices.len()
            invariant
                i <= indices.len(),
                bound@ == indices@.take(i as int),
            decreases indices.len() - i,
        {
            bound.push(indices[i]);
            assert(bound@ =~= indices@.take(i + 1));
            i += 1;
        }
        assert(indices@.take(i as int) =~= indices@);
        return bound;
    }
    let base: usize = frame_table_base as usize;
    let total: usize = staging.len();
    if base > total || slot_kinds > total - base {
        return bound;
    }
    let mut i: usize = 0;
    while i < slot_kinds
        invariant
            i <= slot_kinds,
            base + slot_kinds <= total,
            total == staging@.len(),
            bound@ == staging@.subrange(base as int, base + i),
        decreases slot_kinds - i,
    {
        bound.push(staging[base + i]);
        assert(bound@ =~= staging@.subrange(base as int, base + i + 1));
        i += 1;
    }
    bound
}

/// The buffer after the companion read it under a fence value.
pub open spec fn read_under(buffer: RasterBuffer, signal: u64) -> RasterBuffer {
    match buffer.shared {
        Some(shared) => RasterBuffer {
            shared: Some(
                SharedBacking {
                    last_dx12_ia_fence: if shared.last_dx12_ia_fence >= signal {
                        shared.last_dx12_ia_fence
                    } else {
                        signal
                    },
                    ..shared
                },
            ),
            ..buffer
        },
        None => buffer,
    }
}

/// The buffers after a pass that read some of them.
pub open spec fn after_reads(
    before: Map<u64, RasterBuffer>,
    after: Map<u64, RasterBuffer>,
    handles: Seq<u64>,
    signal: u64,
) -> bool {
    &&& after.dom() == before.dom()
    &&& forall|b: u64| #[trigger]
        before.contains_key(b) ==> after[b] == (if handles.contains(b) {
            read_under(before[b], signal)
        } else {
            before[b]
        })
}

/// Notes that a pass was submitted and signals a fence value when it is done.
/// `fingerprint` is that of a newly recorded list; `None` where a list was used again.
pub fn finish_pass(
    scene: &mut RasterScene,
    target: u64,
    handles: &Vec<u64>,
    signal: u64,
    fingerprint: Option<u64>,
)
    requires
        old(scene).render_targets@.contains_key(target),
    ensures
        final(scene).render_targets@ == old(scene).render_targets@.insert(
            target,
            (CudaRenderTarget { last_dx12_fence: signal, ..old(scene).render_targets@[target] }),
        ),
        after_reads(old(scene).buffers@, final(scene).buffers@, handles@, signal),
        final(scene).list_cache@ == (match fingerprint {
            Some(f) => old(scene).list_cache@.insert(target, f),
            None => old(scene).list_cache@,
        }),
        final(scene).pipelines == old(scene).pipelines,
        final(scene).buffer_slots == old(scene).buffer_slots,
{
    if let Some(rt) = scene.render_targets.get(&target) {
        let rt = *rt;
        scene.render_targets.insert(target, CudaRenderTarget { last_dx12_fence: signal, ..rt });
    }
    let ghost before = scene.buffers@;
    let ghost targets = scene.render_targets@;
    let mut i: usize = 0;
    while i < handles.len()
        invariant
            i <= handles.len(),
            scene.render_targets@ == targets,
            scene.list_cache == old(scene).list_cache,
            scene.pipelines == old(scene).pipelines,
            scene.buffer_slots == old(scene).buffer_slots,
            after_reads(before, scene.buffers@, handles@.take(i as int), signal),
        decreases handles.len() - i,
    {
        let handle: u64 = handles[i];
        let ghost mid = scene.buffers@;
        if let Some(buffer) = scene.buffers.get(&handle) {
            let buffer = *buffer;
            if let Some(shared) = buffer.shared {
                let fence: u64 = if shared.last_dx12_ia_fence >= signal {
                    shared.last_dx12_ia_fence
                } else {
                    signal
                };
                scene.buffers.insert(
                    handle,
                    RasterBuffer {
                        shared: Some(SharedBacking { last_dx12_ia_fence: fence, ..shared }),
                        ..buffer
                    },
                );
            }
        }
        proof {
            let a = handles@.take(i as int);
            let b = handles@.take(i + 1);
            assert(b =~= a.push(handle));
            assert(b[i as int] == handle);
            assert forall|x: u64| #[trigger] b.contains(x) <==> a.contains(x) || x == handle by {
                if b.contains(x) {
                    let k = choose|k: int| 0 <= k < b.len() && b[k] == x;
                    if k < i {
                        assert(a[k] == x);
                    }
                }
                if a.contains(x) {
                    let k = choose|k: int| 0 <= k < a.len() && a[k] == x;
                    assert(b[k] == x);
                }
            }
            assert(scene.buffers@.dom() =~= before.dom());
            assert forall|x: u64| #[trigger] before.contains_key(x) implies scene.buffers@[x] == (
            if b.contains(x) {
                read_under(before[x], signal)
            } else {
                before[x]
            }) by {
                assert(mid.dom().contains(x));
            }
        }
        i += 1;
    }
    assert(handles@.take(i as int) =~= handles@);
    if let Some(f) = fingerprint {
        scene.list_cache.insert(target, f);
    }
}

} // verus!
