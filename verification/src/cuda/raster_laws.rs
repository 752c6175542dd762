//! What the calls of a recorded pass come to on a command list: which vertices and instances
//! are drawn, and with what bound.

use vstd::prelude::*;

use super::raster::{
    CudaRenderTarget, IndexFormat, PrimitiveTopology, RasterError, DXGI_FORMAT_R16_UINT,
    DXGI_FORMAT_R32_UINT, TOPOLOGY_LINELIST, TOPOLOGY_LINESTRIP, TOPOLOGY_POINTLIST,
    TOPOLOGY_TRIANGLELIST, TOPOLOGY_TRIANGLESTRIP,
};
use super::raster_pass::{RasterScene, RenderCommand, TargetLoad};
use super::raster_record::{
    addressable, pass_calls, pass_prologue, raster_run, raster_step, RasterCall,
    RasterView, DEFAULT_VERTEX_STRIDE, STATE_COMMON, STATE_RENDER_TARGET,
};

verus! {

broadcast use vstd::std_specs::hash::group_hash_axioms;

/// The draw calls among calls, in order.
pub open spec fn draws(calls: Seq<RasterCall>) -> Seq<RasterCall>
    decreases calls.len(),
{
    if calls.len() == 0 {
        Seq::empty()
    } else if calls.last() is Draw || calls.last() is DrawIndexed {
        draws(calls.drop_last()).push(calls.last())
    } else {
        draws(calls.drop_last())
    }
}

/// The draw commands among commands, in order.
pub open spec fn draw_commands(commands: Seq<RenderCommand>) -> Seq<RenderCommand>
    decreases commands.len(),
{
    if commands.len() == 0 {
        Seq::empty()
    } else if commands.last() is Draw || commands.last() is DrawIndexed {
        draw_commands(commands.drop_last()).push(commands.last())
    } else {
        draw_commands(commands.drop_last())
    }
}

/// A call draws a vertex of an instance.
pub open spec fn draws_vertex(call: RasterCall, vertex: int, instance: int) -> bool {
    call matches RasterCall::Draw { vertex_count, instance_count, first_vertex, first_instance }
        && first_vertex <= vertex < first_vertex + vertex_count && first_instance <= instance
        < first_instance + instance_count
}

/// A call draws, for an instance, the vertex that the index at a place names, counted from
/// a base.
pub open spec fn draws_index(call: RasterCall, place: int, base: int, instance: int) -> bool {
    call matches RasterCall::DrawIndexed {
        index_count,
        instance_count,
        first_index,
        base_vertex,
        first_instance,
    } && first_index <= place < first_index + index_count && base == base_vertex && first_instance
        <= instance < first_instance + instance_count
}

proof fn lemma_draws_of_both(a: Seq<RasterCall>, b: Seq<RasterCall>)
    ensures
        draws(a + b) == draws(a) + draws(b),
    decreases b.len(),
{
    if b.len() == 0 {
        assert(a + b =~= a);
        assert(draws(a) + draws(b) =~= draws(a));
    } else {
        lemma_draws_of_both(a, b.drop_last());
        assert((a + b).drop_last() =~= a + b.drop_last());
        assert(draws(a + b) =~= draws(a) + draws(b));
    }
}

proof fn lemma_no_draws(calls: Seq<RasterCall>)
    requires
        forall|i: int|
            0 <= i < calls.len() ==> !(#[trigger] calls[i] is Draw) && !(calls[i] is DrawIndexed),
    ensures
        draws(calls).len() == 0,
    decreases calls.len(),
{
    if calls.len() > 0 {
        assert(calls.last() == calls[calls.len() - 1]);
        assert forall|i: int| 0 <= i < calls.drop_last().len() implies !(
        #[trigger] calls.drop_last()[i] is Draw) && !(calls.drop_last()[i] is DrawIndexed) by {
            assert(calls.drop_last()[i] == calls[i]);
        }
        lemma_no_draws(calls.drop_last());
    }
}

/// The call draws what the command says.
pub open spec fn draws_as(call: RasterCall, command: RenderCommand) -> bool {
    match command {
        RenderCommand::Draw { vertex_count, instance_count, first_vertex, first_instance } => {
            &&& call is Draw
            &&& call->Draw_vertex_count == vertex_count
            &&& call->Draw_instance_count == instance_count
            &&& call->Draw_first_vertex == first_vertex
            &&& call->Draw_first_instance == first_instance
        },
        RenderCommand::DrawIndexed {
            index_count,
            instance_count,
            first_index,
            base_vertex,
            first_instance,
        } => {
            &&& call is DrawIndexed
            &&& call->index_count == index_count
            &&& call->DrawIndexed_instance_count == instance_count
            &&& call->first_index == first_index
            &&& call->base_vertex == base_vertex
            &&& call->DrawIndexed_first_instance == first_instance
        },
        _ => false,
    }
}

proof fn lemma_step_draws(
    scene: RasterScene,
    view: RasterView,
    command: RenderCommand,
    index: usize,
)
    requires
        raster_step(scene, view, command, index) is Ok,
    ensures
        ({
            let after = draws(raster_step(scene, view, command, index)->Ok_0.calls);
            if command is Draw || command is DrawIndexed {
                &&& after.len() == draws(view.calls).len() + 1
                &&& after.drop_last() == draws(view.calls)
                &&& draws_as(after.last(), command)
            } else {
                after == draws(view.calls)
            }
        }),
{
    let calls = raster_step(scene, view, command, index)->Ok_0.calls;
    let added = calls.skip(view.calls.len() as int);
    assert(calls =~= view.calls + added);
    lemma_draws_of_both(view.calls, added);
    if command is Draw || command is DrawIndexed {
        assert(calls.drop_last() =~= view.calls);
        assert(draws(calls).drop_last() =~= draws(view.calls));
    } else {
        lemma_no_draws(added);
        assert(draws(calls) =~= draws(view.calls));
    }
}

proof fn lemma_run_draws(
    scene: RasterScene,
    start: RasterView,
    commands: Seq<RenderCommand>,
    j: int,
)
    requires
        raster_run(scene, start, commands) is Ok,
        draws(start.calls).len() == 0,
    ensures
        ({
            let drawn = draws(raster_run(scene, start, commands)->Ok_0.calls);
            let wanted = draw_commands(commands);
            &&& drawn.len() == wanted.len()
            &&& 0 <= j < wanted.len() ==> draws_as(drawn[j], wanted[j])
        }),
    decreases commands.len(),
{
    if commands.len() > 0 {
        let rest = commands.drop_last();
        let view = raster_run(scene, start, rest)->Ok_0;
        lemma_run_draws(scene, start, rest, j);
        lemma_step_draws(scene, view, commands.last(), (commands.len() - 1) as usize);
        let drawn = draws(raster_run(scene, start, commands)->Ok_0.calls);
        if (commands.last() is Draw || commands.last() is DrawIndexed) && 0 <= j
            < draw_commands(rest).len() {
            assert(drawn.drop_last()[j] == drawn[j]);
        }
    }
}

/// Each draw command of a pass that is recorded becomes one draw call, in order, and no
/// other call draws. The call draws vertex `vertex` of instance `instance` exactly where
/// both lie in the ranges that the command names; of an indexed draw, exactly the places
/// and instances in its ranges, from its own base vertex.
pub proof fn each_draw_draws_its_vertices(
    scene: RasterScene,
    rt: CudaRenderTarget,
    load: TargetLoad,
    has_bindings: bool,
    commands: Seq<RenderCommand>,
    j: int,
    vertex: int,
    instance: int,
    base: int,
)
    requires
        pass_calls(scene, rt, load, has_bindings, commands) is Ok,
        0 <= j < draw_commands(commands).len(),
    ensures
        ({
            let drawn = draws(pass_calls(scene, rt, load, has_bindings, commands)->Ok_0);
            &&& drawn.len() == draw_commands(commands).len()
            &&& draw_commands(commands)[j] matches RenderCommand::Draw {
                vertex_count,
                instance_count,
                first_vertex,
                first_instance,
            } ==> (draws_vertex(drawn[j], vertex, instance) <==> first_vertex <= vertex
                < first_vertex + vertex_count && first_instance <= instance < first_instance
                + instance_count) && !draws_index(drawn[j], vertex, base, instance)
            &&& draw_commands(commands)[j] matches RenderCommand::DrawIndexed {
                index_count,
                instance_count,
                first_index,
                base_vertex,
                first_instance,
            } ==> (draws_index(drawn[j], vertex, base, instance) <==> first_index <= vertex
                < first_index + index_count && base == base_vertex && first_instance <= instance
                < first_instance + instance_count) && !draws_vertex(drawn[j], vertex, instance)
        }),
{
    each_draw_is_recorded(scene, rt, load, has_bindings, commands, j);
    lemma_draw_commands(commands, j);
}

proof fn lemma_draw_commands(commands: Seq<RenderCommand>, j: int)
    requires
        0 <= j < draw_commands(commands).len(),
    ensures
        draw_commands(commands)[j] is Draw || draw_commands(commands)[j] is DrawIndexed,
    decreases commands.len(),
{
    if j < draw_commands(commands.drop_last()).len() {
        lemma_draw_commands(commands.drop_last(), j);
    }
}

/// Each draw command of a pass that is recorded becomes one draw call with the counts and
/// the firsts of the command, in order, and no other call draws.
pub proof fn each_draw_is_recorded(
    scene: RasterScene,
    rt: CudaRenderTarget,
    load: TargetLoad,
    has_bindings: bool,
    commands: Seq<RenderCommand>,
    j: int,
)
    requires
        pass_calls(scene, rt, load, has_bindings, commands) is Ok,
    ensures
        ({
            let drawn = draws(pass_calls(scene, rt, load, has_bindings, commands)->Ok_0);
            &&& drawn.len() == draw_commands(commands).len()
            &&& 0 <= j < drawn.len() ==> draws_as(drawn[j], draw_commands(commands)[j])
        }),
{
    let start = RasterView {
        calls: pass_prologue(rt, load, has_bindings),
        stride: DEFAULT_VERTEX_STRIDE,
        pipeline: None,
    };
    lemma_no_draws(start.calls);
    lemma_run_draws(scene, start, commands, j);
    let all = pass_calls(scene, rt, load, has_bindings, commands)->Ok_0;
    assert(all.drop_last() =~= raster_run(scene, start, commands)->Ok_0.calls);
}

/// A view of a vertex buffer: where it lies, how long it is, and the bytes from one vertex
/// to the next.
#[verifier::ext_equal]
pub struct VertexView {
    pub location: int,
    pub size: int,
    pub stride: int,
}

/// A clear: of which target, while which was its state, to which colour.
#[verifier::ext_equal]
pub struct ClearedTo {
    pub target: Option<u32>,
    pub r: u32,
    pub g: u32,
    pub b: u32,
    pub a: u32,
}

/// What is bound on a command list after calls.
#[verifier::ext_equal]
pub struct Bound {
    pub heaps: bool,
    pub table: bool,
    /// The state of a resource that was transitioned.
    pub states: Map<u64, i32>,
    /// Every transition started from the state that its resource was in.
    pub consistent: bool,
    pub target: Option<u32>,
    pub cleared: Option<ClearedTo>,
    pub viewport: Option<(u32, u32)>,
    pub scissor: Option<(u32, u32)>,
    pub root_signature: Option<u64>,
    pub pipeline_state: Option<u64>,
    pub topology: Option<i32>,
    pub vertex_buffers: Map<u32, VertexView>,
    pub index_buffer: Option<(int, int, u32)>,
    /// The bind whose words the root constants are.
    pub constants: Option<usize>,
    /// The bind whose indices were held against a pipeline last, and that pipeline.
    pub validated: Option<(usize, u64)>,
}

/// The state that a resource was found in.
pub open spec fn state_of(bound: Bound, resource: u64) -> i32 {
    if bound.states.contains_key(resource) {
        bound.states[resource]
    } else {
        STATE_COMMON
    }
}

/// What a call binds.
pub open spec fn after_call(bound: Bound, call: RasterCall) -> Bound {
    match call {
        RasterCall::SetDescriptorHeaps => Bound { heaps: true, ..bound },
        RasterCall::RecordPrologue => Bound { table: true, ..bound },
        RasterCall::Transition { resource, before, after } => Bound {
            states: bound.states.insert(resource, after),
            consistent: bound.consistent && state_of(bound, resource) == before,
            ..bound
        },
        RasterCall::SetRenderTarget { rtv_offset } => Bound { target: Some(rtv_offset), ..bound },
        RasterCall::ClearTarget { r, g, b, a } => Bound {
            cleared: Some(ClearedTo { target: bound.target, r, g, b, a }),
            ..bound
        },
        RasterCall::SetViewport { width, height } => Bound {
            viewport: Some((width, height)),
            ..bound
        },
        RasterCall::SetScissor { width, height } => Bound {
            scissor: Some((width, height)),
            ..bound
        },
        RasterCall::SetRootSignature { root_signature } => Bound {
            root_signature: Some(root_signature),
            ..bound
        },
        RasterCall::SetPipelineState { pipeline_state } => Bound {
            pipeline_state: Some(pipeline_state),
            ..bound
        },
        RasterCall::SetTopology { topology } => Bound { topology: Some(topology), ..bound },
        RasterCall::SetVertexBuffer { slot, location, size, stride } => Bound {
            vertex_buffers: bound.vertex_buffers.insert(
                slot,
                VertexView { location: location as int, size: size as int, stride: stride as int },
            ),
            ..bound
        },
        RasterCall::SetIndexBuffer { location, size, dxgi_format } => Bound {
            index_buffer: Some((location as int, size as int, dxgi_format)),
            ..bound
        },
        RasterCall::ValidateSlots { pipeline, command } => Bound {
            validated: Some((command, pipeline)),
            ..bound
        },
        RasterCall::SetRootConstants { command } => Bound { constants: Some(command), ..bound },
        RasterCall::Draw { .. } => bound,
        RasterCall::DrawIndexed { .. } => bound,
    }
}

/// Nothing is bound on a fresh list.
pub open spec fn nothing_bound() -> Bound {
    Bound {
        heaps: false,
        table: false,
        states: Map::empty(),
        consistent: true,
        target: None,
        cleared: None,
        viewport: None,
        scissor: None,
        root_signature: None,
        pipeline_state: None,
        topology: None,
        vertex_buffers: Map::empty(),
        index_buffer: None,
        constants: None,
        validated: None,
    }
}

/// What calls bind, one after another.
pub open spec fn bound_by(calls: Seq<RasterCall>) -> Bound
    decreases calls.len(),
{
    if calls.len() == 0 {
        nothing_bound()
    } else {
        after_call(bound_by(calls.drop_last()), calls.last())
    }
}

proof fn lemma_bound_push(calls: Seq<RasterCall>, call: RasterCall)
    ensures
        bound_by(calls.push(call)) == after_call(bound_by(calls), call),
{
    assert(calls.push(call).drop_last() =~= calls);
}

/// The pipeline that commands set last.
pub open spec fn pipeline_set(commands: Seq<RenderCommand>) -> Option<u64>
    decreases commands.len(),
{
    if commands.len() == 0 {
        None
    } else {
        match commands.last() {
            RenderCommand::SetPipeline { pipeline } => Some(pipeline),
            _ => pipeline_set(commands.drop_last()),
        }
    }
}

/// Where commands set the vertex buffer of a slot last.
pub open spec fn vertex_set(commands: Seq<RenderCommand>, slot: u32) -> Option<int>
    decreases commands.len(),
{
    if commands.len() == 0 {
        None
    } else if commands.last() matches RenderCommand::SetVertexBuffer { slot: s, .. } && s == slot {
        Some(commands.len() - 1)
    } else {
        vertex_set(commands.drop_last(), slot)
    }
}

/// Where commands set the index buffer last.
pub open spec fn index_set(commands: Seq<RenderCommand>) -> Option<int>
    decreases commands.len(),
{
    if commands.len() == 0 {
        None
    } else if commands.last() is SetIndexBuffer {
        Some(commands.len() - 1)
    } else {
        index_set(commands.drop_last())
    }
}

/// Where commands bound words last.
pub open spec fn bind_set(commands: Seq<RenderCommand>) -> Option<int>
    decreases commands.len(),
{
    if commands.len() == 0 {
        None
    } else if commands.last() is BindResourcesRaw {
        Some(commands.len() - 1)
    } else {
        bind_set(commands.drop_last())
    }
}

/// The target of the pass is bound, transitioned and cleared, and the viewport and the
/// scissor cover it.
pub open spec fn targets(
    bound: Bound,
    rt: CudaRenderTarget,
    load: TargetLoad,
    has_bindings: bool,
) -> bool {
    &&& bound.heaps
    &&& bound.table == has_bindings
    &&& bound.consistent
    &&& state_of(bound, rt.resource) == STATE_RENDER_TARGET
    &&& bound.target == Some(rt.rtv_offset)
    &&& bound.viewport == Some((rt.width, rt.height))
    &&& bound.scissor == Some((rt.width, rt.height))
    &&& match load {
        TargetLoad::Clear { r, g, b, a } => bound.cleared matches Some(c) && c.target == Some(
            rt.rtv_offset,
        ) && c.r == r && c.g == g && c.b == b && c.a == a,
        _ => bound.cleared is None,
    }
}

/// The pipeline of the commands is the one that is bound.
pub open spec fn pipelined(bound: Bound, scene: RasterScene, commands: Seq<RenderCommand>) -> bool {
    match pipeline_set(commands) {
        None => bound.pipeline_state is None && bound.root_signature is None && bound.topology
            is None,
        Some(p) => {
            let q = scene.pipelines@[p];
            &&& scene.pipelines@.contains_key(p)
            &&& bound.pipeline_state == Some(q.pipeline_state)
            &&& bound.root_signature == Some(q.root_signature)
            &&& bound.topology == Some(
                match q.topology {
                    PrimitiveTopology::PointList => TOPOLOGY_POINTLIST,
                    PrimitiveTopology::LineList => TOPOLOGY_LINELIST,
                    PrimitiveTopology::LineStrip => TOPOLOGY_LINESTRIP,
                    PrimitiveTopology::TriangleList => TOPOLOGY_TRIANGLELIST,
                    PrimitiveTopology::TriangleStrip => TOPOLOGY_TRIANGLESTRIP,
                },
            )
        },
    }
}

/// The vertex buffer of a slot that is bound is the one that commands set last: it starts
/// at the offset of the command in the buffer and reaches to the end of the buffer, and its
/// stride is that of the pipeline which was set when it was set.
pub open spec fn vertices_bound(
    bound: Bound,
    scene: RasterScene,
    commands: Seq<RenderCommand>,
    slot: u32,
) -> bool {
    match vertex_set(commands, slot) {
        None => !bound.vertex_buffers.contains_key(slot),
        Some(at) => {
            let c = commands[at];
            let b = scene.buffers@[c->SetVertexBuffer_buffer];
            let view = bound.vertex_buffers[slot];
            &&& 0 <= at < commands.len()
            &&& c is SetVertexBuffer
            &&& bound.vertex_buffers.contains_key(slot)
            &&& scene.buffers@.contains_key(c->SetVertexBuffer_buffer)
            &&& b.shared is Some
            &&& view.location == b.shared->0.gpu_va + b.offset + c->SetVertexBuffer_offset
            &&& b.size <= u32::MAX ==> view.location + view.size == b.shared->0.gpu_va + b.offset
                + b.size
            &&& view.stride == match pipeline_set(commands.take(at)) {
                Some(p) => scene.pipelines@[p].vertex_stride as int,
                None => 24,
            }
        },
    }
}

/// The index buffer that is bound is the one that commands set last, with its own width of
/// an index.
pub open spec fn indices_bound(bound: Bound, scene: RasterScene, commands: Seq<RenderCommand>) -> bool {
    match index_set(commands) {
        None => bound.index_buffer is None,
        Some(at) => {
            let c = commands[at];
            let b = scene.buffers@[c->SetIndexBuffer_buffer];
            &&& 0 <= at < commands.len()
            &&& c is SetIndexBuffer
            &&& scene.buffers@.contains_key(c->SetIndexBuffer_buffer)
            &&& b.shared is Some
            &&& bound.index_buffer matches Some((location, size, format))
            &&& location == b.shared->0.gpu_va + b.offset + c->SetIndexBuffer_offset
            &&& b.size <= u32::MAX ==> location + size == b.shared->0.gpu_va + b.offset + b.size
            &&& format == match c->format {
                IndexFormat::Uint16 => DXGI_FORMAT_R16_UINT,
                IndexFormat::Uint32 => DXGI_FORMAT_R32_UINT,
            }
        },
    }
}

/// The root constants are the words of the bind that commands made last, and its indices
/// were held against the pipeline that was set then.
pub open spec fn words_bound(bound: Bound, commands: Seq<RenderCommand>) -> bool {
    match bind_set(commands) {
        None => bound.constants is None && bound.validated is None,
        Some(at) => {
            &&& 0 <= at < commands.len()
            &&& commands[at] is BindResourcesRaw
            &&& bound.constants == Some(at as usize)
            &&& pipeline_set(commands.take(at)) matches Some(p) ==> bound.validated == Some(
                (at as usize, p),
            )
        },
    }
}

proof fn lemma_prologue(rt: CudaRenderTarget, load: TargetLoad, has_bindings: bool)
    ensures
        ({
            let bound = bound_by(pass_prologue(rt, load, has_bindings));
            &&& targets(bound, rt, load, has_bindings)
            &&& bound.pipeline_state is None
            &&& bound.root_signature is None
            &&& bound.topology is None
            &&& bound.vertex_buffers == Map::<u32, VertexView>::empty()
            &&& bound.index_buffer is None
            &&& bound.constants is None
            &&& bound.validated is None
        }),
{
    let all = pass_prologue(rt, load, has_bindings);
    let a = Seq::<RasterCall>::empty();
    let b = a.push(all[0]);
    lemma_bound_push(a, all[0]);
    let n: int = if has_bindings {
        2
    } else {
        1
    };
    let c = if has_bindings {
        b.push(all[1])
    } else {
        b
    };
    lemma_bound_push(b, all[1]);
    let d = c.push(all[n]);
    lemma_bound_push(c, all[n]);
    let e = d.push(all[n + 1]);
    lemma_bound_push(d, all[n + 1]);
    let m: int = if load is Clear {
        n + 3
    } else {
        n + 2
    };
    let f = if load is Clear {
        e.push(all[n + 2])
    } else {
        e
    };
    lemma_bound_push(e, all[n + 2]);
    let g = f.push(all[m]);
    lemma_bound_push(f, all[m]);
    let h = g.push(all[m + 1]);
    lemma_bound_push(g, all[m + 1]);
    assert(h =~= all);
}

proof fn lemma_takes(commands: Seq<RenderCommand>, at: int)
    requires
        0 <= at < commands.len(),
    ensures
        commands.drop_last().take(at) == commands.take(at),
        at < commands.len() - 1 ==> commands.drop_last()[at] == commands[at],
{
    assert(commands.drop_last().take(at) =~= commands.take(at));
}

proof fn lemma_sets(commands: Seq<RenderCommand>, slot: u32)
    ensures
        vertex_set(commands, slot) matches Some(at) ==> 0 <= at < commands.len(),
        index_set(commands) matches Some(at) ==> 0 <= at < commands.len(),
        bind_set(commands) matches Some(at) ==> 0 <= at < commands.len(),
    decreases commands.len(),
{
    if commands.len() > 0 {
        lemma_sets(commands.drop_last(), slot);
    }
}

#[verifier::rlimit(40)]
proof fn lemma_run_binds(
    scene: RasterScene,
    rt: CudaRenderTarget,
    load: TargetLoad,
    has_bindings: bool,
    commands: Seq<RenderCommand>,
    slot: u32,
)
    requires
        addressable(scene),
        ({
            let start = RasterView {
                calls: pass_prologue(rt, load, has_bindings),
                stride: DEFAULT_VERTEX_STRIDE,
                pipeline: None,
            };
            raster_run(scene, start, commands) is Ok
        }),
    ensures
        ({
            let start = RasterView {
                calls: pass_prologue(rt, load, has_bindings),
                stride: DEFAULT_VERTEX_STRIDE,
                pipeline: None,
            };
            let view = raster_run(scene, start, commands)->Ok_0;
            let bound = bound_by(view.calls);
            &&& targets(bound, rt, load, has_bindings)
            &&& pipelined(bound, scene, commands)
            &&& view.pipeline == pipeline_set(commands)
            &&& view.stride == match pipeline_set(commands) {
                Some(p) => scene.pipelines@[p].vertex_stride,
                None => 24,
            }
            &&& vertices_bound(bound, scene, commands, slot)
            &&& indices_bound(bound, scene, commands)
            &&& words_bound(bound, commands)
        }),
    decreases commands.len(),
{
    let start = RasterView {
        calls: pass_prologue(rt, load, has_bindings),
        stride: DEFAULT_VERTEX_STRIDE,
        pipeline: None,
    };
    lemma_prologue(rt, load, has_bindings);
    if commands.len() > 0 {
        let rest = commands.drop_last();
        let n = commands.len() - 1;
        lemma_run_binds(scene, rt, load, has_bindings, rest, slot);
        lemma_sets(rest, slot);
        let before = raster_run(scene, start, rest)->Ok_0;
        let view = raster_run(scene, start, commands)->Ok_0;
        assert(commands[n] == commands.last());
        assert(commands.take(n) =~= rest);
        if vertex_set(rest, slot) is Some {
            lemma_takes(commands, vertex_set(rest, slot)->0);
        }
        if index_set(rest) is Some {
            lemma_takes(commands, index_set(rest)->0);
        }
        if bind_set(rest) is Some {
            lemma_takes(commands, bind_set(rest)->0);
        }
        match commands.last() {
            RenderCommand::SetPipeline { pipeline } => {
                let l = view.calls.len();
                let a = before.calls.push(view.calls[l - 3]);
                let b = a.push(view.calls[l - 2]);
                assert(view.calls =~= b.push(view.calls[l - 1]));
                lemma_bound_push(before.calls, view.calls[l - 3]);
                lemma_bound_push(a, view.calls[l - 2]);
                lemma_bound_push(b, view.calls[l - 1]);
            },
            RenderCommand::BindResourcesRaw { .. } => {
                let l = view.calls.len();
                if before.pipeline is Some {
                    let a = before.calls.push(view.calls[l - 2]);
                    assert(view.calls =~= a.push(view.calls[l - 1]));
                    lemma_bound_push(before.calls, view.calls[l - 2]);
                    lemma_bound_push(a, view.calls[l - 1]);
                } else {
                    assert(view.calls =~= before.calls.push(view.calls[l - 1]));
                    lemma_bound_push(before.calls, view.calls[l - 1]);
                }
            },
            RenderCommand::SetVertexBuffer { slot: s, buffer, offset } => {
                let b = scene.buffers@[buffer];
                let size = (b.size - offset) as u64;
                assert(size <= u32::MAX ==> size as u32 == size) by (bit_vector);
                lemma_bound_push(before.calls, view.calls.last());
            },
            RenderCommand::SetIndexBuffer { buffer, offset, format } => {
                let b = scene.buffers@[buffer];
                let size = (b.size - offset) as u64;
                assert(size <= u32::MAX ==> size as u32 == size) by (bit_vector);
                lemma_bound_push(before.calls, view.calls.last());
            },
            _ => {
                assert(view.calls =~= before.calls.push(view.calls.last()));
                lemma_bound_push(before.calls, view.calls.last());
            },
        }
    }
}

/// Recording goes on from what the commands before it came to: a pass begins with the calls
/// that a pass of its first commands has before its end.
pub proof fn pass_extends_its_beginning(
    scene: RasterScene,
    rt: CudaRenderTarget,
    load: TargetLoad,
    has_bindings: bool,
    commands: Seq<RenderCommand>,
    i: int,
)
    requires
        pass_calls(scene, rt, load, has_bindings, commands) is Ok,
        0 <= i <= commands.len(),
    ensures
        ({
            let all = pass_calls(scene, rt, load, has_bindings, commands)->Ok_0;
            let part = pass_calls(scene, rt, load, has_bindings, commands.take(i))->Ok_0;
            &&& pass_calls(scene, rt, load, has_bindings, commands.take(i)) is Ok
            &&& 0 < part.len() <= all.len()
            &&& all.take(part.len() - 1) == part.drop_last()
        }),
    decreases commands.len(),
{
    let all = pass_calls(scene, rt, load, has_bindings, commands)->Ok_0;
    let part = pass_calls(scene, rt, load, has_bindings, commands.take(i))->Ok_0;
    if i == commands.len() {
        assert(commands.take(i) =~= commands);
        assert(all.take(part.len() - 1) =~= part.drop_last());
    } else {
        let rest = commands.drop_last();
        let mid = pass_calls(scene, rt, load, has_bindings, rest)->Ok_0;
        assert(rest.take(i) =~= commands.take(i));
        pass_extends_its_beginning(scene, rt, load, has_bindings, rest, i);
        assert(all.take(mid.len() - 1) =~= mid.drop_last());
        assert(all.take(part.len() - 1) =~= mid.take(part.len() - 1));
    }
}

/// A draw of a recorded pass is made with what the commands before it have set: the target
/// of the pass, in the state of a render target and cleared to the colour of the pass if it
/// is cleared at all; the pipeline set last; in each slot the vertex buffer set last; the
/// index buffer set last; and the words bound last.
pub proof fn draw_is_made_with_what_was_set(
    scene: RasterScene,
    rt: CudaRenderTarget,
    load: TargetLoad,
    has_bindings: bool,
    commands: Seq<RenderCommand>,
    i: int,
    slot: u32,
) -> (k: int)
    requires
        addressable(scene),
        pass_calls(scene, rt, load, has_bindings, commands) is Ok,
        0 <= i < commands.len(),
        commands[i] is Draw || commands[i] is DrawIndexed,
    ensures
        ({
            let all = pass_calls(scene, rt, load, has_bindings, commands)->Ok_0;
            let bound = bound_by(all.take(k));
            let before = commands.take(i);
            &&& 0 <= k < all.len()
            &&& draws_as(all[k], commands[i])
            &&& draws(all.take(k)).len() == draw_commands(before).len()
            &&& targets(bound, rt, load, has_bindings)
            &&& pipelined(bound, scene, before)
            &&& vertices_bound(bound, scene, before, slot)
            &&& indices_bound(bound, scene, before)
            &&& words_bound(bound, before)
        }),
{
    let all = pass_calls(scene, rt, load, has_bindings, commands)->Ok_0;
    pass_extends_its_beginning(scene, rt, load, has_bindings, commands, i + 1);
    pass_extends_its_beginning(scene, rt, load, has_bindings, commands, i);
    let start = RasterView {
        calls: pass_prologue(rt, load, has_bindings),
        stride: DEFAULT_VERTEX_STRIDE,
        pipeline: None,
    };
    let before = commands.take(i);
    let next = commands.take(i + 1);
    assert(next.drop_last() =~= before);
    assert(next.last() == commands[i]);
    let view = raster_run(scene, start, before)->Ok_0;
    let after = raster_run(scene, start, next)->Ok_0;
    let part = pass_calls(scene, rt, load, has_bindings, before)->Ok_0;
    let more = pass_calls(scene, rt, load, has_bindings, next)->Ok_0;
    lemma_run_binds(scene, rt, load, has_bindings, before, slot);
    lemma_no_draws(start.calls);
    lemma_run_draws(scene, start, before, 0);
    let k = view.calls.len() as int;
    assert(part.drop_last() =~= view.calls);
    assert(more.drop_last() =~= after.calls);
    assert(all.take(k) =~= view.calls);
    assert(all.take(more.len() - 1)[k] == all[k]);
    k
}

/// A pass leaves its target in the common state that it found it in; every transition
/// starts from the state that the resource is in.
pub proof fn pass_gives_its_target_back(
    scene: RasterScene,
    rt: CudaRenderTarget,
    load: TargetLoad,
    has_bindings: bool,
    commands: Seq<RenderCommand>,
)
    requires
        addressable(scene),
        pass_calls(scene, rt, load, has_bindings, commands) is Ok,
    ensures
        ({
            let bound = bound_by(pass_calls(scene, rt, load, has_bindings, commands)->Ok_0);
            &&& bound.consistent
            &&& state_of(bound, rt.resource) == STATE_COMMON
        }),
{
    let start = RasterView {
        calls: pass_prologue(rt, load, has_bindings),
        stride: DEFAULT_VERTEX_STRIDE,
        pipeline: None,
    };
    let view = raster_run(scene, start, commands)->Ok_0;
    let all = pass_calls(scene, rt, load, has_bindings, commands)->Ok_0;
    lemma_run_binds(scene, rt, load, has_bindings, commands, 0);
    lemma_bound_push(view.calls, all.last());
}

/// A buffer can be bound from an offset on.
pub open spec fn can_bind(scene: RasterScene, buffer: u64, offset: u64) -> bool {
    &&& scene.buffers@.contains_key(buffer)
    &&& offset < scene.buffers@[buffer].size
    &&& scene.buffers@[buffer].shared is Some
}

/// A command can be recorded.
pub open spec fn can_record(scene: RasterScene, command: RenderCommand) -> bool {
    match command {
        RenderCommand::SetPipeline { pipeline } => scene.pipelines@.contains_key(pipeline),
        RenderCommand::SetVertexBuffer { slot, buffer, offset } => can_bind(scene, buffer, offset),
        RenderCommand::SetIndexBuffer { buffer, offset, format } => can_bind(scene, buffer, offset),
        RenderCommand::Draw { .. } => true,
        RenderCommand::DrawIndexed { .. } => true,
        RenderCommand::ClearDepth { .. } => false,
        RenderCommand::BindResources { .. } => false,
        RenderCommand::BindResourcesRaw { .. } => true,
        RenderCommand::BindResourcesTyped { .. } => false,
    }
}

/// A pass is recorded exactly where each of its commands can be: pipelines and buffers are
/// known, buffers are bound inside, and no command is one that has no place in a pass.
pub proof fn pass_is_recorded_where_its_commands_can_be(
    scene: RasterScene,
    rt: CudaRenderTarget,
    load: TargetLoad,
    has_bindings: bool,
    commands: Seq<RenderCommand>,
)
    ensures
        pass_calls(scene, rt, load, has_bindings, commands) is Ok <==> forall|i: int|
            0 <= i < commands.len() ==> can_record(scene, #[trigger] commands[i]),
    decreases commands.len(),
{
    if commands.len() > 0 {
        let rest = commands.drop_last();
        pass_is_recorded_where_its_commands_can_be(scene, rt, load, has_bindings, rest);
        if forall|i: int| 0 <= i < commands.len() ==> can_record(scene, #[trigger] commands[i]) {
            assert forall|i: int| 0 <= i < rest.len() implies can_record(
                scene,
                #[trigger] rest[i],
            ) by {
                assert(rest[i] == commands[i]);
            }
            assert(can_record(scene, commands[commands.len() - 1]));
        }
        if pass_calls(scene, rt, load, has_bindings, commands) is Ok {
            assert forall|i: int| 0 <= i < commands.len() implies can_record(
                scene,
                #[trigger] commands[i],
            ) by {
                if i < rest.len() {
                    assert(rest[i] == commands[i]);
                }
            }
        }
    }
}

/// The error of a refused pass tells of the first command that cannot be recorded: of an
/// unknown pipeline or buffer, of an offset outside, of memory that the companion does not
/// share, or of a command that has no place in a pass.
pub proof fn first_bad_command_refuses_the_pass(
    scene: RasterScene,
    rt: CudaRenderTarget,
    load: TargetLoad,
    has_bindings: bool,
    commands: Seq<RenderCommand>,
    n: int,
)
    requires
        0 <= n < commands.len(),
        forall|i: int| 0 <= i < n ==> can_record(scene, #[trigger] commands[i]),
        !can_record(scene, commands[n]),
    ensures
        ({
            let refused = pass_calls(scene, rt, load, has_bindings, commands);
            &&& refused is Err
            &&& commands[n] is ClearDepth <==> refused->Err_0 is ClearDepthUnsupported
            &&& commands[n] is BindResources || commands[n] is BindResourcesTyped
                <==> refused->Err_0 is BindNotLowered
            &&& commands[n] is SetPipeline <==> refused->Err_0 is InvalidPipeline
            &&& commands[n] matches RenderCommand::SetVertexBuffer { slot, buffer, offset } ==> {
                &&& refused->Err_0 is InvalidVertexBuffer <==> !scene.buffers@.contains_key(buffer)
                &&& refused->Err_0 is VertexOffsetOutOfRange <==> scene.buffers@.contains_key(buffer)
                    && offset >= scene.buffers@[buffer].size
                &&& refused->Err_0 is VertexBackingMissing <==> scene.buffers@.contains_key(buffer)
                    && offset < scene.buffers@[buffer].size
            }
            &&& commands[n] matches RenderCommand::SetIndexBuffer { buffer, offset, format } ==> {
                &&& refused->Err_0 is InvalidIndexBuffer <==> !scene.buffers@.contains_key(buffer)
                &&& refused->Err_0 is IndexOffsetOutOfRange <==> scene.buffers@.contains_key(buffer)
                    && offset >= scene.buffers@[buffer].size
                &&& refused->Err_0 is IndexBackingMissing <==> scene.buffers@.contains_key(buffer)
                    && offset < scene.buffers@[buffer].size
            }
        }),
    decreases commands.len(),
{
    let rest = commands.drop_last();
    assert forall|i: int| 0 <= i < n implies can_record(scene, #[trigger] rest[i]) by {
        assert(rest[i] == commands[i]);
    }
    if n == commands.len() - 1 {
        pass_is_recorded_where_its_commands_can_be(scene, rt, load, has_bindings, rest);
    } else {
        assert(rest[n] == commands[n]);
        first_bad_command_refuses_the_pass(scene, rt, load, has_bindings, rest, n);
    }
}

} // verus!
