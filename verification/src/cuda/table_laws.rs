//! What is kept of events, programs, textures and host memory, and what is answered about
//! them.

use std::collections::{HashMap, HashSet};
use vstd::prelude::*;

use super::hold_laws::events_are_free_where_nobody_waits;
use super::ops::CudaOp;
use super::pinned_host::CudaPinnedHost;
use super::present::ScratchDecision;
use super::raster::{CudaGraphicsPipeline, RasterTables};
use super::raster_backing::{Refresh, RefreshCall};
use super::retained_graph::{
    lists_context, CudaRetainedProgram, GraphRegistry, PendingDrop,
};
use super::submit::{
    after_capture, materialize_deferred_writes, BufferPlace, CaptureNext, DeferredHostWrite,
    MaterializedHostWrite, UnknownBuffer,
};
use super::surface::{
    client_size, present_args, CudaSurfaceState, PresentMode, PRESENT_ALLOW_TEARING,
};
use super::surface_table::SurfaceTables;
use super::texture::{
    CudaSamplerKey, CudaTexture, SamplerDesc, TextureError, TextureFormat,
};
use super::texture_objects::{plan_array, ArrayPlan};
use super::timeline::{
    observable, unshared, CompletionQuery, EventLedger, EventPool, PollOutcome, RetiredEvent,
    TimelineProgress,
};

verus! {

broadcast use vstd::std_specs::hash::group_hash_axioms;

/// Memory that is given another length keeps what fits of its bytes where that is asked for;
/// every other byte is zero.
pub proof fn resized_memory_keeps_what_fits(
    host: &mut CudaPinnedHost,
    new_len: usize,
    preserve: bool,
    mapping: Option<u64>,
    i: int,
)
    requires
        call_ensures(CudaPinnedHost::resize, (host, new_len, preserve, mapping), ()),
        0 <= i < new_len,
    ensures
        final(host).bytes@.len() == new_len,
        preserve && i < old(host).bytes@.len() ==> final(host).bytes@[i] == old(host).bytes@[i],
        !preserve || i >= old(host).bytes@.len() ==> final(host).bytes@[i] == 0,
        final(host).flags == old(host).flags,
{
}

/// Memory that is allocated is all zeros, and as long as asked for.
pub proof fn allocated_memory_is_zero(
    len: usize,
    flags: u32,
    mapping: Option<u64>,
    host: CudaPinnedHost,
    i: int,
)
    requires
        call_ensures(CudaPinnedHost::alloc_with_flags, (len, flags, mapping), host),
        0 <= i < len,
    ensures
        host.bytes@.len() == len,
        host.bytes@[i] == 0,
        host.flags == flags,
        host.device_ptr == mapping || host.device_ptr is None,
{
}

/// A deferred write goes to its own place in the memory of its buffer, with its own bytes,
/// and in its own turn.
pub proof fn deferred_writes_go_to_their_places(
    writes: &Vec<DeferredHostWrite>,
    places: &HashMap<u64, BufferPlace>,
    result: Result<Vec<MaterializedHostWrite>, UnknownBuffer>,
    i: int,
)
    requires
        call_ensures(materialize_deferred_writes, (writes, places), result),
        0 <= i < writes@.len(),
        places@.contains_key(writes@[i].buffer) ==> places@[writes@[i].buffer].base_offset
            + writes@[i].offset <= u64::MAX,
    ensures
        result is Ok ==> places@.contains_key(writes@[i].buffer),
        result matches Ok(out) ==> {
            &&& out@.len() == writes@.len()
            &&& out@[i].memory == places@[writes@[i].buffer].memory
            &&& out@[i].abs_offset == places@[writes@[i].buffer].base_offset + writes@[i].offset
            &&& out@[i].payload == writes@[i].payload
            &&& out@[i].len == writes@[i].len
        },
        result matches Err(e) ==> !places@.contains_key(e.buffer),
{
}

/// A capture that was recorded and ended gives the graph that it ended in; indirect launches
/// need more to be done before it can run.
pub proof fn capture_gives_its_graph(
    recorded: bool,
    ended: Option<u64>,
    ops: &Vec<CudaOp>,
    next: CaptureNext,
    i: int,
)
    requires
        call_ensures(after_capture, (recorded, ended, ops), next),
    ensures
        next is RecordingFailed <==> !recorded,
        next is EndFailed <==> recorded && ended is None,
        next is EmptyGraph <==> recorded && ended == Some(0u64),
        next matches CaptureNext::FinalizeIndirect { graph } ==> ended == Some(graph),
        next matches CaptureNext::Instantiate { graph } ==> ended == Some(graph),
        next is Instantiate && 0 <= i < ops@.len() ==> !(ops@[i] is LaunchIndirect),
        next is FinalizeIndirect ==> exists|k: int|
            0 <= k < ops@.len() && #[trigger] ops@[k] is LaunchIndirect,
{
}

/// Each recorded entry whose completion can be asked about is asked about, for its own
/// completion, and no other is.
pub proof fn recorded_entries_are_asked_about(
    ledger: &EventLedger,
    queries: Vec<CompletionQuery>,
    value: u64,
    i: int,
)
    requires
        call_ensures(EventLedger::queries, (ledger,), queries),
    ensures
        0 <= i < queries@.len() ==> ledger@.contains_key(queries@[i].value)
            && ledger@[queries@[i].value].recorded && ledger@[queries@[i].value].completion
            == queries@[i].completion,
        ledger@.contains_key(value) && ledger@[value].recorded && ledger@[value].completion
            is CudaEvent ==> exists|k: int|
            0 <= k < queries@.len() && (#[trigger] queries@[k]).value == value,
        0 <= i && i + 1 < queries@.len() ==> queries@[i].value < queries@[i + 1].value,
{
    if ledger@.contains_key(value) && ledger@[value].recorded && ledger@[value].completion
        is CudaEvent {
        assert(observable(ledger@[value].completion));
    }
}

/// An event counts as recorded once it is marked, and no other does by that.
pub proof fn marked_event_is_recorded(ledger: &mut EventLedger, value: u64, other: u64)
    requires
        call_ensures(EventLedger::mark_recorded, (ledger, value), ()),
    ensures
        old(ledger)@.contains_key(value) ==> final(ledger)@.contains_key(value)
            && final(ledger)@[value].recorded && final(ledger)@[value].completion
            == old(ledger)@[value].completion && final(ledger)@[value].context
            == old(ledger)@[value].context,
        final(ledger)@.dom() == old(ledger)@.dom(),
        other != value ==> final(ledger)@[other] == old(ledger)@[other],
{
    assert(final(ledger)@.dom() =~= old(ledger)@.dom());
}

/// A fence value is bound to the entry of its timeline value, where a fence marks that one,
/// and to no other.
pub proof fn fence_value_is_bound_to_its_entry(
    ledger: &mut EventLedger,
    timeline: u64,
    fence_value: u64,
    other: u64,
)
    requires
        call_ensures(EventLedger::bind_dx12_fence_value, (ledger, timeline, fence_value), ()),
    ensures
        old(ledger)@.contains_key(timeline) && old(ledger)@[timeline].completion is Dx12Fence ==> {
            let was = old(ledger)@[timeline].completion;
            let now = final(ledger)@[timeline].completion;
            &&& final(ledger)@.contains_key(timeline)
            &&& now is Dx12Fence
            &&& now->value == fence_value
            &&& now->companion == was->companion
            &&& now->recycle == was->recycle
        },
        old(ledger)@.contains_key(timeline) && old(ledger)@[timeline].completion is CudaEvent
            ==> final(ledger)@ == old(ledger)@,
        other != timeline ==> (final(ledger)@.contains_key(other) <==> old(ledger)@.contains_key(
            other,
        )) && final(ledger)@[other] == old(ledger)@[other],
{
}

/// Polling never moves a timeline back; listeners are told of each value that was crossed,
/// once and in order, and the device retires no value of which the completion was not seen.
pub proof fn polled_timeline_moves_on(
    ledger: &mut EventLedger,
    context: u64,
    progress: &mut TimelineProgress,
    complete: &HashSet<u64>,
    outcome: PollOutcome,
    i: int,
    value: u64,
)
    requires
        call_ensures(EventLedger::poll_retire_events, (ledger, context, progress, complete), outcome),
    ensures
        final(progress).context_completed >= old(progress).context_completed,
        final(progress).last_emitted >= old(progress).last_emitted,
        final(progress).device_retired >= old(progress).device_retired,
        0 <= i < outcome.signals@.len() ==> outcome.signals@[i] == old(progress).last_emitted + 1
            + i,
        outcome.signals@.len() == final(progress).last_emitted - old(progress).last_emitted,
        final(progress).last_emitted >= final(progress).context_completed,
        final(ledger)@.contains_key(value) ==> old(ledger)@.contains_key(value)
            && final(ledger)@[value] == old(ledger)@[value],
{
}

/// The pool hands out an event that it holds, which it then no longer does; it holds none
/// only where it had none.
pub proof fn event_is_handed_out_once(pool: &mut EventPool, event: Option<u64>)
    requires
        call_ensures(EventPool::acquire, (pool,), event),
    ensures
        event is None <==> old(pool).free@.len() == 0,
        event matches Some(e) ==> old(pool).free@ == final(pool).free@.push(e),
        event is None ==> final(pool).free@ == old(pool).free@,
{
    if event is Some {
        assert(old(pool).free@ =~= final(pool).free@.push(event->0));
    }
}

/// Every event that nobody waits for goes back to the pool or is handed out to be
/// destroyed, and nothing else is.
pub proof fn recycled_events_are_kept_or_handed_out(
    pool: &mut EventPool,
    events: &Vec<RetiredEvent>,
    overflow: Vec<u64>,
    i: int,
)
    requires
        call_ensures(EventPool::recycle_many, (pool, events), overflow),
        0 <= i < events@.len(),
    ensures
        !events@[i].shared ==> final(pool).free@.contains(events@[i].event) || overflow@.contains(
            events@[i].event,
        ),
        final(pool).free@.len() >= old(pool).free@.len(),
{
    if !events@[i].shared {
        let event = events@[i].event;
        events_are_free_where_nobody_waits(events@, event);
        let back = unshared(events@);
        let k = choose|k: int| 0 <= k < back.len() && back[k] == event;
        let all = old(pool).free@ + back;
        let kept = final(pool).free@;
        let at: int = old(pool).free@.len() + k;
        let both = kept + overflow@;
        assert(all[at] == event);
        assert(both == all);
        assert(0 <= at < both.len() && both[at] == event);
        if at < kept.len() {
            assert(kept[at] == event);
        } else {
            let from: int = at - kept.len();
            assert(0 <= from < overflow@.len());
            assert(both[at] == overflow@[from]);
        }
    }
}

/// A program that is kept takes the place of the one under its key, and of no other; the
/// old one waits for its drop until this submission has retired.
pub proof fn kept_program_replaces_its_own(
    registry: &mut GraphRegistry,
    ctx: u64,
    key: u64,
    retired: u64,
    fence: u64,
    program: CudaRetainedProgram,
    dropped: Vec<PendingDrop>,
    other: (u64, u64),
    i: int,
)
    requires
        call_ensures(
            GraphRegistry::replace,
            (registry, ctx, key, retired, fence, program),
            dropped,
        ),
    ensures
        final(registry)@.graphs.contains_key((ctx, key)),
        final(registry)@.graphs[(ctx, key)] == program,
        other != (ctx, key) ==> (final(registry)@.graphs.contains_key(other)
            <==> old(registry)@.graphs.contains_key(other)) && final(registry)@.graphs[other]
            == old(registry)@.graphs[other],
        0 <= i < dropped@.len() ==> dropped@[i].retire_at <= retired,
{
    if 0 <= i < dropped@.len() {
        old(registry)@.pending_drops.lemma_filter_pred(
            |p: PendingDrop| p.retire_at <= retired,
            i,
        );
    }
}

/// A program that is removed is the one kept under its key, and no other goes.
pub proof fn removed_program_is_the_one_kept(
    registry: &mut GraphRegistry,
    ctx: u64,
    key: u64,
    program: Option<CudaRetainedProgram>,
    other: (u64, u64),
)
    requires
        call_ensures(GraphRegistry::remove, (registry, ctx, key), program),
    ensures
        !final(registry)@.graphs.contains_key((ctx, key)),
        program is Some <==> old(registry)@.graphs.contains_key((ctx, key)),
        program matches Some(p) ==> p == old(registry)@.graphs[(ctx, key)],
        other != (ctx, key) ==> (final(registry)@.graphs.contains_key(other)
            <==> old(registry)@.graphs.contains_key(other)) && final(registry)@.graphs[other]
            == old(registry)@.graphs[other],
        final(registry)@.pending_drops == old(registry)@.pending_drops,
{
}

/// A context that goes takes its own programs with it, each of them, and no other's.
pub proof fn context_takes_its_programs_with_it(
    registry: &mut GraphRegistry,
    ctx: u64,
    removed: Vec<CudaRetainedProgram>,
    key: u64,
    other: u64,
)
    requires
        call_ensures(GraphRegistry::remove_context, (registry, ctx), removed),
    ensures
        !final(registry)@.graphs.contains_key((ctx, key)),
        old(registry)@.graphs.contains_key((ctx, key)) ==> removed@.contains(
            old(registry)@.graphs[(ctx, key)],
        ),
        other != ctx ==> (final(registry)@.graphs.contains_key((other, key))
            <==> old(registry)@.graphs.contains_key((other, key))),
        other != ctx && old(registry)@.graphs.contains_key((other, key))
            ==> final(registry)@.graphs[(other, key)] == old(registry)@.graphs[(other, key)],
{
    let keys = choose|keys: Seq<u64>| #[trigger]
        lists_context(old(registry)@.graphs, ctx, keys, removed@);
    if old(registry)@.graphs.contains_key((ctx, key)) {
        assert(keys.contains(key));
        let i = choose|i: int| 0 <= i < keys.len() && keys[i] == key;
        assert(removed@[i] == old(registry)@.graphs[(ctx, key)]);
    }
}

/// A program is dropped once its last launch has retired, and waits before that.
pub proof fn programs_are_dropped_once_retired(
    registry: &mut GraphRegistry,
    retired: u64,
    dropped: Vec<PendingDrop>,
    i: int,
)
    requires
        call_ensures(GraphRegistry::drain_retired, (registry, retired), dropped),
        0 <= i < old(registry)@.pending_drops.len(),
    ensures
        old(registry)@.pending_drops[i].retire_at <= retired ==> dropped@.contains(
            old(registry)@.pending_drops[i],
        ),
        old(registry)@.pending_drops[i].retire_at > retired
            ==> final(registry)@.pending_drops.contains(old(registry)@.pending_drops[i]),
        final(registry)@.graphs == old(registry)@.graphs,
{
    let pending = old(registry)@.pending_drops;
    if pending[i].retire_at <= retired {
        pending.lemma_filter_contains(|p: PendingDrop| p.retire_at <= retired, i);
    } else {
        pending.lemma_filter_contains(|p: PendingDrop| p.retire_at > retired, i);
    }
}

/// The array of a texture has its size, and takes stores where they are asked for.
pub proof fn planned_array_has_the_size(
    width: u32,
    height: u32,
    format: TextureFormat,
    need_surface: bool,
    plan: Result<ArrayPlan, TextureError>,
)
    requires
        call_ensures(plan_array, (width, height, format, need_surface), plan),
    ensures
        plan is Ok <==> !(format is Bgra8Unorm || format is Bgra8UnormSrgb),
        plan matches Ok(p) ==> p.width == width && p.height == height && (p.surface_flags is Some
            <==> need_surface),
{
}

/// A sampler is taken exactly where it does not compare, and filters alike both ways.
pub proof fn sampler_is_taken_where_it_can_be_had(
    desc: &SamplerDesc,
    key: Result<CudaSamplerKey, TextureError>,
)
    requires
        call_ensures(CudaSamplerKey::from_desc, (desc,), key),
    ensures
        key is Ok <==> desc.compare is None && desc.mag_filter == desc.min_filter,
        key matches Err(e) ==> (e == TextureError::ComparisonSampling <==> desc.compare is Some),
{
}

/// A window is as large as its rectangle, but at least one pixel each way.
pub proof fn window_has_the_size_of_its_rectangle(
    left: i32,
    top: i32,
    right: i32,
    bottom: i32,
    size: (u32, u32),
)
    requires
        call_ensures(client_size, (left, top, right, bottom), size),
        i32::MIN <= right - left <= i32::MAX,
        i32::MIN <= bottom - top <= i32::MAX,
    ensures
        size.0 >= 1 && size.1 >= 1,
        right > left ==> size.0 == right - left,
        bottom > top ==> size.1 == bottom - top,
        right <= left ==> size.0 == 1,
        bottom <= top ==> size.1 == 1,
{
}

/// Only an immediate present that may tear is shown without waiting for the display.
pub proof fn only_tearing_presents_do_not_wait(
    mode: PresentMode,
    allow_tearing: bool,
    args: (u32, u32),
)
    requires
        call_ensures(present_args, (mode, allow_tearing), args),
    ensures
        args.0 == 0 <==> mode is Immediate && allow_tearing,
        args.0 <= 1,
        args.1 == PRESENT_ALLOW_TEARING <==> args.0 == 0,
        args.0 == 1 ==> args.1 == 0,
{
}

/// Scratch of the size of the surface is used again; other scratch is replaced, and missing
/// scratch is made.
pub proof fn scratch_of_the_right_size_is_used_again(
    state: &CudaSurfaceState,
    image: usize,
    decision: ScratchDecision,
)
    requires
        call_ensures(CudaSurfaceState::scratch_decision, (state, image), decision),
        image < state.scratch@.len(),
    ensures
        decision is Create <==> state.scratch@[image as int] is None,
        state.scratch@[image as int] matches Some(slot) ==> {
            let fits = slot.shared.width == state.width && slot.shared.height == state.height;
            &&& fits ==> decision == (ScratchDecision::Reuse { texture: slot.texture_handle })
            &&& !fits ==> decision == (ScratchDecision::Replace { texture: slot.texture_handle })
        },
{
}

/// A surface and a scratch texture that are entered are found under handles of their own.
pub proof fn entered_surface_is_found(
    tables: &mut SurfaceTables,
    state: CudaSurfaceState,
    handle: u64,
    other: u64,
)
    requires
        call_ensures(SurfaceTables::insert_surface, (tables, state), handle),
        old(tables).next_surface < u64::MAX,
    ensures
        final(tables).surfaces@.contains_key(handle),
        final(tables).surfaces@[handle] == state,
        final(tables).next_surface > handle,
        handle == old(tables).next_surface,
        other != handle && old(tables).surfaces@.contains_key(other)
            ==> final(tables).surfaces@.contains_key(other) && final(tables).surfaces@[other]
            == old(tables).surfaces@[other],
{
}

/// A scratch texture that is entered is found under its handle, and its handle under its
/// slot.
pub proof fn entered_texture_is_found_under_its_slot(
    tables: &mut SurfaceTables,
    storage_slot: u32,
    texture: CudaTexture,
    handle: u64,
    slot: u32,
)
    requires
        call_ensures(
            SurfaceTables::register_scratch_texture,
            (tables, storage_slot, texture),
            handle,
        ),
        old(tables).next_texture < u64::MAX,
    ensures
        final(tables).textures@.contains_key(handle),
        final(tables).textures@[handle] == texture,
        final(tables).texture_slots@.contains_key(storage_slot),
        final(tables).texture_slots@[storage_slot] == handle,
        final(tables).next_texture > handle,
        slot != storage_slot && old(tables).texture_slots@.contains_key(slot)
            ==> final(tables).texture_slots@.contains_key(slot)
            && final(tables).texture_slots@[slot] == old(tables).texture_slots@[slot],
{
}

/// A surface tells its own size, and an unknown one none.
pub proof fn surface_tells_its_size(tables: &SurfaceTables, surface: u64, size: (u32, u32))
    requires
        call_ensures(SurfaceTables::surface_size, (tables, surface), size),
    ensures
        tables.surfaces@.contains_key(surface) ==> size.0 == tables.surfaces@[surface].width
            && size.1 == tables.surfaces@[surface].height,
        !tables.surfaces@.contains_key(surface) ==> size == (0u32, 0u32),
{
}

/// A pipeline that is entered is found under a handle of its own.
pub proof fn entered_pipeline_is_found(
    tables: &mut RasterTables,
    pipeline: CudaGraphicsPipeline,
    handle: u64,
    other: u64,
)
    requires
        call_ensures(RasterTables::finish_pipeline, (tables, pipeline), handle),
        old(tables).next_pipeline < u64::MAX,
    ensures
        handle == old(tables).next_pipeline,
        final(tables).next_pipeline > handle,
        final(tables).pipelines@.contains_key(handle),
        final(tables).pipelines@[handle] == pipeline,
        other != handle && old(tables).pipelines@.contains_key(other)
            ==> final(tables).pipelines@.contains_key(other) && final(tables).pipelines@[other]
            == old(tables).pipelines@[other],
{
}

/// A render target that is forgotten is gone, and no other is.
pub proof fn forgotten_target_is_gone(tables: &mut RasterTables, target: u64, other: u64)
    requires
        call_ensures(RasterTables::destroy_render_target, (tables, target), ()),
    ensures
        !final(tables).render_targets@.contains_key(target),
        other != target && old(tables).render_targets@.contains_key(other)
            ==> final(tables).render_targets@.contains_key(other)
            && final(tables).render_targets@[other] == old(tables).render_targets@[other],
        final(tables).textures == old(tables).textures,
{
}

/// A twin is brought up to date by one copy from the buffer to the twin, which is signaled
/// after it; nothing is done for a twin that is up to date.
pub proof fn refresh_copies_then_signals(refresh: &Refresh, calls: Vec<RefreshCall>)
    requires
        call_ensures(Refresh::calls, (refresh,), calls),
    ensures
        *refresh matches Refresh::Copy { dst_ptr: to, src_ptr: from, size: bytes } ==> {
            &&& calls@.len() == 2
            &&& calls@[0] matches RefreshCall::CopyDeviceToDevice { dst_ptr, src_ptr, size }
            &&& dst_ptr == to
            &&& src_ptr == from
            &&& size == bytes
            &&& calls@[1] is SignalFence
        },
        !(*refresh is Copy) ==> calls@.len() == 0,
{
}

} // verus!
