//! What surfaces wait for before anything of theirs is let go, and what their presents are
//! made of.

use vstd::prelude::*;

use super::present::{FrameToken, PresentCompletion};
use super::surface::{
    fence_high, max_of, max_of_bounds, may_retire, pending_fences, pooled, pooled_all,
    scratch_fences, CudaSurfaceState, PendingScratchDrop, PresentSource, SharedScratch,
    SurfaceError, SCRATCH_POOL_CAP,
};
use super::surface_flow::{
    present_taken, put_aside, resize_wanted, scratch_start, PresentGiven, PresentStart,
    ScratchStart,
};
use super::surface_frame::image_acquired;
use super::surface_table::{
    context_syncs, device_idle_steps, slots_of_texture, slots_without, surface_idle_steps,
    IdleState, IdleStep,
};
use super::texture::CudaTexture;

verus! {

broadcast use vstd::std_specs::hash::group_hash_axioms;

/// The value that a surface waits for covers every value that anything of it depends on:
/// each of its present slots, the writer and the copy of each live scratch, and each
/// scratch that was put aside.
pub proof fn surface_waits_for_all_it_uses(state: CudaSurfaceState, i: int)
    ensures
        0 <= i < state.slot_fence@.len() ==> state.slot_fence@[i] <= fence_high(state),
        0 <= i < state.pending_scratch@.len() ==> state.pending_scratch@[i].retire_at
            <= fence_high(state),
        0 <= i < state.scratch@.len() ==> match state.scratch@[i] {
            None => true,
            Some(slot) => {
                &&& slot.dx12_complete <= fence_high(state)
                &&& slot.present_source matches Some(PresentSource::CudaScratch {
                    cuda_complete,
                }) ==> cuda_complete <= fence_high(state)
                &&& slot.present_source matches Some(PresentSource::Dx12Raster {
                    resource,
                    fence,
                    format,
                }) ==> fence <= fence_high(state)
            },
        },
{
    if 0 <= i < state.slot_fence@.len() {
        max_of_bounds(state.slot_fence@, i);
    }
    if 0 <= i < state.pending_scratch@.len() {
        max_of_bounds(pending_fences(state.pending_scratch@), i);
    }
    if 0 <= i < state.scratch@.len() {
        max_of_bounds(scratch_fences(state.scratch@), i);
    }
}

proof fn lemma_max_is_there(values: Seq<u64>)
    ensures
        max_of(values) == 0 || exists|i: int|
            0 <= i < values.len() && #[trigger] values[i] == max_of(values),
    decreases values.len(),
{
    if values.len() > 0 {
        let rest = values.drop_last();
        lemma_max_is_there(rest);
        if max_of(values) == values.last() {
            assert(values[values.len() - 1] == max_of(values));
        } else if max_of(rest) != 0 {
            let i = choose|i: int| 0 <= i < rest.len() && #[trigger] rest[i] == max_of(rest);
            assert(values[i] == rest[i]);
        }
    }
}

/// The surface does not wait for more than that: the value is that of one of its present
/// slots, of one of its live scratch textures, or of one that was put aside; or there is
/// nothing to wait for.
pub proof fn surface_waits_for_nothing_else(state: CudaSurfaceState)
    ensures
        fence_high(state) == 0 || (exists|i: int|
            0 <= i < state.slot_fence@.len() && #[trigger] state.slot_fence@[i] == fence_high(
                state,
            )) || (exists|i: int|
            0 <= i < state.pending_scratch@.len() && (
            #[trigger] state.pending_scratch@[i]).retire_at == fence_high(state)) || (exists|
            i: int,
        |
            0 <= i < state.scratch@.len() && (#[trigger] state.scratch@[i] matches Some(slot) && (
            slot.dx12_complete == fence_high(state) || match slot.present_source {
                Some(PresentSource::CudaScratch { cuda_complete }) => cuda_complete == fence_high(
                    state,
                ),
                Some(PresentSource::Dx12Raster { resource, fence, format }) => fence == fence_high(
                    state,
                ),
                None => false,
            }))),
{
    let a = state.slot_fence@;
    let b = scratch_fences(state.scratch@);
    let c = pending_fences(state.pending_scratch@);
    lemma_max_is_there(a);
    lemma_max_is_there(b);
    lemma_max_is_there(c);
    let high = fence_high(state);
    if high != 0 {
        if high == max_of(b) {
            let i = choose|i: int| 0 <= i < b.len() && #[trigger] b[i] == max_of(b);
            assert(state.scratch@[i] is Some);
        } else if high == max_of(c) {
            let i = choose|i: int| 0 <= i < c.len() && #[trigger] c[i] == max_of(c);
            assert(state.pending_scratch@[i].retire_at == high);
        }
    }
}

/// Waiting for a surface flushes the worker first. Where the device has a companion that
/// has not yet reached all that it has given out and all that the surface uses, it then
/// waits for both; else for nothing.
pub proof fn surface_idle_waits_for_both(state: IdleState, high: u64)
    ensures
        ({
            let steps = surface_idle_steps(state, high);
            &&& steps[0] is FlushWorker
            &&& steps[1] is CountFlush
            &&& steps.last() is ClearStickyError
            &&& if state.companion && (state.completed < high || state.completed
                < state.companion_high) {
                &&& steps.len() == 4
                &&& steps[2] matches IdleStep::WaitFence { value } && value >= high && value
                    >= state.companion_high && (value == high || value == state.companion_high)
            } else {
                steps.len() == 3
            }
        }),
{
}

/// Waiting for a device signals its companion first, if it has one, so that nothing waits
/// for it in vain; flushes the worker; waits for the companion; and then waits for the
/// stream of every context, for that of the presents, and for that of the allocations.
pub proof fn device_idle_waits_for_every_stream(state: IdleState, unblock: u64, i: int)
    ensures
        ({
            let steps = device_idle_steps(state, unblock);
            let n = state.contexts@.len() as int;
            let c: int = if state.companion {
                1
            } else {
                0
            };
            &&& steps.len() == n + 5 + 3 * c
            &&& state.companion ==> steps[0] == (IdleStep::SignalQueue { value: unblock })
            &&& steps[c] is FlushWorker
            &&& steps[c + 1] is CountFlush
            &&& state.companion ==> steps[3] is WaitCompanionIdle
            &&& steps[2 * c + 2] is ClearStickyError
            &&& steps[2 * c + 3] is BindContext
            &&& 0 <= i < n ==> steps[2 * c + 4 + i] == (IdleStep::SynchronizeContext {
                context: state.contexts@[i],
            })
            &&& state.companion ==> steps[n + 6] is SynchronizePresentStream
            &&& steps.last() is SynchronizeAllocStream
        }),
{
    assert(context_syncs(state.contexts@).len() == state.contexts@.len());
}

/// The pool takes in a scratch texture in any case, keeps the others where it has room, and
/// gives up the one taken in last where it has none.
pub proof fn pool_takes_in_the_newest(pool: Seq<SharedScratch>, shared: SharedScratch, i: int)
    requires
        pool.len() <= SCRATCH_POOL_CAP,
    ensures
        pooled(pool, shared).last() == shared,
        pooled(pool, shared).len() <= SCRATCH_POOL_CAP,
        pool.len() < SCRATCH_POOL_CAP ==> pooled(pool, shared).len() == pool.len() + 1,
        0 <= i < pool.len() - 1 ==> pooled(pool, shared)[i] == pool[i],
        0 <= i < pool.len() && pool.len() < SCRATCH_POOL_CAP ==> pooled(pool, shared)[i] == pool[i],
{
}

/// Scratch of an image is used as it is exactly where it has the size of its surface; of
/// another size it is put aside until its last use has passed, and nothing else of the
/// surface changes.
pub proof fn scratch_is_kept_where_it_fits(
    state: CudaSurfaceState,
    after: CudaSurfaceState,
    image: int,
    other: int,
)
    requires
        0 <= image < state.scratch@.len(),
        0 <= other < state.scratch@.len(),
        other != image,
    ensures
        match state.scratch@[image] {
            None => scratch_start(state, image) is Missing,
            Some(slot) => if slot.shared.width == state.width && slot.shared.height
                == state.height {
                scratch_start(state, image) == (ScratchStart::Ready {
                    texture: slot.texture_handle,
                })
            } else {
                &&& scratch_start(state, image) matches ScratchStart::Replaced { retire_at }
                &&& retire_at >= slot.dx12_complete
                &&& put_aside(state, after, image) ==> {
                    let n = state.pending_scratch@.len() as int;
                    &&& after.scratch@[image] is None
                    &&& after.scratch@[other] == state.scratch@[other]
                    &&& after.pending_scratch@.len() == n + 1
                    &&& after.pending_scratch@[n].slot == slot
                    &&& after.pending_scratch@[n].retire_at == retire_at
                    &&& after.width == state.width && after.height == state.height
                    &&& after.slot_fence == state.slot_fence
                }
            },
        },
{
}

/// A surface is resized exactly where it is known and has another size than the one asked
/// for, which is not empty; an empty size is left alone, whatever the surface.
pub proof fn resize_is_wanted_for_another_size(
    surfaces: Map<u64, CudaSurfaceState>,
    surface: u64,
    width: u32,
    height: u32,
)
    ensures
        ({
            let wanted = resize_wanted(surfaces, surface, width, height);
            let s = surfaces[surface];
            &&& wanted is Err <==> width > 0 && height > 0 && !surfaces.contains_key(surface)
            &&& wanted matches Err(e) ==> e == SurfaceError::InvalidSurface
            &&& wanted == Ok::<bool, SurfaceError>(true) <==> width > 0 && height > 0 && surfaces.contains_key(
                surface,
            ) && (s.width != width || s.height != height)
        }),
{
}

/// The work of a present that was published is that present: it joins the submission that
/// was planned and waits for the value that its source was signaled with, or else for the
/// one that was handed off; it is published as it was planned, under its own value, and
/// shown as its surface is.
pub proof fn taken_present_is_as_planned(
    surfaces: Map<u64, CudaSurfaceState>,
    frame: FrameToken,
    start: PresentStart,
    given: PresentGiven,
)
    ensures
        ({
            let taken = present_taken(surfaces, frame, start, given);
            let state = surfaces[frame.surface];
            let image = frame.image as int;
            let lacks_event = !start.plan.raster_direct && given.event is None;
            &&& taken is Ok <==> !lacks_event && surfaces.contains_key(frame.surface) && image
                < state.scratch@.len() && state.scratch@[image] is Some
            &&& taken matches Ok(t) ==> {
                let w = t.work;
                &&& w.present_tv == given.present_tv
                &&& w.join_submit_tv == start.plan.join_submit_tv
                &&& w.present_mode == state.present_mode
                &&& w.allow_tearing == start.allow_tearing
                &&& t.handoff_event == start.plan.handoff_event
                &&& t.scratch_texture == state.scratch@[image]->0.texture_handle
                &&& w.reuse_list == t.list.reuse
                &&& start.plan.direct_cuda_complete > 0 ==> w.cuda_complete
                    == start.plan.direct_cuda_complete
                &&& start.plan.direct_cuda_complete == 0 && start.plan.handoff_event is Some
                    ==> w.cuda_complete == given.handoff_value
                &&& start.plan.direct_cuda_complete == 0 && start.plan.handoff_event is None
                    ==> w.cuda_complete == 0
                &&& start.plan.raster_direct <==> w.completion is Dx12Fence
                &&& w.completion matches PresentCompletion::CudaEvent { event } ==> given.event
                    == Some(event)
            }
        }),
{
}

/// An acquired image is the one that the next frame is drawn to, and nothing else of the
/// surface changes.
pub proof fn acquired_image_is_drawn_to(state: CudaSurfaceState, image: u32)
    ensures
        image_acquired(state, image).current_image_index == Some(image),
        image_acquired(state, image).scratch == state.scratch,
        image_acquired(state, image).current_frame == state.current_frame,
        image_acquired(state, image).slot_fence == state.slot_fence,
        image_acquired(state, image).cmd_fence == state.cmd_fence,
        image_acquired(state, image).present_generation == state.present_generation,
{
}

/// The slots of a texture are its storage slot and its sampled slot, as far as it has them;
/// taking the texture out takes out exactly these.
pub proof fn slots_of_a_texture_go_with_it(
    slots: Map<u32, u64>,
    texture: CudaTexture,
    slot: u32,
)
    ensures
        slots_of_texture(texture).contains(slot) <==> texture.storage_slot == Some(slot)
            || texture.sampled_slot == Some(slot),
        slots_without(slots, texture).contains_key(slot) <==> slots.contains_key(slot)
            && texture.storage_slot != Some(slot) && texture.sampled_slot != Some(slot),
        slots_without(slots, texture).contains_key(slot) ==> slots_without(slots, texture)[slot]
            == slots[slot],
{
    let all = slots_of_texture(texture);
    if texture.storage_slot is Some {
        assert(all[0] == texture.storage_slot->0);
    }
    if texture.sampled_slot is Some {
        assert(all[all.len() - 1] == texture.sampled_slot->0);
    }
}

/// Scratch comes to the pool only once its last use has passed: whatever is in the pool was
/// there before, or has retired.
pub proof fn pool_holds_only_what_has_retired(
    pool: Seq<SharedScratch>,
    pending: Seq<PendingScratchDrop>,
    completed: u64,
    k: int,
)
    requires
        0 <= k < pooled_all(pool, pending, completed).len(),
    ensures
        ({
            let shared = pooled_all(pool, pending, completed)[k];
            pool.contains(shared) || exists|i: int|
                0 <= i < pending.len() && (#[trigger] pending[i]).slot.shared == shared
                    && pending[i].retire_at <= completed
        }),
    decreases pending.len(),
{
    let all = pooled_all(pool, pending, completed);
    let shared = all[k];
    if pending.len() == 0 {
        assert(pool[k] == shared);
    } else {
        let rest = pending.drop_last();
        let before = pooled_all(pool, rest, completed);
        if before.contains(shared) {
            let j = choose|j: int| 0 <= j < before.len() && before[j] == shared;
            pool_holds_only_what_has_retired(pool, rest, completed, j);
            if !pool.contains(shared) {
                let i = choose|i: int|
                    0 <= i < rest.len() && (#[trigger] rest[i]).slot.shared == shared
                        && rest[i].retire_at <= completed;
                assert(pending[i] == rest[i]);
            }
        } else {
            assert(pending[pending.len() - 1] == pending.last());
            assert(may_retire(pending.last(), completed));
            assert(shared == pending.last().slot.shared);
        }
    }
}

/// The scratch that retires last is in the pool then.
pub proof fn retired_scratch_comes_to_the_pool(
    pool: Seq<SharedScratch>,
    pending: Seq<PendingScratchDrop>,
    completed: u64,
    i: int,
)
    requires
        0 <= i < pending.len(),
        pending[i].retire_at <= completed,
        forall|j: int| i < j < pending.len() ==> (#[trigger] pending[j]).retire_at > completed,
    ensures
        pooled_all(pool, pending, completed).contains(pending[i].slot.shared),
    decreases pending.len(),
{
    let rest = pending.drop_last();
    if i < rest.len() {
        assert(pending[pending.len() - 1].retire_at > completed);
        assert forall|j: int| i < j < rest.len() implies (#[trigger] rest[j]).retire_at
            > completed by {
            assert(rest[j] == pending[j]);
        }
        retired_scratch_comes_to_the_pool(pool, rest, completed, i);
    } else {
        let all = pooled_all(pool, pending, completed);
        assert(all.last() == pending[i].slot.shared);
        assert(all[all.len() - 1] == pending[i].slot.shared);
    }
}

} // verus!
