//! The surfaces and textures of the back end: destruction, look-ups and idle waits.

use std::collections::HashMap;
use vstd::prelude::*;

use super::surface::{
    live, CudaSurfaceState, PendingScratchDrop, PresentMode, ScratchSlot, SurfaceError,
};
use super::texture::{CudaTexture, TextureFormat};

verus! {

broadcast use vstd::std_specs::hash::group_hash_axioms;

/// Surfaces, and textures by handle and by bindless slot.
pub struct SurfaceTables {
    pub surfaces: HashMap<u64, CudaSurfaceState>,
    pub textures: HashMap<u64, CudaTexture>,
    pub texture_slots: HashMap<u32, u64>,
    pub next_surface: u64,
    pub next_texture: u64,
}

/// The slots without those of a texture.
pub open spec fn slots_without(slots: Map<u32, u64>, texture: CudaTexture) -> Map<u32, u64> {
    let first = match texture.storage_slot {
        Some(slot) => slots.remove(slot),
        None => slots,
    };
    match texture.sampled_slot {
        Some(slot) => first.remove(slot),
        None => first,
    }
}

/// The bindless slots of a texture: storage, then sampled.
pub open spec fn slots_of_texture(texture: CudaTexture) -> Seq<u32> {
    (match texture.storage_slot {
        Some(slot) => seq![slot],
        None => Seq::empty(),
    }) + (match texture.sampled_slot {
        Some(slot) => seq![slot],
        None => Seq::empty(),
    })
}

/// The bindless slots of textures, in order.
pub open spec fn slots_of_handles(textures: Map<u64, CudaTexture>, handles: Seq<u64>) -> Seq<u32>
    decreases handles.len(),
{
    if handles.len() == 0 {
        Seq::empty()
    } else {
        slots_of_handles(textures, handles.drop_last()) + if textures.contains_key(handles.last()) {
            slots_of_texture(textures[handles.last()])
        } else {
            Seq::empty()
        }
    }
}

/// The slots of pending scratch.
pub open spec fn pending_slots(pending: Seq<PendingScratchDrop>) -> Seq<ScratchSlot> {
    pending.map_values(|p: PendingScratchDrop| p.slot)
}

/// What a destroyed surface leaves to be released.
pub struct DestroyedSurface {
    pub device: u64,
    pub dsv_offset: Option<u32>,
    /// Live scratch, then pending scratch.
    pub slots: Vec<ScratchSlot>,
}

impl SurfaceTables {
    /// Enters a surface that was made.
    pub fn insert_surface(&mut self, state: CudaSurfaceState) -> (handle: u64)
        requires
            old(self).next_surface < u64::MAX,
        ensures
            handle == old(self).next_surface,
            final(self).surfaces@ == old(self).surfaces@.insert(handle, state),
            *final(self) == (SurfaceTables {
                surfaces: final(self).surfaces,
                next_surface: (handle + 1) as u64,
                ..*old(self)
            }),
    {
        let handle: u64 = self.next_surface;
        self.next_surface = handle + 1;
        self.surfaces.insert(handle, state);
        handle
    }

    /// The size of a surface, zero where there is none.
    pub fn surface_size(&self, surface: u64) -> (size: (u32, u32))
        ensures
            size == (if self.surfaces@.contains_key(surface) {
                (self.surfaces@[surface].width, self.surfaces@[surface].height)
            } else {
                (0u32, 0u32)
            }),
    {
        match self.surfaces.get(&surface) {
            Some(state) => (state.width, state.height),
            None => (0, 0),
        }
    }

    /// The format in which compute shaders see a surface.
    pub fn surface_format(&self, surface: u64) -> (format: TextureFormat)
        ensures
            format is Rgba32Float,
    {
        super::surface::SURFACE_COMPUTE_FORMAT
    }

    /// Sets when presented images appear.
    pub fn surface_set_present_mode(&mut self, surface: u64, mode: PresentMode) -> (result: Result<
        (),
        SurfaceError,
    >)
        ensures
            result == (if old(self).surfaces@.contains_key(surface) {
                Ok(())
            } else {
                Err(SurfaceError::InvalidSurface)
            }),
            final(self).surfaces@ == (if old(self).surfaces@.contains_key(surface) {
                old(self).surfaces@.insert(
                    surface,
                    CudaSurfaceState { present_mode: mode, ..old(self).surfaces@[surface] },
                )
            } else {
                old(self).surfaces@
            }),
            *final(self) == (SurfaceTables { surfaces: final(self).surfaces, ..*old(self) }),
    {
        match self.surfaces.remove(&surface) {
            Some(mut state) => {
                state.present_mode = mode;
                self.surfaces.insert(surface, state);
                assert(self.surfaces@ =~= old(self).surfaces@.insert(
                    surface,
                    CudaSurfaceState { present_mode: mode, ..old(self).surfaces@[surface] },
                ));
                Ok(())
            },
            None => {
                assert(self.surfaces@ =~= old(self).surfaces@);
                Err(SurfaceError::InvalidSurface)
            },
        }
    }

    /// Forgets a scratch texture and its bindless slots.
    pub fn unregister_scratch_texture(&mut self, handle: u64) -> (texture: Option<CudaTexture>)
        ensures
            texture == (if old(self).textures@.contains_key(handle) {
                Some(old(self).textures@[handle])
            } else {
                None
            }),
            final(self).textures@ == old(self).textures@.remove(handle),
            final(self).texture_slots@ == (if old(self).textures@.contains_key(handle) {
                slots_without(old(self).texture_slots@, old(self).textures@[handle])
            } else {
                old(self).texture_slots@
            }),
            *final(self) == (SurfaceTables {
                textures: final(self).textures,
                texture_slots: final(self).texture_slots,
                ..*old(self)
            }),
    {
        let texture = self.textures.remove(&handle);
        if let Some(found) = &texture {
            if let Some(slot) = found.storage_slot {
                self.texture_slots.remove(&slot);
            }
            if let Some(slot) = found.sampled_slot {
                self.texture_slots.remove(&slot);
            }
        }
        texture
    }

    /// Enters the texture of newly made scratch under its storage slot.
    pub fn register_scratch_texture(&mut self, storage_slot: u32, texture: CudaTexture) -> (handle: u64)
        requires
            old(self).next_texture < u64::MAX,
        ensures
            handle == old(self).next_texture,
            final(self).textures@ == old(self).textures@.insert(handle, texture),
            final(self).texture_slots@ == old(self).texture_slots@.insert(storage_slot, handle),
            *final(self) == (SurfaceTables {
                textures: final(self).textures,
                texture_slots: final(self).texture_slots,
                next_texture: (handle + 1) as u64,
                ..*old(self)
            }),
    {
        let handle: u64 = self.next_texture;
        self.next_texture = handle + 1;
        self.texture_slots.insert(storage_slot, handle);
        self.textures.insert(handle, texture);
        handle
    }

    /// The bindless slots of textures that are about to go.
    pub fn destroyed_slots(&self, handles: &Vec<u64>) -> (slots: Vec<u32>)
        ensures
            slots@ == slots_of_handles(self.textures@, handles@),
    {
        let mut slots: Vec<u32> = Vec::new();
        let mut i: usize = 0;
        while i < handles.len()
            invariant
                i <= handles.len(),
                slots@ == slots_of_handles(self.textures@, handles@.take(i as int)),
            decreases handles.len() - i,
        {
            let ghost before = slots@;
            assert(handles@.take(i + 1).drop_last() =~= handles@.take(i as int));
            match self.textures.get(&handles[i]) {
                Some(texture) => {
                    if let Some(slot) = texture.storage_slot {
                        slots.push(slot);
                    }
                    if let Some(slot) = texture.sampled_slot {
                        slots.push(slot);
                    }
                    assert(slots@ =~= before + slots_of_texture(*texture));
                },
                None => {
                    assert(slots@ =~= before + Seq::<u32>::empty());
                },
            }
            i += 1;
        }
        assert(handles@.take(i as int) =~= handles@);
        slots
    }

    /// Takes a surface out. Its scratch may still be in use: it is released once the
    /// device is idle.
    pub fn destroy_surface(&mut self, surface: u64) -> (destroyed: Option<DestroyedSurface>)
        requires
            old(self).surfaces@.contains_key(surface) ==> old(self).surfaces@[surface].wf(),
        ensures
            final(self).surfaces@ == old(self).surfaces@.remove(surface),
            *final(self) == (SurfaceTables { surfaces: final(self).surfaces, ..*old(self) }),
            match destroyed {
                Some(d) => {
                    let state = old(self).surfaces@[surface];
                    &&& old(self).surfaces@.contains_key(surface)
                    &&& d.device == state.device
                    &&& d.dsv_offset == state.dsv_offset
                    &&& d.slots@ == live(state.scratch@) + pending_slots(state.pending_scratch@)
                },
                None => !old(self).surfaces@.contains_key(surface),
            },
    {
        match self.surfaces.remove(&surface) {
            None => None,
            Some(state) => {
                let mut state = state;
                let ghost all = state.pending_scratch@;
                let mut slots = state.take_scratch();
                let ghost start = slots@;
                let mut i: usize = 0;
                assert(slots@ =~= start + pending_slots(all.take(0)));
                while i < state.pending_scratch.len()
                    invariant
                        i <= state.pending_scratch@.len(),
                        state.pending_scratch@ == all,
                        slots@ == start + pending_slots(all.take(i as int)),
                    decreases state.pending_scratch.len() - i,
                {
                    slots.push(state.pending_scratch[i].slot);
                    assert(slots@ =~= start + pending_slots(all.take(i + 1)));
                    i += 1;
                }
                assert(all.take(i as int) =~= all);
                Some(
                    DestroyedSurface { device: state.device, dsv_offset: state.dsv_offset, slots },
                )
            },
        }
    }

    fn image_with(state: &CudaSurfaceState, texture: u64) -> (image: Option<usize>)
        ensures
            match image {
                Some(i) => i < state.scratch@.len() && (state.scratch@[i as int] matches Some(slot)
                    && slot.texture_handle == texture) && forall|j: int|
                    0 <= j < i ==> !holds_texture(#[trigger] state.scratch@[j], texture),
                None => forall|j: int|
                    0 <= j < state.scratch@.len() ==> !holds_texture(
                        #[trigger] state.scratch@[j],
                        texture,
                    ),
            },
    {
        let mut i: usize = 0;
        while i < state.scratch.len()
            invariant
                i <= state.scratch.len(),
                forall|j: int|
                    0 <= j < i ==> !holds_texture(#[trigger] state.scratch@[j], texture),
            decreases state.scratch.len() - i,
        {
            if let Some(slot) = &state.scratch[i] {
                if slot.texture_handle == texture {
                    return Some(i);
                }
            }
            i += 1;
        }
        None
    }

    /// Finds the surface and image whose scratch is a texture.
    pub fn scratch_slot_for_texture(&self, texture: u64) -> (found: Option<(u64, usize)>)
        ensures
            match found {
                Some((surface, image)) => is_scratch_of(self.surfaces@, texture, surface, image),
                None => forall|surface: u64, image: usize|
                    !#[trigger] is_scratch_of(self.surfaces@, texture, surface, image),
            },
    {
        let ghost all = self.surfaces@;
        for entry in iter: self.surfaces.iter()
            invariant
                all == self.surfaces@,
                forall|i: int|
                    0 <= i < iter.seq().len() ==> all.contains_key(*(#[trigger] iter.seq()[i]).0)
                        && all[*iter.seq()[i].0] == *iter.seq()[i].1,
                forall|k: u64| #[trigger] all.contains_key(k) ==> iter.seq().contains((&k, &all[k])),
                forall|i: int|
                    0 <= i < iter.index() ==> !surface_shows(
                        all,
                        texture,
                        *(#[trigger] iter.seq()[i]).0,
                    ),
        {
            if let Some(image) = SurfaceTables::image_with(entry.1, texture) {
                assert(is_scratch_of(all, texture, *entry.0, image));
                return Some((*entry.0, image));
            }
            proof {
                assert(*iter.seq()[iter.index() as int].0 == *entry.0);
                assert forall|image: usize| !#[trigger] is_scratch_of(
                    all,
                    texture,
                    *entry.0,
                    image,
                ) by {
                    if image < all[*entry.0].scratch@.len() {
                        assert(!holds_texture(all[*entry.0].scratch@[image as int], texture));
                    }
                }
            }
        }
        assert forall|surface: u64, image: usize| !#[trigger] is_scratch_of(
            self.surfaces@,
            texture,
            surface,
            image,
        ) by {
            assert(all.contains_key(surface) ==> !surface_shows(all, texture, surface));
        }
        None
    }
}

/// The slot holds scratch that is a texture.
pub open spec fn holds_texture(slot: Option<ScratchSlot>, texture: u64) -> bool {
    slot matches Some(s) && s.texture_handle == texture
}

/// The scratch of an image of a surface is a texture.
pub open spec fn is_scratch_of(
    surfaces: Map<u64, CudaSurfaceState>,
    texture: u64,
    surface: u64,
    image: usize,
) -> bool {
    surfaces.contains_key(surface) && image < surfaces[surface].scratch@.len() && holds_texture(
        surfaces[surface].scratch@[image as int],
        texture,
    )
}

/// Some image of a surface has a texture for its scratch.
pub open spec fn surface_shows(
    surfaces: Map<u64, CudaSurfaceState>,
    texture: u64,
    surface: u64,
) -> bool {
    exists|image: usize| #[trigger] is_scratch_of(surfaces, texture, surface, image)
}

/// A step of waiting for a device.
#[derive(Clone, Copy, Debug, PartialEq, Eq, Structural)]
pub enum IdleStep {
    /// Signals the companion fence from its queue, to unblock waits of CUDA.
    SignalQueue { value: u64 },
    FlushWorker,
    CountFlush,
    /// Waits on the host for a value of the companion fence.
    WaitFence { value: u64 },
    WaitCompanionIdle,
    ClearStickyError,
    BindContext,
    SynchronizeContext { context: u64 },
    SynchronizePresentStream,
    SynchronizeAllocStream,
}

/// Waits for the streams of contexts.
pub open spec fn context_syncs(contexts: Seq<u64>) -> Seq<IdleStep> {
    contexts.map_values(|context: u64| IdleStep::SynchronizeContext { context })
}

/// What a device looks like to a wait.
pub struct IdleState {
    /// It has a companion.
    pub companion: bool,
    /// Largest fence value that the companion has given out.
    pub companion_high: u64,
    /// Fence value that the companion has reached.
    pub completed: u64,
    /// The contexts of the device.
    pub contexts: Vec<u64>,
}

/// The fence value that a surface waits for: at least what the companion has given
/// out.
pub open spec fn idle_fence(state: IdleState, fence_high: u64) -> u64 {
    if state.companion && state.companion_high > fence_high {
        state.companion_high
    } else {
        fence_high
    }
}

/// The steps that wait for what a surface uses, up to the streams. The companion comes
/// before the streams, which may wait for it. What is queued on the worker is recorded
/// by the flush, so whether work is pending is known only after these steps.
pub open spec fn surface_idle_steps(state: IdleState, fence_high: u64) -> Seq<IdleStep> {
    let high = idle_fence(state, fence_high);
    let fenced = if state.companion && high > 0 && state.completed < high {
        seq![IdleStep::FlushWorker, IdleStep::CountFlush, IdleStep::WaitFence { value: high }]
    } else {
        seq![IdleStep::FlushWorker, IdleStep::CountFlush]
    };
    fenced.push(IdleStep::ClearStickyError)
}

/// The steps that wait for the streams of a device once its worker was flushed. Streams
/// are left alone where nothing is pending.
pub open spec fn stream_sync_steps(companion: bool, pending_work: bool, contexts: Seq<u64>) -> Seq<
    IdleStep,
> {
    if !pending_work {
        Seq::empty()
    } else {
        let synced = seq![IdleStep::BindContext] + context_syncs(contexts);
        if companion {
            synced.push(IdleStep::SynchronizePresentStream)
        } else {
            synced
        }
    }
}

/// The steps that wait for a whole device. `unblock` is the fence value that is
/// signaled first.
pub open spec fn device_idle_steps(state: IdleState, unblock: u64) -> Seq<IdleStep> {
    let unblocked = if state.companion {
        seq![IdleStep::SignalQueue { value: unblock }]
    } else {
        Seq::empty()
    };
    let flushed = unblocked.push(IdleStep::FlushWorker).push(IdleStep::CountFlush);
    let idle = if state.companion {
        flushed.push(IdleStep::WaitCompanionIdle)
    } else {
        flushed
    };
    let synced = idle.push(IdleStep::ClearStickyError).push(IdleStep::BindContext) + context_syncs(
        state.contexts@,
    );
    (if state.companion {
        synced.push(IdleStep::SynchronizePresentStream)
    } else {
        synced
    }).push(IdleStep::SynchronizeAllocStream)
}

fn push_context_syncs(steps: &mut Vec<IdleStep>, contexts: &Vec<u64>)
    ensures
        final(steps)@ == old(steps)@ + context_syncs(contexts@),
{
    let mut i: usize = 0;
    assert(steps@ =~= old(steps)@ + context_syncs(contexts@.take(0)));
    while i < contexts.len()
        invariant
            i <= contexts.len(),
            steps@ == old(steps)@ + context_syncs(contexts@.take(i as int)),
        decreases contexts.len() - i,
    {
        steps.push(IdleStep::SynchronizeContext { context: contexts[i] });
        assert(steps@ =~= old(steps)@ + context_syncs(contexts@.take(i + 1)));
        i += 1;
    }
    assert(contexts@.take(i as int) =~= contexts@);
}

/// Plans the wait for what a surface uses, up to the streams. `sync_after_flush` plans
/// the rest, once these steps have been performed.
pub fn wait_surface_resources_idle(state: &IdleState, fence_high: u64) -> (steps: Vec<IdleStep>)
    ensures
        steps@ == surface_idle_steps(*state, fence_high),
{
    let high: u64 = if state.companion && state.companion_high > fence_high {
        state.companion_high
    } else {
        fence_high
    };
    let mut steps: Vec<IdleStep> = Vec::new();
    steps.push(IdleStep::FlushWorker);
    steps.push(IdleStep::CountFlush);
    if state.companion && high > 0 && state.completed < high {
        steps.push(IdleStep::WaitFence { value: high });
    }
    steps.push(IdleStep::ClearStickyError);
    assert(steps@ =~= surface_idle_steps(*state, fence_high));
    steps
}

/// Plans the wait for the streams of a device. `pending_work` tells whether some recorded
/// submission is not complete, as it is after the worker was flushed and the companion
/// was waited for.
pub fn sync_after_flush(companion: bool, pending_work: bool, contexts: &Vec<u64>) -> (steps: Vec<
    IdleStep,
>)
    ensures
        steps@ == stream_sync_steps(companion, pending_work, contexts@),
{
    let mut steps: Vec<IdleStep> = Vec::new();
    if pending_work {
        steps.push(IdleStep::BindContext);
        push_context_syncs(&mut steps, contexts);
        if companion {
            steps.push(IdleStep::SynchronizePresentStream);
        }
    }
    assert(steps@ =~= stream_sync_steps(companion, pending_work, contexts@));
    steps
}

/// Where work is pending once the worker was flushed, the stream of every context is
/// waited for before anything of the surface is let go.
pub proof fn pending_streams_are_waited_for(companion: bool, contexts: Seq<u64>, context: u64)
    requires
        contexts.contains(context),
    ensures
        stream_sync_steps(companion, true, contexts).contains(
            IdleStep::SynchronizeContext { context },
        ),
        companion ==> stream_sync_steps(companion, true, contexts).contains(
            IdleStep::SynchronizePresentStream,
        ),
{
    let steps = stream_sync_steps(companion, true, contexts);
    let i = choose|i: int| 0 <= i < contexts.len() && contexts[i] == context;
    assert(steps[i + 1] == (IdleStep::SynchronizeContext { context }));
    if companion {
        assert(steps.last() == IdleStep::SynchronizePresentStream);
    }
}

/// Plans the wait for a whole device.
pub fn wait_device_idle_for_surface(state: &IdleState, unblock: u64) -> (steps: Vec<IdleStep>)
    ensures
        steps@ == device_idle_steps(*state, unblock),
{
    let mut steps: Vec<IdleStep> = Vec::new();
    if state.companion {
        steps.push(IdleStep::SignalQueue { value: unblock });
    }
    steps.push(IdleStep::FlushWorker);
    steps.push(IdleStep::CountFlush);
    if state.companion {
        steps.push(IdleStep::WaitCompanionIdle);
    }
    steps.push(IdleStep::ClearStickyError);
    steps.push(IdleStep::BindContext);
    push_context_syncs(&mut steps, &state.contexts);
    if state.companion {
        steps.push(IdleStep::SynchronizePresentStream);
    }
    steps.push(IdleStep::SynchronizeAllocStream);
    assert(steps@ =~= device_idle_steps(*state, unblock));
    steps
}

} // verus!
