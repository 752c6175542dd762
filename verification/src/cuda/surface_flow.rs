//! What happens to a surface around the calls that resize it, make its scratch and
//! present it.

use vstd::prelude::*;

use super::present::{
    cuda_complete, list_matches, plan_present, present_entry, present_entry_of, present_plan,
    publish_present, FrameToken, PresentCompletion, PresentList, PresentPlan, PresentWork,
    ScratchDecision,
};
use super::surface::{
    fence_high, live, may_retire, no_list, parked, pooled_all, slot_high, CudaSurfaceState,
    PendingScratchDrop, PresentSource, ScratchSlot, SharedScratch, SurfaceError,
};
use super::surface_table::{slots_of_handles, slots_without, SurfaceTables};
use super::texture::CudaTexture;
use super::timeline::{EventLedger, LedgerEntry};

verus! {

broadcast use vstd::std_specs::hash::group_hash_axioms;

/// What a resize has to wait for and let go before the swapchain is resized.
pub struct ResizeStart {
    pub device: u64,
    /// The largest fence value that anything of the surface depends on.
    pub fence_high: u64,
    /// The scratch that was taken out, in the order of its images.
    pub slots: Vec<ScratchSlot>,
    /// The textures of that scratch, and their bindless slots.
    pub handles: Vec<u64>,
    pub bindless: Vec<u32>,
}

/// The textures of scratch.
pub open spec fn handles_of(slots: Seq<ScratchSlot>) -> Seq<u64> {
    slots.map_values(|s: ScratchSlot| s.texture_handle)
}

/// Whether a resize of a surface has anything to do, or why it is refused. A size of
/// zero is left alone, whatever the surface.
pub open spec fn resize_wanted(
    surfaces: Map<u64, CudaSurfaceState>,
    surface: u64,
    width: u32,
    height: u32,
) -> Result<bool, SurfaceError> {
    if width == 0 || height == 0 {
        Ok(false)
    } else if !surfaces.contains_key(surface) {
        Err(SurfaceError::InvalidSurface)
    } else {
        Ok(!(surfaces[surface].width == width && surfaces[surface].height == height))
    }
}

/// The tables without the textures of some handles, taken out one after the other.
pub open spec fn without_textures(
    textures: Map<u64, CudaTexture>,
    slots: Map<u32, u64>,
    handles: Seq<u64>,
) -> (Map<u64, CudaTexture>, Map<u32, u64>)
    decreases handles.len(),
{
    if handles.len() == 0 {
        (textures, slots)
    } else {
        let before = without_textures(textures, slots, handles.drop_last());
        let h = handles.last();
        (
            before.0.remove(h),
            if before.0.contains_key(h) {
                slots_without(before.1, before.0[h])
            } else {
                before.1
            },
        )
    }
}

/// What has to be done before an image of a surface has scratch.
#[derive(Clone, Copy, Debug, PartialEq, Eq, Structural)]
pub enum ScratchStart {
    /// It has.
    Ready { texture: u64 },
    /// Scratch of another size was put aside: what a surface waits for, and then pending
    /// scratch, is looked at before new scratch is made.
    Replaced { retire_at: u64 },
    /// Scratch is taken from the pool or made.
    Missing,
}

/// A surface after its pending scratch was looked at.
pub open spec fn drained(before: CudaSurfaceState, after: CudaSurfaceState, completed: u64) -> bool {
    &&& after.pending_scratch@ == before.pending_scratch@.filter(
        |p: PendingScratchDrop| !may_retire(p, completed),
    )
    &&& after.scratch_pool@ == pooled_all(
        before.scratch_pool@,
        before.pending_scratch@,
        completed,
    )
    &&& after == (CudaSurfaceState {
        pending_scratch: after.pending_scratch,
        scratch_pool: after.scratch_pool,
        ..before
    })
}

/// What is to be done for the scratch of an image.
pub open spec fn scratch_start(state: CudaSurfaceState, image: int) -> ScratchStart {
    match state.scratch@[image] {
        Some(slot) => if slot.shared.width == state.width && slot.shared.height == state.height {
            ScratchStart::Ready { texture: slot.texture_handle }
        } else {
            ScratchStart::Replaced { retire_at: slot_high(slot) }
        },
        None => ScratchStart::Missing,
    }
}

/// A surface after scratch of the wrong size was put aside.
pub open spec fn put_aside(before: CudaSurfaceState, after: CudaSurfaceState, image: int) -> bool {
    let slot = before.scratch@[image]->Some_0;
    &&& after.scratch@ == before.scratch@.update(image, None)
    &&& after.pending_scratch@ == before.pending_scratch@.push(
        PendingScratchDrop { retire_at: slot_high(slot), slot },
    )
    &&& after == (CudaSurfaceState {
        scratch: after.scratch,
        pending_scratch: after.pending_scratch,
        ..before
    })
}

impl SurfaceTables {
    fn taken_handles(slots: &Vec<ScratchSlot>) -> (handles: Vec<u64>)
        ensures
            handles@ == handles_of(slots@),
    {
        let mut handles: Vec<u64> = Vec::new();
        let mut i: usize = 0;
        while i < slots.len()
            invariant
                i <= slots.len(),
                handles@ == handles_of(slots@.take(i as int)),
            decreases slots.len() - i,
        {
            handles.push(slots[i].texture_handle);
            assert(handles@ =~= handles_of(slots@.take(i + 1)));
            i += 1;
        }
        assert(slots@.take(i as int) =~= slots@);
        handles
    }

    /// Begins a resize: takes the live scratch out of the surface and tells what has to
    /// be waited for. `None` where there is nothing to do.
    pub fn begin_resize(&mut self, surface: u64, width: u32, height: u32) -> (start: Result<
        Option<ResizeStart>,
        SurfaceError,
    >)
        requires
            old(self).surfaces@.contains_key(surface) ==> old(self).surfaces@[surface].wf(),
        ensures
            *final(self) == (SurfaceTables { surfaces: final(self).surfaces, ..*old(self) }),
            match resize_wanted(old(self).surfaces@, surface, width, height) {
                Err(e) => start matches Err(f) && f == e && final(self).surfaces@
                    == old(self).surfaces@,
                Ok(false) => start matches Ok(None) && final(self).surfaces@
                    == old(self).surfaces@,
                Ok(true) => {
                    let state = old(self).surfaces@[surface];
                    let after = final(self).surfaces@[surface];
                    &&& start matches Ok(Some(begun))
                    &&& begun.device == state.device
                    &&& begun.fence_high == fence_high(state)
                    &&& begun.slots@ == live(state.scratch@)
                    &&& begun.handles@ == handles_of(begun.slots@)
                    &&& begun.bindless@ == slots_of_handles(old(self).textures@, begun.handles@)
                    &&& final(self).surfaces@ == old(self).surfaces@.insert(surface, after)
                    &&& after.wf()
                    &&& after.scratch@.len() == state.scratch@.len()
                    &&& forall|i: int|
                        0 <= i < after.scratch@.len() ==> #[trigger] after.scratch@[i] is None
                    &&& after == (CudaSurfaceState { scratch: after.scratch, ..state })
                },
            },
    {
        if width == 0 || height == 0 {
            return Ok(None);
        }
        let wanted = match self.surfaces.get(&surface) {
            Some(state) => state.needs_resize(width, height),
            None => {
                return Err(SurfaceError::InvalidSurface);
            },
        };
        if !wanted {
            return Ok(None);
        }
        match self.surfaces.remove(&surface) {
            Some(mut state) => {
                let fence_high: u64 = state.fence_high_water();
                let device: u64 = state.device;
                let slots = state.take_scratch();
                let handles = SurfaceTables::taken_handles(&slots);
                let bindless = self.destroyed_slots(&handles);
                self.surfaces.insert(surface, state);
                assert(self.surfaces@ =~= old(self).surfaces@.insert(surface, state));
                Ok(Some(ResizeStart { device, fence_high, slots, handles, bindless }))
            },
            None => Err(SurfaceError::InvalidSurface),
        }
    }

    /// Forgets the textures of scratch, and their bindless slots.
    pub fn forget_textures(&mut self, slots: &Vec<ScratchSlot>)
        ensures
            (final(self).textures@, final(self).texture_slots@) == without_textures(
                old(self).textures@,
                old(self).texture_slots@,
                handles_of(slots@),
            ),
            *final(self) == (SurfaceTables {
                textures: final(self).textures,
                texture_slots: final(self).texture_slots,
                ..*old(self)
            }),
    {
        let ghost handles = handles_of(slots@);
        let mut i: usize = 0;
        while i < slots.len()
            invariant
                i <= slots.len(),
                handles == handles_of(slots@),
                (self.textures@, self.texture_slots@) == without_textures(
                    old(self).textures@,
                    old(self).texture_slots@,
                    handles.take(i as int),
                ),
                *self == (SurfaceTables {
                    textures: self.textures,
                    texture_slots: self.texture_slots,
                    ..*old(self)
                }),
            decreases slots.len() - i,
        {
            assert(handles.take(i + 1).drop_last() =~= handles.take(i as int));
            assert(handles.take(i + 1).last() == slots@[i as int].texture_handle);
            let _ = self.unregister_scratch_texture(slots[i].texture_handle);
            i += 1;
        }
        assert(handles.take(i as int) =~= handles);
    }

    /// Lets go of scratch that was taken out of a surface: its textures are forgotten, and
    /// it is put aside until its last use, and `high`, have passed.
    pub fn retire_scratch(&mut self, surface: u64, slots: &Vec<ScratchSlot>, high: u64)
        requires
            old(self).surfaces@.contains_key(surface),
        ensures
            ({
                let state = old(self).surfaces@[surface];
                let after = final(self).surfaces@[surface];
                &&& final(self).surfaces@ == old(self).surfaces@.insert(surface, after)
                &&& after.pending_scratch@ == state.pending_scratch@ + parked(slots@, high)
                &&& after == (CudaSurfaceState {
                    pending_scratch: after.pending_scratch,
                    ..state
                })
            }),
            (final(self).textures@, final(self).texture_slots@) == without_textures(
                old(self).textures@,
                old(self).texture_slots@,
                handles_of(slots@),
            ),
            *final(self) == (SurfaceTables {
                surfaces: final(self).surfaces,
                textures: final(self).textures,
                texture_slots: final(self).texture_slots,
                ..*old(self)
            }),
    {
        self.forget_textures(slots);
        match self.surfaces.remove(&surface) {
            Some(mut state) => {
                state.park(slots, high);
                self.surfaces.insert(surface, state);
                assert(self.surfaces@ =~= old(self).surfaces@.insert(surface, state));
            },
            None => {},
        }
    }

    /// Begins to give an image of a surface scratch. Pending scratch that may retire goes
    /// to the pool first; scratch of another size is put aside and its texture forgotten.
    pub fn begin_scratch(&mut self, surface: u64, image: usize, completed: u64) -> (start: Result<
        ScratchStart,
        SurfaceError,
    >)
        requires
            old(self).surfaces@.contains_key(surface) ==> old(self).surfaces@[surface].wf() && image
                < old(self).surfaces@[surface].scratch@.len(),
        ensures
            if !old(self).surfaces@.contains_key(surface) {
                &&& start == Err::<ScratchStart, SurfaceError>(SurfaceError::InvalidSurface)
                &&& final(self).surfaces@ == old(self).surfaces@
                &&& *final(self) == (SurfaceTables { surfaces: final(self).surfaces, ..*old(self) })
            } else {
                let state = old(self).surfaces@[surface];
                let after = final(self).surfaces@[surface];
                &&& start == Ok::<ScratchStart, SurfaceError>(scratch_start(state, image as int))
                &&& after.wf()
                &&& final(self).surfaces@ == old(self).surfaces@.insert(surface, after)
                &&& match state.scratch@[image as int] {
                    Some(slot) if scratch_start(state, image as int) is Replaced => {
                        &&& exists|mid: CudaSurfaceState| #[trigger]
                            drained(state, mid, completed) && put_aside(mid, after, image as int)
                        &&& (final(self).textures@, final(self).texture_slots@)
                            == without_textures(
                            old(self).textures@,
                            old(self).texture_slots@,
                            seq![slot.texture_handle],
                        )
                    },
                    _ => {
                        &&& drained(state, after, completed)
                        &&& final(self).textures@ == old(self).textures@
                        &&& final(self).texture_slots@ == old(self).texture_slots@
                    },
                }
                &&& *final(self) == (SurfaceTables {
                    surfaces: final(self).surfaces,
                    textures: final(self).textures,
                    texture_slots: final(self).texture_slots,
                    ..*old(self)
                })
            },
    {
        match self.surfaces.remove(&surface) {
            None => {
                assert(self.surfaces@ =~= old(self).surfaces@);
                Err(SurfaceError::InvalidSurface)
            },
            Some(mut state) => {
                let ghost before = state;
                state.drain_pending_scratch(completed);
                let ghost mid = state;
                assert(drained(before, mid, completed));
                let start = match state.scratch_decision(image) {
                    ScratchDecision::Reuse { texture } => ScratchStart::Ready { texture },
                    ScratchDecision::Create => ScratchStart::Missing,
                    ScratchDecision::Replace { texture } => {
                        let retire_at: u64 = state.replace_scratch(image);
                        assert(put_aside(mid, state, image as int));
                        let _ = self.unregister_scratch_texture(texture);
                        proof {
                            let one = seq![texture];
                            assert(one.drop_last() =~= Seq::<u64>::empty());
                            reveal_with_fuel(without_textures, 2);
                        }
                        ScratchStart::Replaced { retire_at }
                    },
                };
                self.surfaces.insert(surface, state);
                assert(self.surfaces@ =~= old(self).surfaces@.insert(surface, state));
                Ok(start)
            },
        }
    }

    /// Gives an image of a surface scratch that was taken from the pool or made, with its
    /// texture under a storage slot.
    pub fn finish_scratch(
        &mut self,
        surface: u64,
        image: usize,
        shared: SharedScratch,
        storage_slot: u32,
        texture: CudaTexture,
    ) -> (handle: u64)
        requires
            old(self).next_texture < u64::MAX,
            old(self).surfaces@.contains_key(surface),
            old(self).surfaces@[surface].wf(),
            image < old(self).surfaces@[surface].scratch@.len(),
        ensures
            handle == old(self).next_texture,
            final(self).textures@ == old(self).textures@.insert(handle, texture),
            final(self).texture_slots@ == old(self).texture_slots@.insert(storage_slot, handle),
            ({
                let state = old(self).surfaces@[surface];
                let after = final(self).surfaces@[surface];
                &&& after.wf()
                &&& final(self).surfaces@ == old(self).surfaces@.insert(surface, after)
                &&& after.scratch@ == state.scratch@.update(
                    image as int,
                    Some(super::present::fresh_slot(shared, handle)),
                )
                &&& after.present_generation == ((state.present_generation + 1)
                    % 0x1_0000_0000_0000_0000) as u64
                &&& forall|i: int|
                    0 <= i < after.present_cache@.len() ==> #[trigger] after.present_cache@[i]
                        == no_list()
                &&& after == (CudaSurfaceState {
                    scratch: after.scratch,
                    present_generation: after.present_generation,
                    present_cache: after.present_cache,
                    ..state
                })
            }),
            *final(self) == (SurfaceTables {
                surfaces: final(self).surfaces,
                textures: final(self).textures,
                texture_slots: final(self).texture_slots,
                next_texture: (handle + 1) as u64,
                ..*old(self)
            }),
    {
        let handle: u64 = self.register_scratch_texture(storage_slot, texture);
        match self.surfaces.remove(&surface) {
            Some(mut state) => {
                state.install_scratch(image, shared, handle);
                self.surfaces.insert(surface, state);
                assert(self.surfaces@ =~= old(self).surfaces@.insert(surface, state));
            },
            None => {},
        }
        handle
    }
}

/// What a present finds of its device and its context.
#[derive(Clone, Copy, Debug, PartialEq, Eq, Structural)]
pub struct PresentInputs {
    pub device_known: bool,
    /// The companion of the device, if it has one.
    pub companion: Option<u64>,
    pub context_known: bool,
    pub allow_tearing: bool,
}

/// A present that may go on: what it copies, and what it waits for.
#[derive(Clone, Copy, Debug, PartialEq, Eq, Structural)]
pub struct PresentStart {
    pub source: Option<PresentSource>,
    pub plan: PresentPlan,
    pub companion: u64,
    pub allow_tearing: bool,
}

/// What is given out for a present that may go on.
#[derive(Clone, Copy, Debug, PartialEq, Eq, Structural)]
pub struct PresentGiven {
    /// Its timeline value.
    pub present_tv: u64,
    /// Event for its completion, if one is needed and could be had.
    pub event: Option<u64>,
    /// Fence value that its handoff signals, if one is needed.
    pub handoff_value: u64,
}

/// A present that is ready to run, with what its copy does.
#[derive(Clone, Copy, Debug, PartialEq, Eq, Structural)]
pub struct TakenPresent {
    pub work: PresentWork,
    pub list: PresentList,
    /// Event after which a handoff signals the fence, where one is needed.
    pub handoff_event: Option<u64>,
    pub scratch_texture: u64,
}

/// Why a present of a surface cannot begin; `None` where it can.
pub open spec fn surface_refused(
    state: CudaSurfaceState,
    ledger: Map<u64, LedgerEntry>,
    frame: FrameToken,
    submit_tv: u64,
    inputs: PresentInputs,
) -> Option<SurfaceError> {
    if !inputs.device_known {
        Some(SurfaceError::PresentWithoutDevice)
    } else if inputs.companion is None {
        Some(SurfaceError::PresentWithoutCompanion)
    } else if !inputs.context_known {
        Some(SurfaceError::InvalidContext { context: frame.context })
    } else if !has_scratch(state, frame.image as int) {
        Some(SurfaceError::NoScratch)
    } else {
        let source = state.scratch@[frame.image as int]->Some_0.present_source;
        match present_plan(ledger, source, submit_tv, frame.context) {
            Err(e) => Some(e),
            Ok(_) => None,
        }
    }
}

/// Why a present cannot begin; `None` where it can.
pub open spec fn present_refused(
    surfaces: Map<u64, CudaSurfaceState>,
    ledger: Map<u64, LedgerEntry>,
    frame: FrameToken,
    submit_tv: u64,
    inputs: PresentInputs,
) -> Option<SurfaceError> {
    if surfaces.contains_key(frame.surface) {
        surface_refused(surfaces[frame.surface], ledger, frame, submit_tv, inputs)
    } else {
        Some(SurfaceError::PresentWithoutSurface)
    }
}

/// What a present of a surface that can begin starts with.
pub open spec fn present_start(
    state: CudaSurfaceState,
    ledger: Map<u64, LedgerEntry>,
    frame: FrameToken,
    submit_tv: u64,
    inputs: PresentInputs,
) -> PresentStart {
    let source = state.scratch@[frame.image as int]->Some_0.present_source;
    PresentStart {
        source,
        plan: present_plan(ledger, source, submit_tv, frame.context)->Ok_0,
        companion: inputs.companion->Some_0,
        allow_tearing: inputs.allow_tearing,
    }
}

/// The image has scratch.
pub open spec fn has_scratch(state: CudaSurfaceState, image: int) -> bool {
    0 <= image < state.scratch@.len() && state.scratch@[image] is Some
}

/// The surface has given up its current texture, and the image its present source where
/// it has got that far.
pub open spec fn source_taken(before: CudaSurfaceState, after: CudaSurfaceState, image: int, taken: bool) -> bool {
    &&& after.scratch@ == (if taken && has_scratch(before, image) {
        before.scratch@.update(
            image,
            Some(ScratchSlot { present_source: None, ..before.scratch@[image]->Some_0 }),
        )
    } else {
        before.scratch@
    })
    &&& after == (CudaSurfaceState {
        scratch: after.scratch,
        current_texture_handle: None,
        ..before
    })
}

/// The surfaces once a present was begun, whether it was refused or not.
pub open spec fn surfaces_begun(
    before: Map<u64, CudaSurfaceState>,
    after: Map<u64, CudaSurfaceState>,
    frame: FrameToken,
    inputs: PresentInputs,
) -> bool {
    if before.contains_key(frame.surface) {
        &&& after == before.insert(frame.surface, after[frame.surface])
        &&& after[frame.surface].wf()
        &&& source_taken(
            before[frame.surface],
            after[frame.surface],
            frame.image as int,
            inputs.device_known && inputs.companion is Some && inputs.context_known,
        )
    } else {
        after == before
    }
}

/// How the completion of a present is published.
pub open spec fn completion_of_plan(plan: PresentPlan, given: PresentGiven) -> PresentCompletion {
    if plan.raster_direct {
        PresentCompletion::Dx12Fence
    } else {
        PresentCompletion::CudaEvent { event: given.event->Some_0 }
    }
}

/// The fence value that the companion waits for before it copies.
pub open spec fn complete_value(plan: PresentPlan, handoff_value: u64) -> u64 {
    if plan.direct_cuda_complete > 0 {
        plan.direct_cuda_complete
    } else if plan.handoff_event is Some {
        handoff_value
    } else {
        0
    }
}

/// The event that a present needs for its completion could not be had.
pub open spec fn event_missing(start: PresentStart, given: PresentGiven) -> bool {
    !start.plan.raster_direct && given.event is None
}

/// The timeline once a present was published.
pub open spec fn present_published(
    ledger: Map<u64, LedgerEntry>,
    frame: FrameToken,
    start: PresentStart,
    given: PresentGiven,
) -> Map<u64, LedgerEntry> {
    if event_missing(start, given) {
        ledger
    } else {
        ledger.insert(
            given.present_tv,
            present_entry(completion_of_plan(start.plan, given), start.companion, frame.context),
        )
    }
}

/// The work of a present that was published.
pub open spec fn present_taken(
    surfaces: Map<u64, CudaSurfaceState>,
    frame: FrameToken,
    start: PresentStart,
    given: PresentGiven,
) -> Result<TakenPresent, SurfaceError> {
    let state = surfaces[frame.surface];
    if event_missing(start, given) {
        Err(SurfaceError::EventCreateFailed)
    } else if !surfaces.contains_key(frame.surface) {
        Err(SurfaceError::PresentWithoutSurface)
    } else if !has_scratch(state, frame.image as int) {
        Err(SurfaceError::NoScratch)
    } else {
        let entry = present_entry_of(
            state,
            frame.image as int,
            frame.present_slot as int,
            start.source,
        );
        let reuse = list_matches(state.present_cache@[frame.present_slot as int], entry);
        Ok(
            TakenPresent {
                work: PresentWork {
                    join_submit_tv: start.plan.join_submit_tv,
                    cuda_complete: complete_value(start.plan, given.handoff_value),
                    reuse_list: reuse,
                    present_tv: given.present_tv,
                    completion: completion_of_plan(start.plan, given),
                    present_mode: state.present_mode,
                    allow_tearing: start.allow_tearing,
                },
                list: PresentList { entry, reuse },
                handoff_event: start.plan.handoff_event,
                scratch_texture: state.scratch@[frame.image as int]->Some_0.texture_handle,
            },
        )
    }
}

impl PresentStart {
    /// Whether the completion of the present is published by an event.
    pub fn needs_event(&self) -> (needed: bool)
        ensures
            needed == !self.plan.raster_direct,
    {
        !self.plan.raster_direct
    }

    /// Whether a handoff signals the fence that the copy waits for.
    pub fn needs_handoff(&self) -> (needed: bool)
        ensures
            needed == self.plan.handoff_event is Some,
    {
        match self.plan.handoff_event {
            Some(_) => true,
            None => false,
        }
    }
}

/// Begins a present: tells whether it may go on, and what has to be given out for it,
/// before anything is. The surface has no current texture from then on, and a present
/// source is used once: also where the present is refused after it was taken.
pub fn begin_present(
    tables: &mut SurfaceTables,
    ledger: &EventLedger,
    frame: &FrameToken,
    submit_tv: u64,
    inputs: &PresentInputs,
) -> (start: Result<PresentStart, SurfaceError>)
    requires
        old(tables).surfaces@.contains_key(frame.surface)
            ==> old(tables).surfaces@[frame.surface].wf(),
    ensures
        *final(tables) == (SurfaceTables { surfaces: final(tables).surfaces, ..*old(tables) }),
        surfaces_begun(old(tables).surfaces@, final(tables).surfaces@, *frame, *inputs),
        start == (match present_refused(
            old(tables).surfaces@,
            ledger@,
            *frame,
            submit_tv,
            *inputs,
        ) {
            Some(e) => Err(e),
            None => Ok(
                present_start(
                    old(tables).surfaces@[frame.surface],
                    ledger@,
                    *frame,
                    submit_tv,
                    *inputs,
                ),
            ),
        }),
{
    match tables.surfaces.remove(&frame.surface) {
        None => {
            assert(tables.surfaces@ =~= old(tables).surfaces@);
            Err(SurfaceError::PresentWithoutSurface)
        },
        Some(mut state) => {
            let start = begin_on_surface(&mut state, ledger, frame, submit_tv, inputs);
            tables.surfaces.insert(frame.surface, state);
            assert(tables.surfaces@ =~= old(tables).surfaces@.insert(frame.surface, state));
            start
        },
    }
}

fn begin_on_surface(
    state: &mut CudaSurfaceState,
    ledger: &EventLedger,
    frame: &FrameToken,
    submit_tv: u64,
    inputs: &PresentInputs,
) -> (start: Result<PresentStart, SurfaceError>)
    requires
        old(state).wf(),
    ensures
        final(state).wf(),
        source_taken(
            *old(state),
            *final(state),
            frame.image as int,
            inputs.device_known && inputs.companion is Some && inputs.context_known,
        ),
        start == (match surface_refused(*old(state), ledger@, *frame, submit_tv, *inputs) {
            Some(e) => Err(e),
            None => Ok(present_start(*old(state), ledger@, *frame, submit_tv, *inputs)),
        }),
{
    state.current_texture_handle = None;
    if !inputs.device_known {
        return Err(SurfaceError::PresentWithoutDevice);
    }
    let companion: u64 = match inputs.companion {
        Some(companion) => companion,
        None => {
            return Err(SurfaceError::PresentWithoutCompanion);
        },
    };
    if !inputs.context_known {
        return Err(SurfaceError::InvalidContext { context: frame.context });
    }
    let source = match state.take_present_source(frame.image) {
        Ok(source) => source,
        Err(e) => {
            return Err(e);
        },
    };
    match plan_present(ledger, &source, submit_tv, frame.context) {
        Ok(plan) => Ok(
            PresentStart { source, plan, companion, allow_tearing: inputs.allow_tearing },
        ),
        Err(e) => Err(e),
    }
}

/// Publishes a present that was begun under the timeline value that was given out for
/// it, and puts its work together.
pub fn publish_begun(
    tables: &SurfaceTables,
    ledger: &mut EventLedger,
    frame: &FrameToken,
    start: &PresentStart,
    given: &PresentGiven,
) -> (taken: Result<TakenPresent, SurfaceError>)
    requires
        tables.surfaces@.contains_key(frame.surface) ==> tables.surfaces@[frame.surface].wf()
            && frame.present_slot < tables.surfaces@[frame.surface].scratch@.len(),
    ensures
        taken == present_taken(tables.surfaces@, *frame, *start, *given),
        final(ledger)@ == present_published(old(ledger)@, *frame, *start, *given),
{
    let completion = if start.plan.raster_direct {
        PresentCompletion::Dx12Fence
    } else {
        match given.event {
            Some(event) => PresentCompletion::CudaEvent { event },
            None => {
                return Err(SurfaceError::EventCreateFailed);
            },
        }
    };
    publish_present(ledger, given.present_tv, completion, start.companion, frame.context);
    let state = match tables.surfaces.get(&frame.surface) {
        Some(state) => state,
        None => {
            return Err(SurfaceError::PresentWithoutSurface);
        },
    };
    let scratch_texture: u64 = match state.scratch_texture_of(frame.image) {
        Some(texture) => texture,
        None => {
            return Err(SurfaceError::NoScratch);
        },
    };
    let list = state.present_list(frame.image, frame.present_slot, &start.source);
    let value: u64 = cuda_complete(&start.plan, given.handoff_value);
    Ok(
        TakenPresent {
            work: PresentWork {
                join_submit_tv: start.plan.join_submit_tv,
                cuda_complete: value,
                reuse_list: list.reuse,
                present_tv: given.present_tv,
                completion,
                present_mode: state.present_mode,
                allow_tearing: start.allow_tearing,
            },
            list,
            handoff_event: start.plan.handoff_event,
            scratch_texture,
        },
    )
}

/// Takes the work of a present out of a surface and publishes its completion under its
/// timeline value, where everything that it may need is at hand.
pub fn take_present_gpu_work(
    tables: &mut SurfaceTables,
    ledger: &mut EventLedger,
    frame: &FrameToken,
    submit_tv: u64,
    inputs: &PresentInputs,
    given: &PresentGiven,
) -> (taken: Result<TakenPresent, SurfaceError>)
    requires
        old(tables).surfaces@.contains_key(frame.surface)
            ==> old(tables).surfaces@[frame.surface].wf() && frame.present_slot
            < old(tables).surfaces@[frame.surface].scratch@.len(),
    ensures
        *final(tables) == (SurfaceTables { surfaces: final(tables).surfaces, ..*old(tables) }),
        surfaces_begun(old(tables).surfaces@, final(tables).surfaces@, *frame, *inputs),
        match present_refused(
            old(tables).surfaces@,
            old(ledger)@,
            *frame,
            submit_tv,
            *inputs,
        ) {
            Some(e) => {
                &&& taken == Err::<TakenPresent, SurfaceError>(e)
                &&& final(ledger)@ == old(ledger)@
            },
            None => {
                let start = present_start(
                    old(tables).surfaces@[frame.surface],
                    old(ledger)@,
                    *frame,
                    submit_tv,
                    *inputs,
                );
                &&& taken == present_taken(final(tables).surfaces@, *frame, start, *given)
                &&& final(ledger)@ == present_published(old(ledger)@, *frame, start, *given)
                &&& taken is Ok <==> !event_missing(start, *given)
            },
        },
{
    match begin_present(tables, ledger, frame, submit_tv, inputs) {
        Err(e) => Err(e),
        Ok(start) => publish_begun(tables, ledger, frame, &start, given),
    }
}

/// What a present needs follows from its start alone: an event unless it copies what the
/// companion has drawn, and a fence value only where a handoff signals for it. What it
/// does not need makes no difference to it.
pub proof fn unneeded_values_do_not_matter(
    surfaces: Map<u64, CudaSurfaceState>,
    ledger: Map<u64, LedgerEntry>,
    frame: FrameToken,
    start: PresentStart,
    given: PresentGiven,
    event: Option<u64>,
    handoff_value: u64,
)
    ensures
        start.plan.raster_direct ==> present_taken(surfaces, frame, start, given) == present_taken(
            surfaces,
            frame,
            start,
            PresentGiven { event, ..given },
        ) && present_published(ledger, frame, start, given) == present_published(
            ledger,
            frame,
            start,
            PresentGiven { event, ..given },
        ),
        start.plan.handoff_event is None ==> present_taken(surfaces, frame, start, given)
            == present_taken(surfaces, frame, start, PresentGiven { handoff_value, ..given }),
{
}

impl CudaSurfaceState {
    fn scratch_texture_of(&self, image: usize) -> (texture: Option<u64>)
        ensures
            texture == (if has_scratch(*self, image as int) {
                Some(self.scratch@[image as int]->Some_0.texture_handle)
            } else {
                None
            }),
    {
        if image >= self.scratch.len() {
            return None;
        }
        match &self.scratch[image] {
            Some(slot) => Some(slot.texture_handle),
            None => None,
        }
    }
}

/// A present that was taken can be waited for on its context.
pub proof fn taken_present_is_published(
    ledger: Map<u64, LedgerEntry>,
    retired: u64,
    plan: PresentPlan,
    given: PresentGiven,
    companion: u64,
    context: u64,
)
    ensures
        super::timeline::wait_outcome(
            ledger.insert(
                given.present_tv,
                present_entry(completion_of_plan(plan, given), companion, context),
            ),
            retired,
            context,
            given.present_tv,
        ) is Pending,
{
}

/// Once scratch was let go, no table holds its textures.
pub proof fn retired_textures_are_gone(
    textures: Map<u64, CudaTexture>,
    slots: Map<u32, u64>,
    handles: Seq<u64>,
    i: int,
)
    requires
        0 <= i < handles.len(),
    ensures
        !without_textures(textures, slots, handles).0.contains_key(handles[i]),
        forall|h: u64|
            textures.contains_key(h) && !handles.contains(h) ==> #[trigger] without_textures(
                textures,
                slots,
                handles,
            ).0.contains_key(h),
    decreases handles.len(),
{
    if handles.len() > 1 {
        let rest = handles.drop_last();
        if i < rest.len() {
            retired_textures_are_gone(textures, slots, rest, i);
        } else {
            retired_textures_are_gone(textures, slots, rest, 0);
        }
        assert forall|h: u64| textures.contains_key(h) && !handles.contains(h) implies #[trigger]
            without_textures(textures, slots, handles).0.contains_key(h) by {
            assert(!rest.contains(h)) by {
                if rest.contains(h) {
                    let k = choose|k: int| 0 <= k < rest.len() && rest[k] == h;
                    assert(handles[k] == h);
                }
            }
            assert(without_textures(textures, slots, rest).0.contains_key(h));
            assert(handles[handles.len() - 1] != h);
        }
    } else {
        assert(handles.drop_last() =~= Seq::<u64>::empty());
        reveal_with_fuel(without_textures, 2);
        assert forall|h: u64| textures.contains_key(h) && !handles.contains(h) implies #[trigger]
            without_textures(textures, slots, handles).0.contains_key(h) by {
            assert(handles[0] != h);
        }
    }
}

} // verus!
