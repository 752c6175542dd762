//! What a present takes from its surface, and what it leaves.

use vstd::prelude::*;

use super::present::{
    fresh_slot, frame_begun, present_finished, present_plan, FrameToken, PresentFinish,
};
use super::surface::{CudaSurfaceState, SharedScratch, SurfaceError};
use super::surface_flow::{
    present_refused, present_start, surfaces_begun, PresentInputs,
};
use super::surface_frame::companion_found;
use super::surface_table::{is_scratch_of, surface_shows};
use super::timeline::LedgerEntry;

verus! {

broadcast use vstd::std_specs::hash::group_hash_axioms;

/// A present begins exactly where its surface, device, companion and context are there, its
/// image has scratch, and what produced that scratch is known to the ledger.
pub proof fn present_begins_where_all_is_there(
    surfaces: Map<u64, CudaSurfaceState>,
    ledger: Map<u64, LedgerEntry>,
    frame: FrameToken,
    submit_tv: u64,
    inputs: PresentInputs,
)
    ensures
        present_refused(surfaces, ledger, frame, submit_tv, inputs) is None <==> {
            &&& surfaces.contains_key(frame.surface)
            &&& inputs.device_known
            &&& inputs.companion is Some
            &&& inputs.context_known
            &&& frame.image < surfaces[frame.surface].scratch@.len()
            &&& surfaces[frame.surface].scratch@[frame.image as int] is Some
            &&& present_plan(
                ledger,
                surfaces[frame.surface].scratch@[frame.image as int]->0.present_source,
                submit_tv,
                frame.context,
            ) is Ok
        },
{
}

/// A present that cannot begin tells the first thing that is missing.
pub proof fn refused_present_tells_what_is_missing(
    surfaces: Map<u64, CudaSurfaceState>,
    ledger: Map<u64, LedgerEntry>,
    frame: FrameToken,
    submit_tv: u64,
    inputs: PresentInputs,
)
    ensures
        ({
            let why = present_refused(surfaces, ledger, frame, submit_tv, inputs);
            let known = surfaces.contains_key(frame.surface);
            &&& !known <==> why == Some(SurfaceError::PresentWithoutSurface)
            &&& known && !inputs.device_known ==> why == Some(SurfaceError::PresentWithoutDevice)
            &&& known && inputs.device_known && inputs.companion is None ==> why == Some(
                SurfaceError::PresentWithoutCompanion,
            )
            &&& known && inputs.device_known && inputs.companion is Some && !inputs.context_known
                ==> why == Some(SurfaceError::InvalidContext { context: frame.context })
            &&& known && inputs.device_known && inputs.companion is Some && inputs.context_known && (
            frame.image >= surfaces[frame.surface].scratch@.len()
                || surfaces[frame.surface].scratch@[frame.image as int] is None) ==> why == Some(
                SurfaceError::NoScratch,
            )
        }),
{
    if surfaces.contains_key(frame.surface) && frame.image
        < surfaces[frame.surface].scratch@.len() {
        let slot = surfaces[frame.surface].scratch@[frame.image as int];
        if slot is Some {
            let plan = present_plan(ledger, slot->0.present_source, submit_tv, frame.context);
            assert(plan matches Err(e) ==> e != SurfaceError::PresentWithoutSurface);
        }
    }
}

/// A present that begins shows the source that its own image was drawn from, on the
/// companion it was given.
pub proof fn present_shows_the_source_of_its_image(
    state: CudaSurfaceState,
    ledger: Map<u64, LedgerEntry>,
    frame: FrameToken,
    submit_tv: u64,
    inputs: PresentInputs,
)
    requires
        frame.image < state.scratch@.len(),
        state.scratch@[frame.image as int] is Some,
        inputs.companion is Some,
        present_plan(
            ledger,
            state.scratch@[frame.image as int]->0.present_source,
            submit_tv,
            frame.context,
        ) is Ok,
    ensures
        ({
            let start = present_start(state, ledger, frame, submit_tv, inputs);
            &&& start.source == state.scratch@[frame.image as int]->0.present_source
            &&& present_plan(ledger, start.source, submit_tv, frame.context) == Ok::<_, SurfaceError>(
                start.plan,
            )
            &&& Some(start.companion) == inputs.companion
            &&& start.allow_tearing == inputs.allow_tearing
        }),
{
}

/// Once a present has begun its surface has no current texture. The image no longer has a
/// source to present, so it is shown once; its scratch is otherwise as it was, and so are
/// the other images and the other surfaces.
pub proof fn image_is_shown_once(
    before: Map<u64, CudaSurfaceState>,
    after: Map<u64, CudaSurfaceState>,
    frame: FrameToken,
    inputs: PresentInputs,
    image: int,
    other: u64,
)
    requires
        surfaces_begun(before, after, frame, inputs),
    ensures
        after.dom() == before.dom(),
        other != frame.surface && before.contains_key(other) ==> after[other] == before[other],
        before.contains_key(frame.surface) ==> {
            let old_state = before[frame.surface];
            let new_state = after[frame.surface];
            &&& new_state.current_texture_handle is None
            &&& new_state.scratch@.len() == old_state.scratch@.len()
            &&& new_state.slot_fence == old_state.slot_fence
            &&& 0 <= image < old_state.scratch@.len() && image != frame.image
                ==> new_state.scratch@[image] == old_state.scratch@[image]
            &&& frame.image < old_state.scratch@.len() && old_state.scratch@[frame.image as int]
                is Some ==> {
                let was = old_state.scratch@[frame.image as int]->0;
                &&& new_state.scratch@[frame.image as int] matches Some(now)
                &&& now.texture_handle == was.texture_handle
                &&& now.shared == was.shared
                &&& now.dx12_complete == was.dx12_complete
                &&& now.present_source == if inputs.device_known && inputs.companion is Some
                    && inputs.context_known {
                    None
                } else {
                    was.present_source
                }
            }
        },
{
    if before.contains_key(frame.surface) {
        assert(after.dom() =~= before.dom());
    }
}

/// A present that was copied under a fence value keeps its present slot and its scratch
/// until that value; one that was not copied keeps neither. An image that was shown is no
/// longer in its common state. Nothing else of the surface changes.
pub proof fn finished_present_guards_what_it_used(
    before: CudaSurfaceState,
    after: CudaSurfaceState,
    finish: PresentFinish,
    i: int,
)
    requires
        present_finished(before, after, finish),
        finish.frame.present_slot < before.slot_fence@.len(),
        finish.frame.image < before.scratch@.len(),
        finish.frame.image < before.backbuffer_in_common@.len(),
    ensures
        finish.return_fence > 0 ==> after.slot_fence@[finish.frame.present_slot as int]
            == finish.return_fence,
        finish.return_fence > 0 ==> (before.scratch@[finish.frame.image as int] matches Some(was)
            ==> {
            &&& after.scratch@[finish.frame.image as int] matches Some(now)
            &&& now.dx12_complete == finish.return_fence
            &&& now.pending_scratch_reuse_fence == finish.return_fence
            &&& now.texture_handle == was.texture_handle
            &&& now.shared == was.shared
            &&& now.present_source == was.present_source
        }),
        finish.return_fence == 0 ==> after.slot_fence@ == before.slot_fence@ && after.scratch@
            == before.scratch@,
        0 <= i < before.slot_fence@.len() && i != finish.frame.present_slot ==> after.slot_fence@[i]
            == before.slot_fence@[i],
        0 <= i < before.scratch@.len() && i != finish.frame.image ==> after.scratch@[i]
            == before.scratch@[i],
        0 <= i < before.backbuffer_in_common@.len() ==> after.backbuffer_in_common@[i] == (
        before.backbuffer_in_common@[i] && !(finish.present_ok && i == finish.frame.image)),
        after.current_frame == before.current_frame,
        after.width == before.width,
        after.height == before.height,
        after.present_cache == before.present_cache,
        after.pending_scratch == before.pending_scratch,
{
}

/// A frame that begins draws to its image, and the frames go round the present slots.
pub proof fn frames_go_round_the_present_slots(state: CudaSurfaceState, image: u32, texture: u64)
    requires
        state.scratch@.len() > 0,
        state.current_frame < state.scratch@.len(),
    ensures
        frame_begun(state, image, texture).current_image_index == Some(image),
        frame_begun(state, image, texture).current_texture_handle == Some(texture),
        state.current_frame + 1 < state.scratch@.len() ==> frame_begun(
            state,
            image,
            texture,
        ).current_frame == state.current_frame + 1,
        state.current_frame + 1 == state.scratch@.len() ==> frame_begun(
            state,
            image,
            texture,
        ).current_frame == 0,
        frame_begun(state, image, texture).scratch == state.scratch,
        frame_begun(state, image, texture).slot_fence == state.slot_fence,
{
    let n = state.scratch.len() as int;
    assert(n == state.scratch@.len() && n <= usize::MAX);
    if state.current_frame + 1 < n {
        vstd::arithmetic::div_mod::lemma_small_mod((state.current_frame + 1) as nat, n as nat);
    } else {
        vstd::arithmetic::div_mod::lemma_mod_self_0(n);
    }
}

/// Scratch that was just made waits for nothing and has nothing to show.
pub proof fn new_scratch_waits_for_nothing(shared: SharedScratch, texture: u64)
    ensures
        fresh_slot(shared, texture).shared == shared,
        fresh_slot(shared, texture).texture_handle == texture,
        fresh_slot(shared, texture).dx12_complete == 0,
        fresh_slot(shared, texture).pending_scratch_reuse_fence == 0,
        fresh_slot(shared, texture).present_source is None,
{
}

/// A companion is found exactly where the device is known and has one.
pub proof fn companion_is_that_of_a_known_device(device_known: bool, companion: Option<u64>)
    ensures
        companion_found(device_known, companion) is Ok <==> device_known && companion is Some,
        companion_found(device_known, companion) matches Ok(c) ==> companion == Some(c),
        companion_found(device_known, companion) matches Err(e) ==> (e
            == SurfaceError::InvalidDevice <==> !device_known) && (e
            == SurfaceError::CompanionMissing <==> device_known),
{
}

/// A surface shows a texture exactly where one of its images has it for its scratch.
pub proof fn surface_shows_the_scratch_of_its_images(
    surfaces: Map<u64, CudaSurfaceState>,
    texture: u64,
    surface: u64,
    image: usize,
)
    ensures
        is_scratch_of(surfaces, texture, surface, image) ==> surfaces.contains_key(surface)
            && surface_shows(surfaces, texture, surface),
        surfaces.contains_key(surface) && image < surfaces[surface].scratch@.len() ==> (
        match surfaces[surface].scratch@[image as int] {
            Some(slot) => is_scratch_of(surfaces, texture, surface, image) == (slot.texture_handle
                == texture),
            None => !is_scratch_of(surfaces, texture, surface, image),
        }),
        surface_shows(surfaces, texture, surface) ==> surfaces.contains_key(surface),
{
}

} // verus!
