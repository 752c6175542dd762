//! What a present waits for, copies, shows and publishes.

use vstd::prelude::*;

use super::present::{
    list_matches, present_entry, present_entry_of, present_plan, present_steps, publish_part,
    record_part, signal_part, wait_part, PresentCompletion, PresentStep, PresentWork,
};
use super::surface::{
    CudaSurfaceState, PresentColorSrcState, PresentListCache, PresentSource, SurfaceError,
    PRESENT_ALLOW_TEARING,
};
use super::texture::TextureFormat;
use super::timeline::{LedgerCompletion, LedgerEntry};

verus! {

broadcast use vstd::std_specs::hash::group_hash_axioms;

/// A present whose source was signaled by its writer waits for that value and for the
/// submission that wrote it; one whose source was not waits for the event of the
/// submission; a render target of the companion waits for neither. It is refused exactly
/// where the submission has no event on this context.
pub proof fn present_waits_for_its_source(
    ledger: Map<u64, LedgerEntry>,
    source: Option<PresentSource>,
    submit_tv: u64,
    context: u64,
)
    ensures
        ({
            let signaled = source matches Some(PresentSource::CudaScratch { cuda_complete })
                && cuda_complete > 0;
            let rastered = source matches Some(PresentSource::Dx12Raster { .. });
            let looked_up = !rastered && !signaled && submit_tv > 0;
            let entry = ledger[submit_tv];
            let planned = present_plan(ledger, source, submit_tv, context);
            &&& planned is Ok <==> (looked_up ==> ledger.contains_key(submit_tv) && entry.context
                == context && entry.completion is CudaEvent)
            &&& planned matches Ok(plan) ==> {
                &&& plan.raster_direct == rastered
                &&& signaled ==> plan.direct_cuda_complete == source->0->cuda_complete
                &&& !signaled ==> plan.direct_cuda_complete == 0
                &&& looked_up ==> plan.handoff_event == Some(entry.completion->event)
                &&& !looked_up ==> plan.handoff_event is None
                &&& plan.join_submit_tv is Some <==> signaled && submit_tv > 0
                &&& plan.join_submit_tv matches Some(tv) ==> tv == submit_tv
            }
            &&& planned matches Err(e) ==> match e {
                SurfaceError::NoCompletionEvent { submit_tv: s, context: c } => s == submit_tv
                    && c == context && !ledger.contains_key(submit_tv),
                SurfaceError::SubmitOnOtherContext { submit_tv: s, owner, context: c } => s
                    == submit_tv && c == context && owner == entry.context && owner != context,
                SurfaceError::SubmitIsFence { submit_tv: s } => s == submit_tv
                    && entry.completion is Dx12Fence,
                _ => false,
            }
        }),
{
}

/// A published present is an entry of its context that has not been recorded yet: with its
/// own event, or with the fence of its companion, whose value is bound later.
pub proof fn published_present_names_its_completion(
    completion: PresentCompletion,
    companion: u64,
    context: u64,
)
    ensures
        ({
            let entry = present_entry(completion, companion, context);
            &&& entry.context == context
            &&& !entry.recorded
            &&& completion matches PresentCompletion::CudaEvent { event } ==> (entry.completion
                matches LedgerCompletion::CudaEvent { event: e } && e == event)
            &&& completion is Dx12Fence ==> (entry.completion matches LedgerCompletion::Dx12Fence {
                companion: c,
                value,
                recycle,
            } && c == companion && value == 0 && recycle)
        }),
{
}

/// The step belongs to the work.
pub open spec fn belongs(work: PresentWork, step: PresentStep) -> bool {
    let immediate = work.present_mode is Immediate && work.allow_tearing;
    match step {
        PresentStep::JoinWorker { submit_tv } => work.join_submit_tv == Some(submit_tv),
        PresentStep::WaitQueue { value } => value > 0 && value == work.cuda_complete,
        PresentStep::ResetAllocator => !work.reuse_list,
        PresentStep::ResetList => !work.reuse_list,
        PresentStep::RecordCopy => !work.reuse_list,
        PresentStep::CloseList => !work.reuse_list,
        PresentStep::CountListRecord => !work.reuse_list,
        PresentStep::AllocateFence => true,
        PresentStep::BindFence { present_tv } => work.completion is Dx12Fence && present_tv
            == work.present_tv,
        PresentStep::ExecuteAndSignal => true,
        PresentStep::Present { sync_interval, flags } => if immediate {
            sync_interval == 0 && flags == PRESENT_ALLOW_TEARING
        } else {
            sync_interval == 1 && flags == 0
        },
        PresentStep::WaitFenceOnPresentStream => work.completion is CudaEvent,
        PresentStep::RecordEvent { event } => work.completion == (PresentCompletion::CudaEvent {
            event,
        }),
        PresentStep::MarkRecorded { present_tv } => present_tv == work.present_tv,
        PresentStep::PollRetired => true,
    }
}

/// Every step of a present belongs to it: it joins the submission and waits for the value
/// that were planned, records its list unless one is reused, binds the fence to its own
/// value, shows the image at once only where that was asked for and may tear, and publishes
/// its own event and value.
pub proof fn steps_belong_to_their_present(work: PresentWork, i: int)
    requires
        0 <= i < present_steps(work).len(),
    ensures
        belongs(work, present_steps(work)[i]),
{
    let a = wait_part(work);
    let b = record_part(work);
    let c = signal_part(work);
    let d = publish_part(work);
    let step = present_steps(work)[i];
    if i < a.len() {
        assert(step == a[i]);
    } else if i < a.len() + b.len() {
        assert(step == b[i - a.len()]);
    } else if i < a.len() + b.len() + c.len() {
        assert(step == c[i - a.len() - b.len()]);
    } else {
        assert(step == d[i - a.len() - b.len() - c.len()]);
    }
}

/// Whatever step belongs to a present is one of its steps.
pub proof fn present_has_every_step_that_belongs(work: PresentWork, step: PresentStep) -> (i: int)
    requires
        belongs(work, step),
    ensures
        0 <= i < present_steps(work).len(),
        present_steps(work)[i] == step,
{
    let a = wait_part(work);
    let b = record_part(work);
    let c = signal_part(work);
    let d = publish_part(work);
    let all = present_steps(work);
    let ab = a.len() as int + b.len() as int;
    let abc = ab + c.len() as int;
    assert(forall|k: int| 0 <= k < a.len() ==> all[k] == #[trigger] a[k]);
    assert(forall|k: int| 0 <= k < b.len() ==> all[a.len() + k] == #[trigger] b[k]);
    assert(forall|k: int| 0 <= k < c.len() ==> all[ab + k] == #[trigger] c[k]);
    assert(forall|k: int| 0 <= k < d.len() ==> all[abc + k] == #[trigger] d[k]);
    match step {
        PresentStep::JoinWorker { .. } => 0,
        PresentStep::WaitQueue { .. } => a.len() - 1,
        PresentStep::ResetAllocator => a.len() as int,
        PresentStep::ResetList => a.len() as int + 1,
        PresentStep::RecordCopy => a.len() as int + 2,
        PresentStep::CloseList => a.len() as int + 3,
        PresentStep::CountListRecord => a.len() as int + 4,
        PresentStep::AllocateFence => ab,
        PresentStep::BindFence { .. } => ab + 1,
        PresentStep::ExecuteAndSignal => abc - 1,
        PresentStep::Present { .. } => abc,
        PresentStep::WaitFenceOnPresentStream => abc + 1,
        PresentStep::RecordEvent { .. } => abc + 2,
        PresentStep::MarkRecorded { .. } => abc + d.len() - 2,
        PresentStep::PollRetired => abc + d.len() - 1,
    }
}

/// The copy of a present reads its source, the render target of the companion in its common
/// state or else the scratch of the image, and writes the back buffer of the image that was
/// acquired, at the size of the scratch.
pub proof fn present_copies_its_source_to_its_image(
    state: CudaSurfaceState,
    image: int,
    slot: int,
    source: Option<PresentSource>,
)
    requires
        0 <= image <= usize::MAX,
        state.scratch@[image] is Some,
    ensures
        ({
            let entry = present_entry_of(state, image, slot, source);
            let scratch = state.scratch@[image]->0;
            &&& entry.backbuffer == state.backbuffers@[image]
            &&& entry.image_index == image
            &&& entry.backbuffer_from_common == state.backbuffer_in_common@[image]
            &&& entry.width == scratch.shared.width
            &&& entry.height == scratch.shared.height
            &&& entry.blit_target == scratch.shared.blit_target
            &&& entry.generation == state.present_generation
            &&& entry.slot_generation == state.cmd_generation@[slot]
            &&& entry.recorded
            &&& source matches Some(PresentSource::Dx12Raster { resource, fence, format }) ==> {
                &&& entry.color_src == resource
                &&& entry.color_src_state == Some(PresentColorSrcState::Common)
                &&& entry.color_src_format == Some(format)
            }
            &&& !(source matches Some(PresentSource::Dx12Raster { .. })) ==> {
                &&& entry.color_src == scratch.shared.resource
                &&& entry.color_src_state == Some(PresentColorSrcState::UnorderedAccess)
                &&& entry.color_src_format == Some(TextureFormat::Rgba32Float)
            }
        }),
{
}

/// A recorded list is used again only for a copy of the same source, in the same state and
/// format, to the same image, of the same size, and only while its slot has not been
/// recorded for anything else; it is always then.
pub proof fn list_is_used_again_for_the_same_copy(
    prior: PresentListCache,
    entry: PresentListCache,
)
    ensures
        list_matches(prior, entry) ==> {
            &&& prior.color_src == entry.color_src
            &&& prior.color_src_state == entry.color_src_state
            &&& prior.color_src_format == entry.color_src_format
            &&& prior.blit_target == entry.blit_target
            &&& prior.backbuffer == entry.backbuffer
            &&& prior.image_index == entry.image_index
            &&& prior.width == entry.width
            &&& prior.height == entry.height
            &&& prior.backbuffer_from_common == entry.backbuffer_from_common
            &&& prior.generation == entry.generation
            &&& prior.slot_generation == entry.slot_generation
            &&& prior.slot_generation != 0
        },
        prior == entry && entry.slot_generation != 0 ==> list_matches(prior, entry),
{
}

} // verus!
