//! Frames: acquiring an image, presenting it, and publishing that on the timeline.

use vstd::prelude::*;

use super::surface::{
    max2, no_list, present_args, present_source_fence, slot_high, CudaSurfaceState,
    PendingScratchDrop, PresentColorSrcState, PresentListCache, PresentMode, PresentSource,
    ScratchSlot, SharedScratch, SurfaceError,
};
use super::texture::TextureFormat;
use super::timeline::{
    is_latest, larger, EventLedger, LedgerCompletion, LedgerEntry,
};

verus! {

broadcast use vstd::std_specs::hash::group_hash_axioms;

/// A frame in progress.
#[derive(Clone, Copy, Debug, PartialEq, Eq, Structural)]
pub struct FrameToken {
    pub surface: u64,
    pub image: usize,
    pub context: u64,
    pub frame_slot: u32,
    pub present_slot: usize,
}

/// What is done for the scratch of an image.
#[derive(Clone, Copy, Debug, PartialEq, Eq, Structural)]
pub enum ScratchDecision {
    /// It is there, in the size of the surface.
    Reuse { texture: u64 },
    /// It is there in another size: it is put aside and another is made.
    Replace { texture: u64 },
    /// It has to be made.
    Create,
}

/// The scratch of an image that was just made.
pub open spec fn fresh_slot(shared: SharedScratch, texture_handle: u64) -> ScratchSlot {
    ScratchSlot {
        shared,
        texture_handle,
        dx12_complete: 0,
        present_source: None,
        pending_scratch_reuse_fence: 0,
    }
}

/// How present completion is published.
#[derive(Clone, Copy, Debug, PartialEq, Eq, Structural)]
pub enum PresentCompletion {
    /// By an event, after the fence of the copy.
    CudaEvent { event: u64 },
    /// By the fence of the copy itself.
    Dx12Fence,
}

/// What is to be waited for before a present.
#[derive(Clone, Copy, Debug, PartialEq, Eq, Structural)]
pub struct PresentPlan {
    /// The source is a render target of the companion.
    pub raster_direct: bool,
    /// Fence value that the writer of the scratch signals; zero where it signals none.
    pub direct_cuda_complete: u64,
    /// Event after which a handoff signals the fence, where the writer does not.
    pub handoff_event: Option<u64>,
    /// The worker must have submitted this value before the copy is signaled.
    pub join_submit_tv: Option<u64>,
}

/// The fence value that CUDA signals for a source.
pub open spec fn direct_complete(source: Option<PresentSource>) -> u64 {
    match source {
        Some(PresentSource::CudaScratch { cuda_complete }) => cuda_complete,
        _ => 0,
    }
}

/// The plan of a present. Only a submission that signaled nothing itself is looked up
/// in the ledger.
pub open spec fn present_plan(
    ledger: Map<u64, LedgerEntry>,
    source: Option<PresentSource>,
    submit_tv: u64,
    context: u64,
) -> Result<PresentPlan, SurfaceError> {
    let direct = direct_complete(source);
    let raster = source matches Some(PresentSource::Dx12Raster { resource, fence, format });
    let join = if direct > 0 && submit_tv > 0 {
        Some(submit_tv)
    } else {
        None
    };
    let plan = PresentPlan {
        raster_direct: raster,
        direct_cuda_complete: direct,
        handoff_event: None,
        join_submit_tv: join,
    };
    if !raster && direct == 0 && submit_tv > 0 {
        if !ledger.contains_key(submit_tv) {
            Err(SurfaceError::NoCompletionEvent { submit_tv, context })
        } else if ledger[submit_tv].context != context {
            Err(
                SurfaceError::SubmitOnOtherContext {
                    submit_tv,
                    owner: ledger[submit_tv].context,
                    context,
                },
            )
        } else {
            match ledger[submit_tv].completion {
                LedgerCompletion::CudaEvent { event } => Ok(
                    PresentPlan { handoff_event: Some(event), ..plan },
                ),
                LedgerCompletion::Dx12Fence { .. } => Err(SurfaceError::SubmitIsFence { submit_tv }),
            }
        }
    } else {
        Ok(plan)
    }
}

/// Plans what a present waits for.
pub fn plan_present(
    ledger: &EventLedger,
    source: &Option<PresentSource>,
    submit_tv: u64,
    context: u64,
) -> (plan: Result<PresentPlan, SurfaceError>)
    ensures
        plan == present_plan(ledger@, *source, submit_tv, context),
{
    let direct: u64 = match source {
        Some(PresentSource::CudaScratch { cuda_complete }) => *cuda_complete,
        _ => 0,
    };
    let raster = match source {
        Some(PresentSource::Dx12Raster { .. }) => true,
        _ => false,
    };
    let join_submit_tv = if direct > 0 && submit_tv > 0 {
        Some(submit_tv)
    } else {
        None
    };
    let mut plan = PresentPlan {
        raster_direct: raster,
        direct_cuda_complete: direct,
        handoff_event: None,
        join_submit_tv,
    };
    if !raster && direct == 0 && submit_tv > 0 {
        match ledger.entry(submit_tv) {
            None => {
                return Err(SurfaceError::NoCompletionEvent { submit_tv, context });
            },
            Some(entry) => {
                if entry.context != context {
                    return Err(
                        SurfaceError::SubmitOnOtherContext {
                            submit_tv,
                            owner: entry.context,
                            context,
                        },
                    );
                }
                match entry.completion {
                    LedgerCompletion::CudaEvent { event } => {
                        plan.handoff_event = Some(event);
                    },
                    LedgerCompletion::Dx12Fence { .. } => {
                        return Err(SurfaceError::SubmitIsFence { submit_tv });
                    },
                }
            },
        }
    }
    Ok(plan)
}

/// The marker of a present on the timeline: a fence whose value is bound when it is
/// signaled, or an event.
pub open spec fn present_entry(completion: PresentCompletion, companion: u64, context: u64) -> LedgerEntry {
    LedgerEntry {
        context,
        completion: match completion {
            PresentCompletion::CudaEvent { event } => LedgerCompletion::CudaEvent { event },
            PresentCompletion::Dx12Fence => LedgerCompletion::Dx12Fence {
                companion,
                value: 0,
                recycle: true,
            },
        },
        recorded: false,
    }
}

/// Publishes a present under a timeline value. It can be waited for from then on.
pub fn publish_present(
    ledger: &mut EventLedger,
    present_tv: u64,
    completion: PresentCompletion,
    companion: u64,
    context: u64,
)
    ensures
        final(ledger)@ == old(ledger)@.insert(
            present_tv,
            present_entry(completion, companion, context),
        ),
{
    let marker = match completion {
        PresentCompletion::CudaEvent { event } => LedgerCompletion::CudaEvent { event },
        PresentCompletion::Dx12Fence => LedgerCompletion::Dx12Fence {
            companion,
            value: 0,
            recycle: true,
        },
    };
    ledger.insert(present_tv, LedgerEntry { context, completion: marker, recorded: false });
}

/// The fence value that the companion waits for before it copies; zero for none.
/// `handoff_value` is what the handoff signals.
pub fn cuda_complete(plan: &PresentPlan, handoff_value: u64) -> (value: u64)
    ensures
        value == (if plan.direct_cuda_complete > 0 {
            plan.direct_cuda_complete
        } else if plan.handoff_event is Some {
            handoff_value
        } else {
            0
        }),
{
    if plan.direct_cuda_complete > 0 {
        return plan.direct_cuda_complete;
    }
    match plan.handoff_event {
        Some(_) => handoff_value,
        None => 0,
    }
}

/// The value up to which a context has submitted.
pub fn submit_frame(ledger: &EventLedger, completed: u64, context: u64) -> (value: u64)
    ensures
        exists|latest: u64| #[trigger]
            is_latest(ledger@, context, latest) && value == larger(completed, latest),
{
    let latest: u64 = ledger.latest_value(context);
    if completed >= latest {
        completed
    } else {
        latest
    }
}

/// What a present copy reads and writes, and whether a recorded list does just that.
#[derive(Clone, Copy, Debug, PartialEq, Eq, Structural)]
pub struct PresentList {
    pub entry: PresentListCache,
    pub reuse: bool,
}

/// What a list of a present has to be recorded for.
pub open spec fn present_entry_of(
    state: CudaSurfaceState,
    image: int,
    slot: int,
    source: Option<PresentSource>,
) -> PresentListCache {
    let scratch = state.scratch@[image]->Some_0;
    PresentListCache {
        generation: state.present_generation,
        slot_generation: state.cmd_generation@[slot],
        color_src: match source {
            Some(PresentSource::Dx12Raster { resource, fence, format }) => resource,
            _ => scratch.shared.resource,
        },
        color_src_state: Some(
            match source {
                Some(PresentSource::Dx12Raster { .. }) => PresentColorSrcState::Common,
                _ => PresentColorSrcState::UnorderedAccess,
            },
        ),
        color_src_format: Some(
            match source {
                Some(PresentSource::Dx12Raster { resource, fence, format }) => format,
                _ => TextureFormat::Rgba32Float,
            },
        ),
        blit_target: scratch.shared.blit_target,
        backbuffer: state.backbuffers@[image],
        image_index: image as usize,
        width: scratch.shared.width,
        height: scratch.shared.height,
        backbuffer_from_common: state.backbuffer_in_common@[image],
        recorded: true,
    }
}

/// A recorded list can be used again: it was recorded for the same, and its slot has
/// not been recorded for anything else since.
pub open spec fn list_matches(prior: PresentListCache, entry: PresentListCache) -> bool {
    prior == entry && prior.slot_generation != 0
}

/// One step of a present.
#[derive(Clone, Copy, Debug, PartialEq, Eq, Structural)]
pub enum PresentStep {
    /// Waits until the worker has submitted a value.
    JoinWorker { submit_tv: u64 },
    /// Lets the queue of the companion wait for a fence value.
    WaitQueue { value: u64 },
    ResetAllocator,
    ResetList,
    RecordCopy,
    CloseList,
    CountListRecord,
    /// Takes the next fence value.
    AllocateFence,
    /// Binds the fence value to the timeline value.
    BindFence { present_tv: u64 },
    ExecuteAndSignal,
    Present { sync_interval: u32, flags: u32 },
    /// Lets the present stream wait for the fence of the copy.
    WaitFenceOnPresentStream,
    RecordEvent { event: u64 },
    MarkRecorded { present_tv: u64 },
    PollRetired,
}

/// A present that is ready to run.
#[derive(Clone, Copy, Debug, PartialEq, Eq, Structural)]
pub struct PresentWork {
    pub join_submit_tv: Option<u64>,
    pub cuda_complete: u64,
    pub reuse_list: bool,
    pub present_tv: u64,
    pub completion: PresentCompletion,
    pub present_mode: PresentMode,
    pub allow_tearing: bool,
}

/// What a present waits for before it touches its list.
pub open spec fn wait_part(work: PresentWork) -> Seq<PresentStep> {
    let joined = match work.join_submit_tv {
        Some(submit_tv) => seq![PresentStep::JoinWorker { submit_tv }],
        None => Seq::empty(),
    };
    if work.cuda_complete > 0 {
        joined.push(PresentStep::WaitQueue { value: work.cuda_complete })
    } else {
        joined
    }
}

/// The recording of the copy.
pub open spec fn record_part(work: PresentWork) -> Seq<PresentStep> {
    if work.reuse_list {
        Seq::empty()
    } else {
        seq![
            PresentStep::ResetAllocator,
            PresentStep::ResetList,
            PresentStep::RecordCopy,
            PresentStep::CloseList,
            PresentStep::CountListRecord,
        ]
    }
}

/// The submission of the copy under a new fence value.
pub open spec fn signal_part(work: PresentWork) -> Seq<PresentStep> {
    if work.completion is Dx12Fence {
        seq![
            PresentStep::AllocateFence,
            PresentStep::BindFence { present_tv: work.present_tv },
            PresentStep::ExecuteAndSignal,
        ]
    } else {
        seq![PresentStep::AllocateFence, PresentStep::ExecuteAndSignal]
    }
}

/// The present itself, and its publication.
pub open spec fn publish_part(work: PresentWork) -> Seq<PresentStep> {
    let immediate = work.present_mode is Immediate && work.allow_tearing;
    let present = PresentStep::Present {
        sync_interval: if immediate {
            0
        } else {
            1
        },
        flags: if immediate {
            super::surface::PRESENT_ALLOW_TEARING
        } else {
            0
        },
    };
    match work.completion {
        PresentCompletion::CudaEvent { event } => seq![
            present,
            PresentStep::WaitFenceOnPresentStream,
            PresentStep::RecordEvent { event },
            PresentStep::MarkRecorded { present_tv: work.present_tv },
            PresentStep::PollRetired,
        ],
        PresentCompletion::Dx12Fence => seq![
            present,
            PresentStep::MarkRecorded { present_tv: work.present_tv },
            PresentStep::PollRetired,
        ],
    }
}

/// The steps of a present, in order.
pub open spec fn present_steps(work: PresentWork) -> Seq<PresentStep> {
    wait_part(work) + record_part(work) + signal_part(work) + publish_part(work)
}

fn push_wait(work: &PresentWork, steps: &mut Vec<PresentStep>)
    ensures
        final(steps)@ == old(steps)@ + wait_part(*work),
{
    if let Some(submit_tv) = work.join_submit_tv {
        steps.push(PresentStep::JoinWorker { submit_tv });
    }
    if work.cuda_complete > 0 {
        steps.push(PresentStep::WaitQueue { value: work.cuda_complete });
    }
    assert(steps@ =~= old(steps)@ + wait_part(*work));
}

fn push_record(work: &PresentWork, steps: &mut Vec<PresentStep>)
    ensures
        final(steps)@ == old(steps)@ + record_part(*work),
{
    if !work.reuse_list {
        steps.push(PresentStep::ResetAllocator);
        steps.push(PresentStep::ResetList);
        steps.push(PresentStep::RecordCopy);
        steps.push(PresentStep::CloseList);
        steps.push(PresentStep::CountListRecord);
    }
    assert(steps@ =~= old(steps)@ + record_part(*work));
}

fn push_signal(work: &PresentWork, steps: &mut Vec<PresentStep>)
    ensures
        final(steps)@ == old(steps)@ + signal_part(*work),
{
    steps.push(PresentStep::AllocateFence);
    if let PresentCompletion::Dx12Fence = work.completion {
        steps.push(PresentStep::BindFence { present_tv: work.present_tv });
    }
    steps.push(PresentStep::ExecuteAndSignal);
    assert(steps@ =~= old(steps)@ + signal_part(*work));
}

fn push_publish(work: &PresentWork, steps: &mut Vec<PresentStep>)
    ensures
        final(steps)@ == old(steps)@ + publish_part(*work),
{
    let (sync_interval, flags) = present_args(work.present_mode, work.allow_tearing);
    steps.push(PresentStep::Present { sync_interval, flags });
    if let PresentCompletion::CudaEvent { event } = work.completion {
        steps.push(PresentStep::WaitFenceOnPresentStream);
        steps.push(PresentStep::RecordEvent { event });
    }
    steps.push(PresentStep::MarkRecorded { present_tv: work.present_tv });
    steps.push(PresentStep::PollRetired);
    assert(steps@ =~= old(steps)@ + publish_part(*work));
}

/// Plans the steps of a present.
pub fn plan_run(work: &PresentWork) -> (steps: Vec<PresentStep>)
    ensures
        steps@ == present_steps(*work),
{
    let mut steps: Vec<PresentStep> = Vec::new();
    push_wait(work, &mut steps);
    assert(steps@ =~= wait_part(*work));
    push_record(work, &mut steps);
    push_signal(work, &mut steps);
    push_publish(work, &mut steps);
    steps
}

/// The step comes, and every time before the copy is submitted, which happens once.
pub open spec fn before_the_copy(steps: Seq<PresentStep>, step: PresentStep) -> bool {
    exists|at: int|
        {
            &&& 0 <= at < steps.len()
            &&& #[trigger] steps[at] is ExecuteAndSignal
            &&& forall|j: int|
                0 <= j < steps.len() && #[trigger] steps[j] is ExecuteAndSignal ==> j == at
            &&& steps.take(at).contains(step)
        }
}

/// The worker has submitted the fence signal of CUDA, and the queue of the companion
/// waits for it, before the copy is submitted; and its fence value is taken only then.
pub proof fn present_is_ordered(work: PresentWork)
    ensures
        work.join_submit_tv matches Some(submit_tv) ==> before_the_copy(
            present_steps(work),
            PresentStep::JoinWorker { submit_tv },
        ),
        work.cuda_complete > 0 ==> before_the_copy(
            present_steps(work),
            PresentStep::WaitQueue { value: work.cuda_complete },
        ),
        before_the_copy(present_steps(work), PresentStep::AllocateFence),
{
    let steps = present_steps(work);
    let waited = wait_part(work);
    let recorded = record_part(work);
    let signaled = signal_part(work);
    let published = publish_part(work);
    let at = waited.len() + recorded.len() + signaled.len() - 1;
    let base = waited.len() + recorded.len();
    assert(steps[at] == signaled[signaled.len() - 1]);
    assert forall|j: int| 0 <= j < steps.len() && #[trigger] steps[j] is ExecuteAndSignal implies j
        == at by {
        if j < waited.len() {
            assert(steps[j] == waited[j]);
        } else if j < base {
            assert(steps[j] == recorded[j - waited.len()]);
        } else if j < base + signaled.len() {
            assert(steps[j] == signaled[j - base]);
        } else {
            assert(steps[j] == published[j - base - signaled.len()]);
        }
    }
    let early = steps.take(at);
    assert(early[base as int] == signaled[0]);
    if let Some(submit_tv) = work.join_submit_tv {
        assert(early[0] == waited[0]);
    }
    if work.cuda_complete > 0 {
        assert(early[waited.len() - 1] == waited[waited.len() - 1]);
    }
}

/// What a present that was submitted reports.
#[derive(Clone, Copy, Debug, PartialEq, Eq, Structural)]
pub struct PresentFinish {
    pub frame: FrameToken,
    pub return_fence: u64,
    pub present_timeline: u64,
    pub present_ok: bool,
}

/// A surface after a frame began: the next frame takes the next present slot.
pub open spec fn frame_begun(state: CudaSurfaceState, image: u32, texture: u64) -> CudaSurfaceState {
    CudaSurfaceState {
        current_image_index: Some(image),
        current_texture_handle: Some(texture),
        current_frame: ((state.current_frame + 1) % (state.scratch@.len() as int)) as usize,
        ..state
    }
}

/// A surface after a present was submitted: the copy guards the present slot and the
/// scratch, and an image that was shown has left its common state.
pub open spec fn present_finished(
    before: CudaSurfaceState,
    after: CudaSurfaceState,
    finish: PresentFinish,
) -> bool {
    let slot = finish.frame.present_slot as int;
    let image = finish.frame.image as int;
    &&& after.slot_fence@ == (if finish.return_fence > 0 {
        before.slot_fence@.update(slot, finish.return_fence)
    } else {
        before.slot_fence@
    })
    &&& after.scratch@ == (if finish.return_fence > 0 {
        before.scratch@.update(
            image,
            returned_slot(before.scratch@[image], finish.return_fence),
        )
    } else {
        before.scratch@
    })
    &&& after.backbuffer_in_common@ == (if finish.present_ok {
        before.backbuffer_in_common@.update(image, false)
    } else {
        before.backbuffer_in_common@
    })
    &&& after == (CudaSurfaceState {
        slot_fence: after.slot_fence,
        scratch: after.scratch,
        backbuffer_in_common: after.backbuffer_in_common,
        ..before
    })
}

/// The slot after its scratch was copied under a fence value.
pub open spec fn returned_slot(slot: Option<ScratchSlot>, fence: u64) -> Option<ScratchSlot> {
    match slot {
        Some(s) => Some(
            ScratchSlot { dx12_complete: fence, pending_scratch_reuse_fence: fence, ..s },
        ),
        None => None,
    }
}

impl CudaSurfaceState {
    /// The fence value to wait for before the next present slot is used; zero for none.
    pub fn slot_wait(&self) -> (fence: u64)
        requires
            self.wf(),
        ensures
            fence == max2(
                self.slot_fence@[self.current_frame as int],
                self.cmd_fence@[self.current_frame as int],
            ),
    {
        let own: u64 = self.slot_fence[self.current_frame];
        let cmd: u64 = self.cmd_fence[self.current_frame];
        if own >= cmd {
            own
        } else {
            cmd
        }
    }

    /// Takes in that the fence of the next present slot was waited for.
    pub fn slot_waited(&mut self)
        requires
            old(self).wf(),
        ensures
            final(self).wf(),
            final(self).slot_fence@ == old(self).slot_fence@.update(
                old(self).current_frame as int,
                0,
            ),
            *final(self) == (CudaSurfaceState { slot_fence: final(self).slot_fence, ..*old(self) }),
    {
        let slot: usize = self.current_frame;
        self.slot_fence.set(slot, 0);
    }

    /// What is done for the scratch of an image.
    pub fn scratch_decision(&self, image: usize) -> (decision: ScratchDecision)
        requires
            self.wf(),
            image < self.scratch@.len(),
        ensures
            decision == (match self.scratch@[image as int] {
                Some(slot) => if slot.shared.width == self.width && slot.shared.height
                    == self.height {
                    ScratchDecision::Reuse { texture: slot.texture_handle }
                } else {
                    ScratchDecision::Replace { texture: slot.texture_handle }
                },
                None => ScratchDecision::Create,
            }),
    {
        match self.scratch[image] {
            Some(slot) => if slot.shared.width == self.width && slot.shared.height == self.height {
                ScratchDecision::Reuse { texture: slot.texture_handle }
            } else {
                ScratchDecision::Replace { texture: slot.texture_handle }
            },
            None => ScratchDecision::Create,
        }
    }

    /// Puts the scratch of an image aside. Returns the fence value to wait for before
    /// pending scratch is looked at again; zero for none.
    pub fn replace_scratch(&mut self, image: usize) -> (retire_at: u64)
        requires
            old(self).wf(),
            image < old(self).scratch@.len(),
            old(self).scratch@[image as int] is Some,
        ensures
            final(self).wf(),
            retire_at == slot_high(old(self).scratch@[image as int]->Some_0),
            final(self).scratch@ == old(self).scratch@.update(image as int, None),
            final(self).pending_scratch@ == old(self).pending_scratch@.push(
                PendingScratchDrop { retire_at, slot: old(self).scratch@[image as int]->Some_0 },
            ),
            *final(self) == (CudaSurfaceState {
                scratch: final(self).scratch,
                pending_scratch: final(self).pending_scratch,
                ..*old(self)
            }),
    {
        let mut retire_at: u64 = 0;
        if let Some(slot) = self.scratch[image] {
            let source: u64 = present_source_fence(&slot.present_source);
            retire_at = if source >= slot.dx12_complete {
                source
            } else {
                slot.dx12_complete
            };
            self.pending_scratch.push(PendingScratchDrop { retire_at, slot });
        }
        self.scratch.set(image, None);
        retire_at
    }

    /// Puts newly made scratch in place. No recorded list is used again.
    pub fn install_scratch(&mut self, image: usize, shared: SharedScratch, texture_handle: u64)
        requires
            old(self).wf(),
            image < old(self).scratch@.len(),
        ensures
            final(self).wf(),
            final(self).scratch@ == old(self).scratch@.update(
                image as int,
                Some(fresh_slot(shared, texture_handle)),
            ),
            final(self).present_generation == ((old(self).present_generation + 1)
                % 0x1_0000_0000_0000_0000) as u64,
            forall|i: int|
                0 <= i < final(self).present_cache@.len() ==> #[trigger] final(self).present_cache@[i]
                    == no_list(),
            *final(self) == (CudaSurfaceState {
                scratch: final(self).scratch,
                present_generation: final(self).present_generation,
                present_cache: final(self).present_cache,
                ..*old(self)
            }),
    {
        self.scratch.set(
            image,
            Some(
                ScratchSlot {
                    shared,
                    texture_handle,
                    dx12_complete: 0,
                    present_source: None,
                    pending_scratch_reuse_fence: 0,
                },
            ),
        );
        self.forget_lists();
    }

    /// Hands out a frame for an image, and moves on to the next present slot.
    pub fn begin_frame(&mut self, surface: u64, context: u64, image: u32, texture: u64) -> (token:
        FrameToken)
        requires
            old(self).wf(),
        ensures
            final(self).wf(),
            token == (FrameToken {
                surface,
                image: image as usize,
                context,
                frame_slot: image,
                present_slot: old(self).current_frame,
            }),
            *final(self) == frame_begun(*old(self), image, texture),
    {
        let present_slot: usize = self.current_frame;
        self.current_image_index = Some(image);
        self.current_texture_handle = Some(texture);
        let count: usize = self.scratch.len();
        proof {
            if present_slot + 1 < count {
                vstd::arithmetic::div_mod::lemma_small_mod(
                    (present_slot + 1) as nat,
                    count as nat,
                );
            } else {
                vstd::arithmetic::div_mod::lemma_mod_self_0(count as int);
            }
        }
        self.current_frame = if present_slot < count - 1 {
            present_slot + 1
        } else {
            0
        };
        FrameToken {
            surface,
            image: image as usize,
            context,
            frame_slot: image,
            present_slot,
        }
    }

    /// Takes the present source of an image. The surface has no current texture any
    /// more.
    pub fn take_present_source(&mut self, image: usize) -> (source: Result<
        Option<PresentSource>,
        SurfaceError,
    >)
        requires
            old(self).wf(),
        ensures
            final(self).wf(),
            ({
                let there = image < old(self).scratch@.len() && old(self).scratch@[image as int]
                    is Some;
                let slot = old(self).scratch@[image as int]->Some_0;
                &&& source == (if there {
                    Ok(slot.present_source)
                } else {
                    Err(SurfaceError::NoScratch)
                })
                &&& final(self).scratch@ == (if there {
                    old(self).scratch@.update(
                        image as int,
                        Some(ScratchSlot { present_source: None, ..slot }),
                    )
                } else {
                    old(self).scratch@
                })
            }),
            *final(self) == (CudaSurfaceState {
                scratch: final(self).scratch,
                current_texture_handle: None,
                ..*old(self)
            }),
    {
        self.current_texture_handle = None;
        if image >= self.scratch.len() {
            return Err(SurfaceError::NoScratch);
        }
        match self.scratch[image] {
            Some(slot) => {
                self.scratch.set(image, Some(ScratchSlot { present_source: None, ..slot }));
                Ok(slot.present_source)
            },
            None => Err(SurfaceError::NoScratch),
        }
    }

    /// What the copy of a present is recorded for, and whether the list of the present
    /// slot can be used again.
    pub fn present_list(&self, image: usize, slot: usize, source: &Option<PresentSource>) -> (list:
        PresentList)
        requires
            self.wf(),
            image < self.scratch@.len(),
            slot < self.scratch@.len(),
            self.scratch@[image as int] is Some,
        ensures
            list.entry == present_entry_of(*self, image as int, slot as int, *source),
            list.reuse == list_matches(self.present_cache@[slot as int], list.entry),
    {
        let shared = match self.scratch[image] {
            Some(s) => s.shared,
            None => SharedScratch { id: 0, width: 0, height: 0, resource: 0, blit_target: 0 },
        };
        let (color_src, color_src_state, color_src_format) = match source {
            Some(PresentSource::Dx12Raster { resource, fence, format }) => (
                *resource,
                PresentColorSrcState::Common,
                *format,
            ),
            _ => (
                shared.resource,
                PresentColorSrcState::UnorderedAccess,
                TextureFormat::Rgba32Float,
            ),
        };
        let entry = PresentListCache {
            generation: self.present_generation,
            slot_generation: self.cmd_generation[slot],
            color_src,
            color_src_state: Some(color_src_state),
            color_src_format: Some(color_src_format),
            blit_target: shared.blit_target,
            backbuffer: self.backbuffers[image],
            image_index: image,
            width: shared.width,
            height: shared.height,
            backbuffer_from_common: self.backbuffer_in_common[image],
            recorded: true,
        };
        let prior = self.present_cache[slot];
        let reuse = prior == entry && prior.slot_generation != 0;
        PresentList { entry, reuse }
    }

    /// Takes in that the list of a present slot is recorded anew. Returns what it is
    /// recorded for, with its new generation.
    pub fn begin_recording(&mut self, slot: usize, entry: &PresentListCache) -> (updated:
        PresentListCache)
        requires
            old(self).wf(),
            slot < old(self).scratch@.len(),
        ensures
            final(self).wf(),
            ({
                let next = ((old(self).cmd_generation@[slot as int] + 1)
                    % 0x1_0000_0000_0000_0000) as u64;
                &&& final(self).cmd_generation@ == old(self).cmd_generation@.update(
                    slot as int,
                    next,
                )
                &&& updated == (PresentListCache { slot_generation: next, ..*entry })
            }),
            *final(self) == (CudaSurfaceState {
                cmd_generation: final(self).cmd_generation,
                ..*old(self)
            }),
    {
        let next: u64 = self.cmd_generation[slot].wrapping_add(1);
        self.cmd_generation.set(slot, next);
        PresentListCache { slot_generation: next, ..*entry }
    }

    /// Takes in that the copy of a present was submitted. `recorded` is what its list
    /// was recorded for, `None` where a list was used again.
    pub fn note_submitted(&mut self, slot: usize, fence: u64, recorded: &Option<PresentListCache>)
        requires
            old(self).wf(),
            slot < old(self).scratch@.len(),
        ensures
            final(self).wf(),
            final(self).cmd_fence@ == old(self).cmd_fence@.update(slot as int, fence),
            final(self).present_cache@ == (match *recorded {
                Some(entry) => old(self).present_cache@.update(slot as int, entry),
                None => old(self).present_cache@,
            }),
            *final(self) == (CudaSurfaceState {
                cmd_fence: final(self).cmd_fence,
                present_cache: final(self).present_cache,
                ..*old(self)
            }),
    {
        self.cmd_fence.set(slot, fence);
        if let Some(entry) = recorded {
            self.present_cache.set(slot, *entry);
        }
    }

    /// Takes in that a present was submitted, and tells its timeline value. A present
    /// that failed after its copy is an error; the copy still guards reuse.
    pub fn finish_present(&mut self, finish: &PresentFinish) -> (result: Result<u64, SurfaceError>)
        requires
            old(self).wf(),
            finish.frame.present_slot < old(self).scratch@.len(),
            finish.frame.image < old(self).scratch@.len(),
        ensures
            final(self).wf(),
            result == (if finish.present_ok {
                Ok(finish.present_timeline)
            } else {
                Err(SurfaceError::PresentFailed { return_fence: finish.return_fence })
            }),
            present_finished(*old(self), *final(self), *finish),
    {
        let slot: usize = finish.frame.present_slot;
        let image: usize = finish.frame.image;
        let fence: u64 = finish.return_fence;
        if fence > 0 {
            self.slot_fence.set(slot, fence);
            let updated = match self.scratch[image] {
                Some(s) => Some(
                    ScratchSlot { dx12_complete: fence, pending_scratch_reuse_fence: fence, ..s },
                ),
                None => None,
            };
            self.scratch.set(image, updated);
        }
        if finish.present_ok {
            self.backbuffer_in_common.set(image, false);
            Ok(finish.present_timeline)
        } else {
            Err(SurfaceError::PresentFailed { return_fence: fence })
        }
    }
}

/// After the lists were forgotten, as by a resize or new scratch, no present uses a
/// list again.
pub proof fn forgotten_lists_are_not_reused(
    state: CudaSurfaceState,
    image: int,
    slot: int,
    source: Option<PresentSource>,
)
    requires
        state.wf(),
        0 <= slot < state.present_cache@.len(),
        state.present_cache@[slot] == no_list(),
    ensures
        !list_matches(state.present_cache@[slot], present_entry_of(state, image, slot, source)),
{
}

/// A list that was recorded and submitted is used again by a present that is the same.
pub proof fn recorded_list_is_reused(
    state: CudaSurfaceState,
    image: int,
    slot: int,
    source: Option<PresentSource>,
)
    requires
        state.wf(),
        0 <= slot < state.present_cache@.len(),
        state.present_cache@[slot] == present_entry_of(state, image, slot, source),
        state.cmd_generation@[slot] != 0,
    ensures
        list_matches(state.present_cache@[slot], present_entry_of(state, image, slot, source)),
{
}

/// A present that was published can be waited for on its context.
pub proof fn published_present_can_be_waited_for(
    ledger: Map<u64, LedgerEntry>,
    retired: u64,
    present_tv: u64,
    completion: PresentCompletion,
    companion: u64,
    context: u64,
)
    ensures
        super::timeline::wait_outcome(
            ledger.insert(present_tv, present_entry(completion, companion, context)),
            retired,
            context,
            present_tv,
        ) is Pending,
{
}

} // verus!
