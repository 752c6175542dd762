//! Surfaces: their scratch textures, resizing, and what has to be waited for.

use vstd::prelude::*;

use super::texture::TextureFormat;
use crate::text::{decimal, push_decimal};

verus! {

broadcast use vstd::std_specs::hash::group_hash_axioms;

/// Format in which compute shaders see a surface.
pub const SURFACE_COMPUTE_FORMAT: TextureFormat = TextureFormat::Rgba32Float;

/// Scratch textures that a surface keeps for reuse.
pub const SCRATCH_POOL_CAP: usize = 4;

/// When presented images appear.
#[derive(Clone, Copy, Debug, PartialEq, Eq, Structural)]
pub enum PresentMode {
    Fifo,
    Mailbox,
    Immediate,
    Auto,
}

/// Present flag that lets an image appear at once.
pub const PRESENT_ALLOW_TEARING: u32 = 0x200;

/// What is presented.
#[derive(Clone, Copy, Debug, PartialEq, Eq, Structural)]
pub enum PresentSource {
    /// Scratch that CUDA wrote; the fence value tells when it is done.
    CudaScratch { cuda_complete: u64 },
    /// A render target of the companion.
    Dx12Raster { resource: u64, fence: u64, format: TextureFormat },
}

/// A scratch texture that both devices see.
#[derive(Clone, Copy, Debug, PartialEq, Eq, Structural)]
pub struct SharedScratch {
    pub id: u64,
    pub width: u32,
    pub height: u32,
    pub resource: u64,
    pub blit_target: u64,
}

/// The scratch of one image of a swapchain.
#[derive(Clone, Copy, Debug, PartialEq, Eq, Structural)]
pub struct ScratchSlot {
    pub shared: SharedScratch,
    pub texture_handle: u64,
    /// Fence value after the companion has copied it.
    pub dx12_complete: u64,
    pub present_source: Option<PresentSource>,
    /// Fence value that the next writer waits for.
    pub pending_scratch_reuse_fence: u64,
}

/// Scratch that was taken out of use and may still be read.
#[derive(Clone, Copy, Debug, PartialEq, Eq, Structural)]
pub struct PendingScratchDrop {
    pub retire_at: u64,
    pub slot: ScratchSlot,
}

/// In which state a present copy finds its source.
#[derive(Clone, Copy, Debug, PartialEq, Eq, Structural)]
pub enum PresentColorSrcState {
    Common,
    UnorderedAccess,
}

/// What a recorded present list was recorded for.
#[derive(Clone, Copy, Debug, PartialEq, Eq, Structural)]
pub struct PresentListCache {
    pub generation: u64,
    pub slot_generation: u64,
    pub color_src: u64,
    pub color_src_state: Option<PresentColorSrcState>,
    pub color_src_format: Option<TextureFormat>,
    pub blit_target: u64,
    pub backbuffer: u64,
    pub image_index: usize,
    pub width: u32,
    pub height: u32,
    pub backbuffer_from_common: bool,
    pub recorded: bool,
}

/// No list recorded.
pub open spec fn no_list() -> PresentListCache {
    PresentListCache {
        generation: 0,
        slot_generation: 0,
        color_src: 0,
        color_src_state: None,
        color_src_format: None,
        blit_target: 0,
        backbuffer: 0,
        image_index: 0,
        width: 0,
        height: 0,
        backbuffer_from_common: false,
        recorded: false,
    }
}

impl Default for PresentListCache {
    fn default() -> (cache: Self)
        ensures
            cache == no_list(),
    {
        PresentListCache {
            generation: 0,
            slot_generation: 0,
            color_src: 0,
            color_src_state: None,
            color_src_format: None,
            blit_target: 0,
            backbuffer: 0,
            image_index: 0,
            width: 0,
            height: 0,
            backbuffer_from_common: false,
            recorded: false,
        }
    }
}

/// A surface. Images, present slots and what belongs to them are as many as the
/// swapchain has buffers.
pub struct CudaSurfaceState {
    pub device: u64,
    pub width: u32,
    pub height: u32,
    pub present_mode: PresentMode,
    /// A depth texture was asked for.
    pub depth: bool,
    pub dsv_offset: Option<u32>,
    pub backbuffers: Vec<u64>,
    /// Next present slot.
    pub current_frame: usize,
    pub current_image_index: Option<u32>,
    pub current_texture_handle: Option<u64>,
    /// Scratch by image.
    pub scratch: Vec<Option<ScratchSlot>>,
    /// Fence value that guards each present slot.
    pub slot_fence: Vec<u64>,
    /// Fence value and generation of the command list of each present slot.
    pub cmd_fence: Vec<u64>,
    pub cmd_generation: Vec<u64>,
    /// The image has not been presented since the swapchain was made or resized.
    pub backbuffer_in_common: Vec<bool>,
    pub present_generation: u64,
    pub present_cache: Vec<PresentListCache>,
    pub pending_scratch: Vec<PendingScratchDrop>,
    pub scratch_pool: Vec<SharedScratch>,
}

/// Why a request on a surface is refused.
#[derive(Clone, Copy, Debug, PartialEq, Eq, Structural)]
pub enum SurfaceError {
    InvalidSurface,
    NotAWin32Window,
    InvalidDevice,
    InvalidContext { context: u64 },
    CompanionMissing,
    /// The surface, the device or the companion of a present is not there.
    PresentWithoutSurface,
    PresentWithoutDevice,
    PresentWithoutCompanion,
    NoScratch,
    /// The submission has no completion event on its context.
    NoCompletionEvent { submit_tv: u64, context: u64 },
    SubmitOnOtherContext { submit_tv: u64, owner: u64, context: u64 },
    SubmitIsFence { submit_tv: u64 },
    PresentFailed { return_fence: u64 },
    EventCreateFailed,
}

impl SurfaceError {
    /// What the error is reported as.
    pub open spec fn words(self) -> Seq<char> {
        match self {
            SurfaceError::InvalidSurface => "CUDA/DX12: invalid surface"@,
            SurfaceError::NotAWin32Window => "CUDA/DX12: expected Win32 window handle"@,
            SurfaceError::InvalidDevice => "CUDA: invalid device"@,
            SurfaceError::InvalidContext { .. } => "CUDA: invalid context"@,
            SurfaceError::CompanionMissing => "CUDA: DX12 companion not available (requires cuda+graphics+dx12 on Windows)"@,
            SurfaceError::PresentWithoutSurface => "invalid surface"@,
            SurfaceError::PresentWithoutDevice => "invalid device"@,
            SurfaceError::PresentWithoutCompanion => "CUDA device missing DX12 companion"@,
            SurfaceError::NoScratch => "no scratch for present"@,
            SurfaceError::NoCompletionEvent { submit_tv, context } => "CUDA/DX12: present submit_tv "@
                + decimal(submit_tv as nat) + " has no completion event on context "@ + decimal(
                context as nat,
            ),
            SurfaceError::SubmitOnOtherContext { submit_tv, owner, context } => "CUDA/DX12: present submit_tv "@
                + decimal(submit_tv as nat) + " belongs to context "@ + decimal(owner as nat)
                + ", not "@ + decimal(context as nat),
            SurfaceError::SubmitIsFence { submit_tv } => "CUDA/DX12: present submit_tv "@ + decimal(
                submit_tv as nat,
            ) + " is a DX12 fence entry, not a CUDA event"@,
            SurfaceError::PresentFailed { return_fence } => "CUDA/DX12: Present failed after copy submit (return_fence "@
                + decimal(return_fence as nat)
                + " recorded for reuse; see prior 'CUDA/DX12: Present failed' log for HRESULT)"@,
            SurfaceError::EventCreateFailed => "CUDA/DX12: create present completion event failed"@,
        }
    }

    /// The message of the error.
    pub fn message(&self) -> (text: String)
        ensures
            text@ == self.words(),
    {
        let mut text: String = String::new();
        match *self {
            SurfaceError::InvalidSurface => {
                text.append("CUDA/DX12: invalid surface");
            },
            SurfaceError::NotAWin32Window => {
                text.append("CUDA/DX12: expected Win32 window handle");
            },
            SurfaceError::InvalidDevice => {
                text.append("CUDA: invalid device");
            },
            SurfaceError::InvalidContext { .. } => {
                text.append("CUDA: invalid context");
            },
            SurfaceError::CompanionMissing => {
                text.append(
                    "CUDA: DX12 companion not available (requires cuda+graphics+dx12 on Windows)",
                );
            },
            SurfaceError::PresentWithoutSurface => {
                text.append("invalid surface");
            },
            SurfaceError::PresentWithoutDevice => {
                text.append("invalid device");
            },
            SurfaceError::PresentWithoutCompanion => {
                text.append("CUDA device missing DX12 companion");
            },
            SurfaceError::NoScratch => {
                text.append("no scratch for present");
            },
            SurfaceError::NoCompletionEvent { submit_tv, context } => {
                text.append("CUDA/DX12: present submit_tv ");
                push_decimal(&mut text, submit_tv);
                text.append(" has no completion event on context ");
                push_decimal(&mut text, context);
            },
            SurfaceError::SubmitOnOtherContext { submit_tv, owner, context } => {
                text.append("CUDA/DX12: present submit_tv ");
                push_decimal(&mut text, submit_tv);
                text.append(" belongs to context ");
                push_decimal(&mut text, owner);
                text.append(", not ");
                push_decimal(&mut text, context);
            },
            SurfaceError::SubmitIsFence { submit_tv } => {
                text.append("CUDA/DX12: present submit_tv ");
                push_decimal(&mut text, submit_tv);
                text.append(" is a DX12 fence entry, not a CUDA event");
            },
            SurfaceError::PresentFailed { return_fence } => {
                text.append("CUDA/DX12: Present failed after copy submit (return_fence ");
                push_decimal(&mut text, return_fence);
                text.append(
                    " recorded for reuse; see prior 'CUDA/DX12: Present failed' log for HRESULT)",
                );
            },
            SurfaceError::EventCreateFailed => {
                text.append("CUDA/DX12: create present completion event failed");
            },
        }
        assert(text@ =~= self.words());
        text
    }
}

/// The size of a window: at least one pixel each way.
pub fn client_size(left: i32, top: i32, right: i32, bottom: i32) -> (size: (u32, u32))
    requires
        i32::MIN <= right - left <= i32::MAX,
        i32::MIN <= bottom - top <= i32::MAX,
    ensures
        size.0 == (if right - left >= 1 {
            right - left
        } else {
            1
        }),
        size.1 == (if bottom - top >= 1 {
            bottom - top
        } else {
            1
        }),
{
    let width: i32 = if right - left >= 1 {
        right - left
    } else {
        1
    };
    let height: i32 = if bottom - top >= 1 {
        bottom - top
    } else {
        1
    };
    (width as u32, height as u32)
}

/// Sync interval and flags of a present.
pub fn present_args(mode: PresentMode, allow_tearing: bool) -> (args: (u32, u32))
    ensures
        args == (if mode is Immediate && allow_tearing {
            (0u32, PRESENT_ALLOW_TEARING)
        } else {
            (1u32, 0u32)
        }),
{
    match mode {
        PresentMode::Fifo | PresentMode::Mailbox | PresentMode::Auto => (1, 0),
        PresentMode::Immediate => if allow_tearing {
            (0, PRESENT_ALLOW_TEARING)
        } else {
            (1, 0)
        },
    }
}

/// The fence value of a present source; zero for none.
pub open spec fn source_fence(source: Option<PresentSource>) -> u64 {
    match source {
        Some(PresentSource::CudaScratch { cuda_complete }) => cuda_complete,
        Some(PresentSource::Dx12Raster { resource, fence, format }) => fence,
        None => 0,
    }
}

/// The fence value of a present source; zero for none.
pub fn present_source_fence(source: &Option<PresentSource>) -> (fence: u64)
    ensures
        fence == source_fence(*source),
{
    match source {
        Some(PresentSource::CudaScratch { cuda_complete }) => *cuda_complete,
        Some(PresentSource::Dx12Raster { resource, fence, format }) => *fence,
        None => 0,
    }
}

/// The larger of two fence values.
pub open spec fn max2(a: u64, b: u64) -> u64 {
    if a >= b {
        a
    } else {
        b
    }
}

fn larger_of(a: u64, b: u64) -> (m: u64)
    ensures
        m == max2(a, b),
{
    if a >= b {
        a
    } else {
        b
    }
}

/// The largest of fence values, zero for none.
pub open spec fn max_of(values: Seq<u64>) -> u64
    decreases values.len(),
{
    if values.len() == 0 {
        0
    } else {
        max2(max_of(values.drop_last()), values.last())
    }
}

/// The last use of the scratch of a slot.
pub open spec fn slot_high(slot: ScratchSlot) -> u64 {
    max2(source_fence(slot.present_source), slot.dx12_complete)
}

/// The last uses of live scratch.
pub open spec fn scratch_fences(scratch: Seq<Option<ScratchSlot>>) -> Seq<u64> {
    scratch.map_values(
        |s: Option<ScratchSlot>|
            match s {
                Some(slot) => slot_high(slot),
                None => 0,
            },
    )
}

/// When pending scratch retires.
pub open spec fn pending_fences(pending: Seq<PendingScratchDrop>) -> Seq<u64> {
    pending.map_values(|p: PendingScratchDrop| p.retire_at)
}

/// The largest fence value that anything of a surface depends on.
pub open spec fn fence_high(state: CudaSurfaceState) -> u64 {
    max2(
        max2(max_of(state.slot_fence@), max_of(scratch_fences(state.scratch@))),
        max_of(pending_fences(state.pending_scratch@)),
    )
}

/// The largest of fence values is at least each of them.
pub proof fn max_of_bounds(values: Seq<u64>, i: int)
    requires
        0 <= i < values.len(),
    ensures
        values[i] <= max_of(values),
    decreases values.len(),
{
    if i < values.len() - 1 {
        max_of_bounds(values.drop_last(), i);
    }
}

/// Live scratch in the order of its images.
pub open spec fn live(scratch: Seq<Option<ScratchSlot>>) -> Seq<ScratchSlot>
    decreases scratch.len(),
{
    if scratch.len() == 0 {
        Seq::empty()
    } else {
        match scratch.last() {
            Some(slot) => live(scratch.drop_last()).push(slot),
            None => live(scratch.drop_last()),
        }
    }
}

/// Scratch put aside until its last use, and `high`, have passed.
pub open spec fn parked(slots: Seq<ScratchSlot>, high: u64) -> Seq<PendingScratchDrop> {
    slots.map_values(
        |slot: ScratchSlot|
            PendingScratchDrop { retire_at: max2(high, slot_high(slot)), slot },
    )
}

/// The pending scratch may be used again or dropped.
pub open spec fn may_retire(pending: PendingScratchDrop, completed: u64) -> bool {
    pending.retire_at == 0 || pending.retire_at <= completed
}

/// The pool after it took in a scratch texture: where it is full the one taken in last
/// makes room.
pub open spec fn pooled(pool: Seq<SharedScratch>, shared: SharedScratch) -> Seq<SharedScratch> {
    if pool.len() < SCRATCH_POOL_CAP {
        pool.push(shared)
    } else {
        pool.drop_last().push(shared)
    }
}

/// The pool after it took in the scratch of what may retire.
pub open spec fn pooled_all(
    pool: Seq<SharedScratch>,
    pending: Seq<PendingScratchDrop>,
    completed: u64,
) -> Seq<SharedScratch>
    decreases pending.len(),
{
    if pending.len() == 0 {
        pool
    } else {
        let before = pooled_all(pool, pending.drop_last(), completed);
        if may_retire(pending.last(), completed) {
            pooled(before, pending.last().slot.shared)
        } else {
            before
        }
    }
}

impl CudaSurfaceState {
    /// Everything that there is per image or per present slot is there as often as the
    /// swapchain has buffers.
    pub open spec fn wf(self) -> bool {
        let n = self.scratch@.len();
        &&& 0 < n
        &&& self.current_frame < n
        &&& self.backbuffers@.len() == n
        &&& self.slot_fence@.len() == n
        &&& self.cmd_fence@.len() == n
        &&& self.cmd_generation@.len() == n
        &&& self.backbuffer_in_common@.len() == n
        &&& self.present_cache@.len() == n
    }

    /// A surface whose swapchain was just made.
    pub fn new(
        device: u64,
        width: u32,
        height: u32,
        depth: bool,
        dsv_offset: Option<u32>,
        backbuffers: Vec<u64>,
    ) -> (state: Self)
        requires
            backbuffers@.len() > 0,
        ensures
            state.wf(),
            state.device == device,
            state.width == width,
            state.height == height,
            state.present_mode is Fifo,
            state.depth == depth,
            state.dsv_offset == dsv_offset,
            state.backbuffers == backbuffers,
            state.current_frame == 0,
            state.current_image_index is None,
            state.current_texture_handle is None,
            forall|i: int| 0 <= i < backbuffers@.len() ==> #[trigger] state.scratch@[i] is None,
            forall|i: int| 0 <= i < backbuffers@.len() ==> #[trigger] state.slot_fence@[i] == 0,
            forall|i: int| 0 <= i < backbuffers@.len() ==> #[trigger] state.cmd_fence@[i] == 0,
            forall|i: int| 0 <= i < backbuffers@.len() ==> #[trigger] state.cmd_generation@[i] == 0,
            forall|i: int|
                0 <= i < backbuffers@.len() ==> #[trigger] state.backbuffer_in_common@[i],
            forall|i: int|
                0 <= i < backbuffers@.len() ==> #[trigger] state.present_cache@[i] == no_list(),
            state.present_generation == 1,
            state.pending_scratch@ == Seq::<PendingScratchDrop>::empty(),
            state.scratch_pool@ == Seq::<SharedScratch>::empty(),
    {
        let n: usize = backbuffers.len();
        let mut scratch: Vec<Option<ScratchSlot>> = Vec::new();
        let mut slot_fence: Vec<u64> = Vec::new();
        let mut cmd_fence: Vec<u64> = Vec::new();
        let mut cmd_generation: Vec<u64> = Vec::new();
        let mut backbuffer_in_common: Vec<bool> = Vec::new();
        let mut present_cache: Vec<PresentListCache> = Vec::new();
        let mut i: usize = 0;
        while i < n
            invariant
                i <= n,
                scratch@.len() == i,
                slot_fence@.len() == i,
                cmd_fence@.len() == i,
                cmd_generation@.len() == i,
                backbuffer_in_common@.len() == i,
                present_cache@.len() == i,
                forall|j: int| 0 <= j < i ==> #[trigger] scratch@[j] is None,
                forall|j: int| 0 <= j < i ==> #[trigger] slot_fence@[j] == 0,
                forall|j: int| 0 <= j < i ==> #[trigger] cmd_fence@[j] == 0,
                forall|j: int| 0 <= j < i ==> #[trigger] cmd_generation@[j] == 0,
                forall|j: int| 0 <= j < i ==> #[trigger] backbuffer_in_common@[j],
                forall|j: int| 0 <= j < i ==> #[trigger] present_cache@[j] == no_list(),
            decreases n - i,
        {
            scratch.push(None);
            slot_fence.push(0);
            cmd_fence.push(0);
            cmd_generation.push(0);
            backbuffer_in_common.push(true);
            present_cache.push(PresentListCache::default());
            i += 1;
        }
        CudaSurfaceState {
            device,
            width,
            height,
            present_mode: PresentMode::Fifo,
            depth,
            dsv_offset,
            backbuffers,
            current_frame: 0,
            current_image_index: None,
            current_texture_handle: None,
            scratch,
            slot_fence,
            cmd_fence,
            cmd_generation,
            backbuffer_in_common,
            present_generation: 1,
            present_cache,
            pending_scratch: Vec::new(),
            scratch_pool: Vec::new(),
        }
    }

    /// The largest fence value that anything of the surface depends on.
    pub fn fence_high_water(&self) -> (high: u64)
        ensures
            high == fence_high(*self),
    {
        let mut slots: u64 = 0;
        let mut i: usize = 0;
        while i < self.slot_fence.len()
            invariant
                i <= self.slot_fence.len(),
                slots == max_of(self.slot_fence@.take(i as int)),
            decreases self.slot_fence.len() - i,
        {
            assert(self.slot_fence@.take(i + 1).drop_last() =~= self.slot_fence@.take(i as int));
            slots = larger_of(slots, self.slot_fence[i]);
            i += 1;
        }
        assert(self.slot_fence@.take(i as int) =~= self.slot_fence@);
        let mut scratch: u64 = 0;
        let ghost all = scratch_fences(self.scratch@);
        i = 0;
        while i < self.scratch.len()
            invariant
                i <= self.scratch.len(),
                all == scratch_fences(self.scratch@),
                scratch == max_of(all.take(i as int)),
            decreases self.scratch.len() - i,
        {
            assert(all.take(i + 1).drop_last() =~= all.take(i as int));
            assert(all.take(i + 1).last() == all[i as int]);
            match &self.scratch[i] {
                Some(slot) => {
                    let last: u64 = larger_of(
                        present_source_fence(&slot.present_source),
                        slot.dx12_complete,
                    );
                    scratch = larger_of(scratch, last);
                },
                None => {},
            }
            i += 1;
        }
        assert(all.take(i as int) =~= all);
        let mut pending: u64 = 0;
        let ghost waits = pending_fences(self.pending_scratch@);
        i = 0;
        while i < self.pending_scratch.len()
            invariant
                i <= self.pending_scratch.len(),
                waits == pending_fences(self.pending_scratch@),
                pending == max_of(waits.take(i as int)),
            decreases self.pending_scratch.len() - i,
        {
            assert(waits.take(i + 1).drop_last() =~= waits.take(i as int));
            assert(waits.take(i + 1).last() == waits[i as int]);
            pending = larger_of(pending, self.pending_scratch[i].retire_at);
            i += 1;
        }
        assert(waits.take(i as int) =~= waits);
        larger_of(larger_of(slots, scratch), pending)
    }

    /// Whether a resize to this size has anything to do: a size of zero is left alone.
    pub fn needs_resize(&self, width: u32, height: u32) -> (needs: bool)
        ensures
            needs == (width != 0 && height != 0 && !(self.width == width && self.height == height)),
    {
        width != 0 && height != 0 && !(self.width == width && self.height == height)
    }

    /// Takes the live scratch out of its slots, in the order of the images.
    pub fn take_scratch(&mut self) -> (taken: Vec<ScratchSlot>)
        requires
            old(self).wf(),
        ensures
            final(self).wf(),
            taken@ == live(old(self).scratch@),
            forall|i: int|
                0 <= i < final(self).scratch@.len() ==> #[trigger] final(self).scratch@[i] is None,
            *final(self) == (CudaSurfaceState { scratch: final(self).scratch, ..*old(self) }),
            final(self).scratch@.len() == old(self).scratch@.len(),
    {
        let mut taken: Vec<ScratchSlot> = Vec::new();
        let ghost all = self.scratch@;
        let n: usize = self.scratch.len();
        let mut i: usize = 0;
        while i < n
            invariant
                i <= n,
                n == all.len(),
                self.scratch@.len() == n,
                *self == (CudaSurfaceState { scratch: self.scratch, ..*old(self) }),
                taken@ == live(all.take(i as int)),
                forall|j: int| 0 <= j < i ==> #[trigger] self.scratch@[j] is None,
                forall|j: int| i <= j < n ==> #[trigger] self.scratch@[j] == all[j],
            decreases n - i,
        {
            assert(all.take(i + 1).drop_last() =~= all.take(i as int));
            match self.scratch[i] {
                Some(slot) => {
                    taken.push(slot);
                },
                None => {},
            }
            self.scratch.set(i, None);
            i += 1;
        }
        assert(all.take(i as int) =~= all);
        taken
    }

    /// Puts scratch aside until its last use, and `high`, have passed.
    pub fn park(&mut self, slots: &Vec<ScratchSlot>, high: u64)
        ensures
            final(self).pending_scratch@ == old(self).pending_scratch@ + parked(slots@, high),
            *final(self) == (CudaSurfaceState {
                pending_scratch: final(self).pending_scratch,
                ..*old(self)
            }),
    {
        let mut i: usize = 0;
        assert(self.pending_scratch@ =~= old(self).pending_scratch@ + parked(
            slots@.take(0),
            high,
        ));
        while i < slots.len()
            invariant
                i <= slots.len(),
                self.pending_scratch@ == old(self).pending_scratch@ + parked(
                    slots@.take(i as int),
                    high,
                ),
                *self == (CudaSurfaceState {
                    pending_scratch: self.pending_scratch,
                    ..*old(self)
                }),
            decreases slots.len() - i,
        {
            let slot = slots[i];
            let last: u64 = larger_of(present_source_fence(&slot.present_source), slot.dx12_complete);
            self.pending_scratch.push(
                PendingScratchDrop { retire_at: larger_of(high, last), slot },
            );
            assert(self.pending_scratch@ =~= old(self).pending_scratch@ + parked(
                slots@.take(i + 1),
                high,
            ));
            i += 1;
        }
        assert(slots@.take(i as int) =~= slots@);
    }

    /// Forgets what every present list was recorded for.
    pub(crate) fn forget_lists(&mut self)
        requires
            old(self).wf(),
        ensures
            final(self).wf(),
            final(self).present_generation == ((old(self).present_generation + 1)
                % 0x1_0000_0000_0000_0000) as u64,
            forall|i: int|
                0 <= i < final(self).present_cache@.len() ==> #[trigger] final(self).present_cache@[i] == no_list(),
            *final(self) == (CudaSurfaceState {
                present_generation: final(self).present_generation,
                present_cache: final(self).present_cache,
                ..*old(self)
            }),
    {
        self.present_generation = self.present_generation.wrapping_add(1);
        let n: usize = self.present_cache.len();
        let mut i: usize = 0;
        while i < n
            invariant
                i <= n,
                self.present_cache@.len() == n,
                n == old(self).present_cache@.len(),
                forall|j: int| 0 <= j < i ==> #[trigger] self.present_cache@[j] == no_list(),
                *self == (CudaSurfaceState {
                    present_generation: self.present_generation,
                    present_cache: self.present_cache,
                    ..*old(self)
                }),
                self.present_generation == ((old(self).present_generation + 1)
                    % 0x1_0000_0000_0000_0000) as u64,
            decreases n - i,
        {
            self.present_cache.set(i, PresentListCache::default());
            i += 1;
        }
    }

    /// Takes in the new buffers of a resized swapchain. No recorded list is used again.
    pub fn finish_resize(
        &mut self,
        width: u32,
        height: u32,
        backbuffers: Vec<u64>,
        dsv_offset: Option<u32>,
    )
        requires
            old(self).wf(),
            backbuffers@.len() == old(self).backbuffers@.len(),
        ensures
            final(self).wf(),
            final(self).width == width,
            final(self).height == height,
            final(self).backbuffers == backbuffers,
            final(self).dsv_offset == dsv_offset,
            final(self).current_texture_handle is None,
            final(self).current_image_index is None,
            forall|i: int|
                0 <= i < backbuffers@.len() ==> #[trigger] final(self).slot_fence@[i] == 0,
            forall|i: int|
                0 <= i < backbuffers@.len() ==> #[trigger] final(self).backbuffer_in_common@[i],
            forall|i: int|
                0 <= i < backbuffers@.len() ==> #[trigger] final(self).present_cache@[i]
                    == no_list(),
            final(self).present_generation == ((old(self).present_generation + 1)
                % 0x1_0000_0000_0000_0000) as u64,
            *final(self) == (CudaSurfaceState {
                width,
                height,
                backbuffers,
                dsv_offset,
                current_texture_handle: None,
                current_image_index: None,
                slot_fence: final(self).slot_fence,
                backbuffer_in_common: final(self).backbuffer_in_common,
                present_cache: final(self).present_cache,
                present_generation: final(self).present_generation,
                ..*old(self)
            }),
    {
        self.forget_lists();
        let n: usize = self.slot_fence.len();
        let ghost mid = *self;
        let mut i: usize = 0;
        while i < n
            invariant
                i <= n,
                n == mid.slot_fence@.len(),
                n == mid.backbuffer_in_common@.len(),
                self.slot_fence@.len() == n,
                self.backbuffer_in_common@.len() == n,
                forall|j: int| 0 <= j < i ==> #[trigger] self.slot_fence@[j] == 0,
                forall|j: int| 0 <= j < i ==> #[trigger] self.backbuffer_in_common@[j],
                *self == (CudaSurfaceState {
                    slot_fence: self.slot_fence,
                    backbuffer_in_common: self.backbuffer_in_common,
                    ..mid
                }),
            decreases n - i,
        {
            self.slot_fence.set(i, 0);
            self.backbuffer_in_common.set(i, true);
            i += 1;
        }
        self.width = width;
        self.height = height;
        self.backbuffers = backbuffers;
        self.dsv_offset = dsv_offset;
        self.current_texture_handle = None;
        self.current_image_index = None;
    }

    /// Moves scratch whose last use has passed to the pool.
    pub fn drain_pending_scratch(&mut self, completed: u64)
        ensures
            final(self).pending_scratch@ == old(self).pending_scratch@.filter(
                |p: PendingScratchDrop| !may_retire(p, completed),
            ),
            final(self).scratch_pool@ == pooled_all(
                old(self).scratch_pool@,
                old(self).pending_scratch@,
                completed,
            ),
            *final(self) == (CudaSurfaceState {
                pending_scratch: final(self).pending_scratch,
                scratch_pool: final(self).scratch_pool,
                ..*old(self)
            }),
    {
        let ghost all = self.pending_scratch@;
        let ghost pool = self.scratch_pool@;
        let ghost keep = |p: PendingScratchDrop| !may_retire(p, completed);
        let mut still: Vec<PendingScratchDrop> = Vec::new();
        let mut i: usize = 0;
        proof {
            reveal(Seq::filter);
        }
        while i < self.pending_scratch.len()
            invariant
                i <= self.pending_scratch@.len(),
                self.pending_scratch@ == all,
                keep == (|p: PendingScratchDrop| !may_retire(p, completed)),
                still@ == all.take(i as int).filter(keep),
                self.scratch_pool@ == pooled_all(pool, all.take(i as int), completed),
                *self == (CudaSurfaceState { scratch_pool: self.scratch_pool, ..*old(self) }),
            decreases self.pending_scratch.len() - i,
        {
            proof {
                reveal(Seq::filter);
                assert(all.take(i + 1).drop_last() =~= all.take(i as int));
                assert(all.take(i + 1).last() == all[i as int]);
            }
            let pending = self.pending_scratch[i];
            if pending.retire_at == 0 || pending.retire_at <= completed {
                if self.scratch_pool.len() >= SCRATCH_POOL_CAP {
                    self.scratch_pool.pop();
                }
                self.scratch_pool.push(pending.slot.shared);
            } else {
                still.push(pending);
            }
            i += 1;
        }
        assert(all.take(i as int) =~= all);
        self.pending_scratch = still;
    }

    /// Takes the first pooled scratch of a size. The last one takes its place.
    pub fn take_pooled_scratch(&mut self, width: u32, height: u32) -> (taken: Option<SharedScratch>)
        ensures
            *final(self) == (CudaSurfaceState { scratch_pool: final(self).scratch_pool, ..*old(self) }),
            match taken {
                Some(shared) => exists|i: int|
                    {
                        &&& 0 <= i < old(self).scratch_pool@.len()
                        &&& #[trigger] old(self).scratch_pool@[i] == shared
                        &&& shared.width == width && shared.height == height
                        &&& forall|j: int|
                            0 <= j < i ==> !((#[trigger] old(self).scratch_pool@[j]).width == width
                                && old(self).scratch_pool@[j].height == height)
                        &&& final(self).scratch_pool@ == old(self).scratch_pool@.update(
                            i,
                            old(self).scratch_pool@.last(),
                        ).drop_last()
                    },
                None => final(self).scratch_pool@ == old(self).scratch_pool@ && forall|j: int|
                    0 <= j < old(self).scratch_pool@.len() ==> !((#[trigger] old(
                        self,
                    ).scratch_pool@[j]).width == width && old(self).scratch_pool@[j].height
                        == height),
            },
    {
        let mut i: usize = 0;
        while i < self.scratch_pool.len()
            invariant
                i <= self.scratch_pool@.len(),
                *self == *old(self),
                forall|j: int|
                    0 <= j < i ==> !((#[trigger] self.scratch_pool@[j]).width == width
                        && self.scratch_pool@[j].height == height),
            decreases self.scratch_pool.len() - i,
        {
            let shared = self.scratch_pool[i];
            if shared.width == width && shared.height == height {
                let taken = self.scratch_pool.swap_remove(i);
                assert(old(self).scratch_pool@[i as int] == shared);
                return Some(taken);
            }
            i += 1;
        }
        None
    }
}

/// Scratch is put aside at least until its last use has passed.
pub proof fn parked_scratch_outlives_its_use(slots: Seq<ScratchSlot>, high: u64, i: int, completed: u64)
    requires
        0 <= i < slots.len(),
        may_retire(parked(slots, high)[i], completed),
    ensures
        slot_high(slots[i]) <= completed || slot_high(slots[i]) == 0,
{
}

/// The pool never grows beyond its cap.
pub proof fn pool_stays_bounded(pool: Seq<SharedScratch>, pending: Seq<PendingScratchDrop>, completed: u64)
    requires
        pool.len() <= SCRATCH_POOL_CAP,
    ensures
        pooled_all(pool, pending, completed).len() <= SCRATCH_POOL_CAP,
    decreases pending.len(),
{
    if pending.len() > 0 {
        pool_stays_bounded(pool, pending.drop_last(), completed);
    }
}

} // verus!
