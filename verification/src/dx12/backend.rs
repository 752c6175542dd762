//! The back end as a whole: its tables, its devices and waits on its timelines.

use std::collections::HashMap;
use vstd::prelude::*;

use super::buffer::BufferTable;
use super::commands::ResourceCategory;
use super::context::{ContextFence, ContextTable, PendingDeletion, SubmissionContext};
use super::deletion::{outstanding, reached};
use super::device::{fresh_device, DxgiAdapter, LogicalDevice, OwnedObject};
use super::finish::{drained_context, Finished};
use super::tables::{
    all_handles, handles_on_device, off_device, on_device_keys, remove_on_device, DeviceOwned,
};
use super::types::{BufferState, RenderTargetState, TextureState};

verus! {

broadcast use vstd::std_specs::hash::group_hash_axioms;

impl DeviceOwned for BufferState {
    open spec fn on_device(&self) -> u64 {
        self.device_handle
    }

    fn device(&self) -> (device: u64) {
        self.device_handle
    }
}

impl DeviceOwned for TextureState {
    open spec fn on_device(&self) -> u64 {
        self.device_handle
    }

    fn device(&self) -> (device: u64) {
        self.device_handle
    }
}

impl DeviceOwned for RenderTargetState {
    open spec fn on_device(&self) -> u64 {
        self.device_handle
    }

    fn device(&self) -> (device: u64) {
        self.device_handle
    }
}

/// What kind of descriptor a push-constant slot names.
#[derive(Clone, Copy, Debug, PartialEq, Eq, Structural)]
pub enum BindlessSlotKind {
    StorageUav,
    ReadOnlySrv,
    UniformCbv,
}

/// How a shader uses a resource.
#[derive(Clone, Copy, Debug, PartialEq, Eq, Structural)]
pub enum ResourceAccess {
    Read,
    ReadWrite,
}

/// The access that a kind of slot allows, where it says.
pub open spec fn access_of(kind: Option<BindlessSlotKind>) -> Option<ResourceAccess> {
    match kind {
        Some(BindlessSlotKind::StorageUav) => Some(ResourceAccess::ReadWrite),
        Some(BindlessSlotKind::ReadOnlySrv) => Some(ResourceAccess::Read),
        _ => None,
    }
}

/// The access of each push-constant slot.
pub fn slot_access_from_push_constant_slot_kinds(kinds: &Vec<Option<BindlessSlotKind>>) -> (access: Vec<
    Option<ResourceAccess>,
>)
    ensures
        access@ == kinds@.map_values(|k: Option<BindlessSlotKind>| access_of(k)),
{
    let mut access: Vec<Option<ResourceAccess>> = Vec::new();
    let mut i: usize = 0;
    while i < kinds.len()
        invariant
            i <= kinds.len(),
            access@.len() == i,
            forall|j: int| 0 <= j < i ==> #[trigger] access@[j] == access_of(kinds@[j]),
        decreases kinds.len() - i,
    {
        let a = match kinds[i] {
            Some(BindlessSlotKind::StorageUav) => Some(ResourceAccess::ReadWrite),
            Some(BindlessSlotKind::ReadOnlySrv) => Some(ResourceAccess::Read),
            Some(BindlessSlotKind::UniformCbv) | None => None,
        };
        access.push(a);
        i += 1;
    }
    assert(access@ =~= kinds@.map_values(|k: Option<BindlessSlotKind>| access_of(k)));
    access
}

/// What a compiler found out about a shader.
pub struct ShaderReflection {
    pub push_constant_categories: Vec<Option<ResourceCategory>>,
    pub push_constant_slot_kinds: Vec<Option<BindlessSlotKind>>,
    pub binding_element_strides: Vec<Option<u32>>,
}

impl ShaderReflection {
    /// Two reflections say the same.
    pub open spec fn same(self, other: ShaderReflection) -> bool {
        &&& self.push_constant_categories@ == other.push_constant_categories@
        &&& self.push_constant_slot_kinds@ == other.push_constant_slot_kinds@
        &&& self.binding_element_strides@ == other.binding_element_strides@
    }

    /// The reflection says nothing.
    pub open spec fn nothing(self) -> bool {
        &&& self.push_constant_categories@.len() == 0
        &&& self.push_constant_slot_kinds@.len() == 0
        &&& self.binding_element_strides@.len() == 0
    }

    /// A copy.
    pub fn copied(&self) -> (copy: ShaderReflection)
        ensures
            copy.same(*self),
    {
        ShaderReflection {
            push_constant_categories: copied(&self.push_constant_categories),
            push_constant_slot_kinds: copied(&self.push_constant_slot_kinds),
            binding_element_strides: copied(&self.binding_element_strides),
        }
    }
}

fn copied<T: Copy>(values: &Vec<T>) -> (copy: Vec<T>)
    ensures
        copy@ == values@,
{
    let mut copy: Vec<T> = Vec::new();
    let mut i: usize = 0;
    while i < values.len()
        invariant
            i <= values.len(),
            copy@ == values@.take(i as int),
        decreases values.len() - i,
    {
        copy.push(values[i]);
        assert(copy@ =~= values@.take(i + 1));
        i += 1;
    }
    assert(values@.take(i as int) =~= values@);
    copy
}

/// A shader.
pub struct ShaderState {
    pub device_handle: u64,
    pub reflection: Option<ShaderReflection>,
}

impl DeviceOwned for ShaderState {
    open spec fn on_device(&self) -> u64 {
        self.device_handle
    }

    fn device(&self) -> (device: u64) {
        self.device_handle
    }
}

/// A graphics or compute pipeline.
pub struct PipelineState {
    pub device_handle: u64,
    pub pipeline_state: u64,
    pub root_signature: u64,
    pub reflection: ShaderReflection,
}

impl DeviceOwned for PipelineState {
    open spec fn on_device(&self) -> u64 {
        self.device_handle
    }

    fn device(&self) -> (device: u64) {
        self.device_handle
    }
}

/// A presented image that has not been returned.
#[derive(Clone, Copy, Debug, PartialEq, Eq, Structural)]
pub struct SwapchainReturn {
    pub return_fence: u64,
    pub image_index: u32,
    /// The job that presents it, where the worker runs one.
    pub issue_token: Option<u64>,
}

/// A surface.
pub struct SurfaceState {
    pub device_handle: u64,
    pub pending_swapchain_returns: Vec<SwapchainReturn>,
    pub pending_acquire_count: u32,
}

impl DeviceOwned for SurfaceState {
    open spec fn on_device(&self) -> u64 {
        self.device_handle
    }

    fn device(&self) -> (device: u64) {
        self.device_handle
    }
}

/// Why the back end refuses a request.
#[derive(Clone, Copy, Debug, PartialEq, Eq, Structural)]
pub enum BackendError {
    InvalidContext { context: u64 },
    InvalidSurface { surface: u64 },
    SurfaceDeviceInvalid { device: u64 },
    /// The surface has no texture for the frame.
    NoFrameTexture { surface: u64 },
    DeviceRemoved,
}

/// The Direct3D 12 back end.
pub struct Dx12Backend {
    pub adapters: Vec<DxgiAdapter>,
    pub allow_tearing: bool,
    pub devices: HashMap<u64, LogicalDevice>,
    pub next_device_handle: u64,
    pub contexts: ContextTable,
    pub buffers: BufferTable,
    pub shaders: HashMap<u64, ShaderState>,
    pub pipelines: HashMap<u64, PipelineState>,
    pub compute_pipelines: HashMap<u64, PipelineState>,
    pub next_compute_pipeline: u64,
    pub render_targets: HashMap<u64, RenderTargetState>,
    pub surfaces: HashMap<u64, SurfaceState>,
    pub next_surface_handle: u64,
    pub textures: HashMap<u64, TextureState>,
    pub samplers: HashMap<u64, OwnedObject>,
    pub device_removed: bool,
}

/// The back end holds nothing but the adapters of the process; the first handle of
/// each kind is one.
pub open spec fn is_fresh(backend: Dx12Backend, adapters: Vec<DxgiAdapter>, allow_tearing: bool) -> bool {
    &&& backend.adapters == adapters
    &&& backend.allow_tearing == allow_tearing
    &&& backend.devices@ == Map::<u64, LogicalDevice>::empty()
    &&& backend.next_device_handle == 1
    &&& backend.contexts.contexts@.dom() == Set::<u64>::empty()
    &&& backend.contexts.fences@ == Map::<u64, ContextFence>::empty()
    &&& backend.contexts.next_context_id == 1
    &&& backend.buffers.entries@ == Map::<u64, BufferState>::empty()
    &&& backend.buffers.next_handle == 1
    &&& backend.shaders@ == Map::<u64, ShaderState>::empty()
    &&& backend.pipelines@ == Map::<u64, PipelineState>::empty()
    &&& backend.compute_pipelines@ == Map::<u64, PipelineState>::empty()
    &&& backend.next_compute_pipeline == 1
    &&& backend.render_targets@ == Map::<u64, RenderTargetState>::empty()
    &&& backend.surfaces@ == Map::<u64, SurfaceState>::empty()
    &&& backend.next_surface_handle == 1
    &&& backend.textures@ == Map::<u64, TextureState>::empty()
    &&& backend.samplers@ == Map::<u64, OwnedObject>::empty()
    &&& !backend.device_removed
}

/// Makes a back end for one instance. Each has tables of its own; only the adapters are
/// those of the process.
pub fn shared_backend(adapters: Vec<DxgiAdapter>, allow_tearing: bool) -> (backend: Dx12Backend)
    ensures
        is_fresh(backend, adapters, allow_tearing),
{
    Dx12Backend::new(adapters, allow_tearing)
}

/// The back ends of a process, by instance.
pub type Instances = Map<u64, Dx12Backend>;

/// A back end was made for an instance.
pub open spec fn opened(
    before: Instances,
    after: Instances,
    instance: u64,
    adapters: Vec<DxgiAdapter>,
    allow_tearing: bool,
) -> bool {
    &&& !before.contains_key(instance)
    &&& is_fresh(after[instance], adapters, allow_tearing)
    &&& after == before.insert(instance, after[instance])
}

/// Steps of a process: in each, a back end was made for an instance with the adapters of
/// the process, or something was done through the back end of an instance. `by` names the
/// instance.
pub open spec fn went_on(
    states: Seq<Instances>,
    by: Seq<u64>,
    adapters: Vec<DxgiAdapter>,
    allow_tearing: bool,
) -> bool {
    &&& states.len() == by.len() + 1
    &&& forall|i: int|
        0 <= i < by.len() ==> stepped(
            states[i],
            states[i + 1],
            #[trigger] by[i],
            adapters,
            allow_tearing,
        )
}

/// One step of a process. Whatever is done through a back end, its adapters stay.
pub open spec fn stepped(
    before: Instances,
    after: Instances,
    instance: u64,
    adapters: Vec<DxgiAdapter>,
    allow_tearing: bool,
) -> bool {
    if before.contains_key(instance) {
        &&& after == before.insert(instance, after[instance])
        &&& after[instance].adapters == before[instance].adapters
    } else {
        opened(before, after, instance, adapters, allow_tearing)
    }
}

proof fn lemma_earlier_steps(
    states: Seq<Instances>,
    by: Seq<u64>,
    adapters: Vec<DxgiAdapter>,
    allow_tearing: bool,
)
    requires
        by.len() > 0,
        went_on(states, by, adapters, allow_tearing),
    ensures
        went_on(states.drop_last(), by.drop_last(), adapters, allow_tearing),
        stepped(
            states.drop_last().last(),
            states.last(),
            by.last(),
            adapters,
            allow_tearing,
        ),
        forall|instance: u64| #[trigger]
            by.drop_last().contains(instance) ==> by.contains(instance),
{
    let earlier = states.drop_last();
    let rest = by.drop_last();
    assert forall|i: int| 0 <= i < rest.len() implies stepped(
        earlier[i],
        earlier[i + 1],
        #[trigger] rest[i],
        adapters,
        allow_tearing,
    ) by {
        assert(by[i] == rest[i]);
    }
    assert(by[by.len() - 1] == by.last());
    assert forall|instance: u64| #[trigger] rest.contains(instance) implies by.contains(
        instance,
    ) by {
        let i = choose|i: int| 0 <= i < rest.len() && rest[i] == instance;
        assert(by[i] == instance);
    }
}

/// Whatever is created, changed or destroyed through other back ends, a back end holds
/// what it held: devices, contexts and resources of one are not seen through another.
pub proof fn back_ends_are_independent(
    states: Seq<Instances>,
    by: Seq<u64>,
    adapters: Vec<DxgiAdapter>,
    allow_tearing: bool,
    instance: u64,
)
    requires
        went_on(states, by, adapters, allow_tearing),
        !by.contains(instance),
    ensures
        states.last().contains_key(instance) == states[0].contains_key(instance),
        states[0].contains_key(instance) ==> states.last()[instance] == states[0][instance],
    decreases by.len(),
{
    if by.len() > 0 {
        lemma_earlier_steps(states, by, adapters, allow_tearing);
        back_ends_are_independent(
            states.drop_last(),
            by.drop_last(),
            adapters,
            allow_tearing,
            instance,
        );
        assert(by[by.len() - 1] != instance);
    }
}

/// Every back end of a process lists the same adapters, whatever is done through any of
/// them.
pub proof fn back_ends_list_the_same_adapters(
    states: Seq<Instances>,
    by: Seq<u64>,
    adapters: Vec<DxgiAdapter>,
    allow_tearing: bool,
    instance: u64,
)
    requires
        went_on(states, by, adapters, allow_tearing),
        states[0].contains_key(instance) ==> states[0][instance].adapters == adapters,
    ensures
        states.last().contains_key(instance) ==> states.last()[instance].adapters == adapters,
    decreases by.len(),
{
    if by.len() > 0 {
        lemma_earlier_steps(states, by, adapters, allow_tearing);
        back_ends_list_the_same_adapters(
            states.drop_last(),
            by.drop_last(),
            adapters,
            allow_tearing,
            instance,
        );
    }
}

/// A back end that was just made sees nothing that another holds, and numbers what it makes
/// from one on; those that were there hold what they held. Two that were made with the
/// adapters of the process list the same ones.
pub proof fn new_back_end_sees_nothing(
    before: Instances,
    after: Instances,
    instance: u64,
    adapters: Vec<DxgiAdapter>,
    allow_tearing: bool,
    other: u64,
    handle: u64,
)
    requires
        opened(before, after, instance, adapters, allow_tearing),
        before.contains_key(other),
    ensures
        other != instance,
        after[other] == before[other],
        !after[instance].devices@.contains_key(handle),
        !after[instance].contexts.contexts@.contains_key(handle),
        !after[instance].contexts.fences@.contains_key(handle),
        !after[instance].buffers.entries@.contains_key(handle),
        !after[instance].shaders@.contains_key(handle),
        !after[instance].pipelines@.contains_key(handle),
        !after[instance].compute_pipelines@.contains_key(handle),
        !after[instance].render_targets@.contains_key(handle),
        !after[instance].surfaces@.contains_key(handle),
        !after[instance].textures@.contains_key(handle),
        !after[instance].samplers@.contains_key(handle),
        after[instance].next_device_handle == 1,
        before[other].adapters == adapters ==> after[instance].adapters == after[other].adapters,
{
    assert(!after[instance].contexts.contexts@.dom().contains(handle));
}

/// A frame that has begun on a surface.
#[derive(Clone, Copy, Debug, PartialEq, Eq, Structural)]
pub struct FrameToken {
    pub surface: u64,
    pub image: u32,
    pub context: u64,
    pub frame_slot: u32,
    pub present_slot: u32,
}

/// Begins a frame on an acquired image: its frame slot is the image's own. `texture` is
/// the texture that the surface shows the frame under.
pub fn begin_frame(
    surface: u64,
    context: u64,
    image: u32,
    present_slot: u32,
    texture: Option<u64>,
) -> (frame: Result<(FrameToken, u64), BackendError>)
    ensures
        frame == (match texture {
            Some(t) => Ok::<(FrameToken, u64), BackendError>(
                (FrameToken { surface, image, context, frame_slot: image, present_slot }, t),
            ),
            None => Err::<(FrameToken, u64), BackendError>(
                BackendError::NoFrameTexture { surface },
            ),
        }),
{
    match texture {
        Some(t) => Ok((FrameToken { surface, image, context, frame_slot: image, present_slot }, t)),
        None => Err(BackendError::NoFrameTexture { surface }),
    }
}

/// A wait until the worker has submitted a value.
#[derive(Clone, Copy, Debug, PartialEq, Eq, Structural)]
pub struct EpochWait {
    pub device: u64,
    pub value: u64,
    pub horizon: u64,
}

/// A wait for the fence of a context.
#[derive(Clone, Copy, Debug, PartialEq, Eq, Structural)]
pub struct FenceWait {
    pub context: u64,
    pub value: u64,
}

/// A wait for the return of a presented image.
#[derive(Clone, Copy, Debug, PartialEq, Eq, Structural)]
pub struct SwapchainWait {
    pub device: u64,
    pub value: u64,
    pub issue_token: Option<u64>,
}

/// What a wait released.
pub struct FinishedWait {
    /// What had waited for the context.
    pub released: Vec<PendingDeletion>,
    /// The submissions whose timestamps can be read back.
    pub profiles: Vec<u64>,
    /// What waits for the device can be released up to this value.
    pub device_up_to: u64,
}

/// How a wait with a timeout ended.
pub enum TimedWait {
    TimedOut,
    /// The value was reached; `release` is what was released, nothing where the device
    /// of the context is not there.
    Reached { release: Option<FinishedWait> },
}

/// Which fence a wait for a device waits for.
#[derive(Clone, Copy, Debug, PartialEq, Eq, Structural)]
pub enum DeviceFence {
    OfContext { context: u64 },
    OfDevice,
    /// The value has been reached, or the device is not there.
    Nothing,
}

/// What a wait for a device does first.
#[derive(Clone, Copy, Debug, PartialEq, Eq, Structural)]
pub struct DeviceWait {
    /// Flush the worker.
    pub flush: bool,
    /// Wait until the worker has submitted this value.
    pub wait_submitted: Option<u64>,
}

/// The pending images that are still to come.
pub open spec fn still_out(pending: Seq<SwapchainReturn>, progress: u64) -> Seq<SwapchainReturn>
    decreases pending.len(),
{
    if pending.len() == 0 {
        Seq::empty()
    } else {
        let before = still_out(pending.drop_last(), progress);
        if progress >= pending.last().return_fence {
            before
        } else {
            before.push(pending.last())
        }
    }
}

/// The images that have been returned, in the order they were presented.
pub open spec fn returned_images(pending: Seq<SwapchainReturn>, progress: u64) -> Seq<u32>
    decreases pending.len(),
{
    if pending.len() == 0 {
        Seq::empty()
    } else {
        let before = returned_images(pending.drop_last(), progress);
        if progress >= pending.last().return_fence {
            before.push(pending.last().image_index)
        } else {
            before
        }
    }
}

/// `fence` is the smallest fence value of the pending images.
pub open spec fn is_oldest(pending: Seq<SwapchainReturn>, fence: u64) -> bool {
    &&& exists|i: int| 0 <= i < pending.len() && (#[trigger] pending[i]).return_fence == fence
    &&& forall|i: int| 0 <= i < pending.len() ==> fence <= (#[trigger] pending[i]).return_fence
}

/// What is left of a count after some were taken off; never below zero.
pub open spec fn less(count: u32, taken: nat) -> u32 {
    if taken >= count {
        0
    } else {
        (count - taken) as u32
    }
}

impl SurfaceState {
    /// Takes out the images that have been returned.
    pub fn take_returned(&mut self, progress: u64) -> (images: Vec<u32>)
        ensures
            images@ == returned_images(old(self).pending_swapchain_returns@, progress),
            final(self).pending_swapchain_returns@ == still_out(
                old(self).pending_swapchain_returns@,
                progress,
            ),
            final(self).pending_acquire_count == less(
                old(self).pending_acquire_count,
                images@.len(),
            ),
            final(self).device_handle == old(self).device_handle,
    {
        let ghost all = self.pending_swapchain_returns@;
        let ghost count = self.pending_acquire_count;
        let mut images: Vec<u32> = Vec::new();
        let mut kept: Vec<SwapchainReturn> = Vec::new();
        let mut i: usize = 0;
        while i < self.pending_swapchain_returns.len()
            invariant
                i <= self.pending_swapchain_returns@.len(),
                self.pending_swapchain_returns@ == all,
                self.device_handle == old(self).device_handle,
                images@ == returned_images(all.take(i as int), progress),
                kept@ == still_out(all.take(i as int), progress),
                self.pending_acquire_count == less(count, images@.len()),
            decreases self.pending_swapchain_returns.len() - i,
        {
            assert(all.take(i + 1).drop_last() =~= all.take(i as int));
            let r = self.pending_swapchain_returns[i];
            if progress >= r.return_fence {
                images.push(r.image_index);
                self.pending_acquire_count = self.pending_acquire_count.saturating_sub(1);
            } else {
                kept.push(r);
            }
            i += 1;
        }
        assert(all.take(i as int) =~= all);
        self.pending_swapchain_returns = kept;
        images
    }

    /// The smallest fence value of an image that has not been returned.
    pub fn oldest_return(&self) -> (oldest: Option<u64>)
        ensures
            match oldest {
                Some(fence) => is_oldest(self.pending_swapchain_returns@, fence),
                None => self.pending_swapchain_returns@.len() == 0,
            },
    {
        if self.pending_swapchain_returns.len() == 0 {
            return None;
        }
        let mut oldest: u64 = self.pending_swapchain_returns[0].return_fence;
        let mut i: usize = 1;
        while i < self.pending_swapchain_returns.len()
            invariant
                1 <= i <= self.pending_swapchain_returns@.len(),
                exists|j: int|
                    0 <= j < self.pending_swapchain_returns@.len() && (
                    #[trigger] self.pending_swapchain_returns@[j]).return_fence == oldest,
                forall|j: int|
                    0 <= j < i ==> oldest <= (
                    #[trigger] self.pending_swapchain_returns@[j]).return_fence,
            decreases self.pending_swapchain_returns.len() - i,
        {
            let fence: u64 = self.pending_swapchain_returns[i].return_fence;
            if fence < oldest {
                oldest = fence;
                assert(self.pending_swapchain_returns@[i as int].return_fence == oldest);
            }
            i += 1;
        }
        Some(oldest)
    }

    /// The job of the first image that comes back under a fence value.
    pub fn return_token(&self, value: u64) -> (token: Option<u64>)
        ensures
            token == first_token(self.pending_swapchain_returns@, value),
    {
        let ghost all = self.pending_swapchain_returns@;
        let mut i: usize = 0;
        assert(all.skip(0) =~= all);
        while i < self.pending_swapchain_returns.len()
            invariant
                i <= self.pending_swapchain_returns@.len(),
                all == self.pending_swapchain_returns@,
                first_token(all, value) == first_token(all.skip(i as int), value),
            decreases self.pending_swapchain_returns.len() - i,
        {
            if self.pending_swapchain_returns[i].return_fence == value {
                return self.pending_swapchain_returns[i].issue_token;
            }
            assert(all.skip(i as int).skip(1) =~= all.skip(i + 1));
            i += 1;
        }
        None
    }
}

/// The job of the first image that comes back under a fence value.
pub open spec fn first_token(pending: Seq<SwapchainReturn>, value: u64) -> Option<u64>
    decreases pending.len(),
{
    if pending.len() == 0 {
        None
    } else if pending[0].return_fence == value {
        pending[0].issue_token
    } else {
        first_token(pending.skip(1), value)
    }
}

/// The images of surfaces, surface by surface.
pub open spec fn all_returned(
    surfaces: Map<u64, SurfaceState>,
    order: Seq<u64>,
    progress: u64,
) -> Seq<u32>
    decreases order.len(),
{
    if order.len() == 0 {
        Seq::empty()
    } else {
        all_returned(surfaces, order.drop_last(), progress) + returned_images(
            surfaces[order.last()].pending_swapchain_returns@,
            progress,
        )
    }
}

/// A surface after what has been returned was taken out.
pub open spec fn after_returns(before: SurfaceState, after: SurfaceState, progress: u64) -> bool {
    &&& after.device_handle == before.device_handle
    &&& after.pending_swapchain_returns@ == still_out(before.pending_swapchain_returns@, progress)
    &&& after.pending_acquire_count == less(
        before.pending_acquire_count,
        returned_images(before.pending_swapchain_returns@, progress).len(),
    )
}

/// The later of two timeline values.
pub open spec fn later_of(a: u64, b: u64) -> u64 {
    if a >= b {
        a
    } else {
        b
    }
}

/// A surface after a poll: only those of the device were looked at.
pub open spec fn polled_surface(
    before: SurfaceState,
    after: SurfaceState,
    device: u64,
    reached: u64,
) -> bool {
    if before.device_handle == device {
        after_returns(before, after, reached)
    } else {
        after == before
    }
}

/// The surfaces of a device, each once, in some order.
pub open spec fn lists_surfaces(surfaces: Map<u64, SurfaceState>, device: u64, order: Seq<u64>) -> bool {
    order.no_duplicates() && order.to_set() == on_device_keys(surfaces, device)
}

/// The surfaces after a poll, and the images that it found returned.
pub open spec fn polled(
    before: Map<u64, SurfaceState>,
    after: Map<u64, SurfaceState>,
    device: u64,
    reached: u64,
    images: Seq<u32>,
) -> bool {
    &&& after.dom() == before.dom()
    &&& forall|s: u64| #[trigger]
        before.contains_key(s) ==> polled_surface(before[s], after[s], device, reached)
    &&& exists|order: Seq<u64>| #[trigger]
        lists_surfaces(before, device, order) && images == all_returned(before, order, reached)
}

/// Nothing differs but one context and whether a device was removed.
pub open spec fn same_but_one_context(before: Dx12Backend, after: Dx12Backend, context: u64) -> bool {
    &&& after.contexts.contexts@.dom() == before.contexts.contexts@.dom()
    &&& forall|c: u64| #[trigger]
        before.contexts.contexts@.contains_key(c) && c != context ==> after.contexts.contexts@[c]
            == before.contexts.contexts@[c]
    &&& after == (Dx12Backend {
        contexts: ContextTable { contexts: after.contexts.contexts, ..before.contexts },
        device_removed: after.device_removed,
        ..before
    })
}

/// What waited for one context was released up to a value, and nothing else changed.
pub open spec fn context_drained(
    before: Dx12Backend,
    after: Dx12Backend,
    context: u64,
    completed: u64,
) -> bool {
    &&& drained_context(
        before.contexts.contexts@[context],
        after.contexts.contexts@[context],
        completed,
    )
    &&& same_but_one_context(before, after, context)
    &&& after.device_removed == before.device_removed
}

/// What a wait for a value of a live context comes to once its fence has been read.
pub open spec fn wait_finished(
    before: Dx12Backend,
    after: Dx12Backend,
    context: u64,
    value: u64,
    completed: u64,
    retired: u64,
    result: Result<Option<FinishedWait>, BackendError>,
) -> bool {
    let live = before.contexts.contexts@[context];
    if !before.contexts.fences@.contains_key(context) {
        &&& result == Err::<Option<FinishedWait>, BackendError>(
            BackendError::InvalidContext { context },
        )
        &&& after == before
    } else if completed == u64::MAX {
        &&& result == Err::<Option<FinishedWait>, BackendError>(BackendError::DeviceRemoved)
        &&& after == (Dx12Backend { device_removed: true, ..before })
    } else if !before.devices@.contains_key(live.device) {
        &&& result == Ok::<Option<FinishedWait>, BackendError>(None)
        &&& after == before
    } else {
        &&& result is Ok
        &&& result->Ok_0 is Some
        &&& result->Ok_0->0.device_up_to == if value <= retired {
            value
        } else {
            retired
        }
        &&& result->Ok_0->0.released@ == reached(live.deletion_queue@, completed)
        &&& result->Ok_0->0.profiles@ == live.pending_gpu_profiles@.filter(
            |p: u64| p <= completed,
        )
        &&& context_drained(before, after, context, completed)
    }
}

impl Dx12Backend {
    /// A back end without devices.
    pub fn new(adapters: Vec<DxgiAdapter>, allow_tearing: bool) -> (backend: Dx12Backend)
        ensures
            is_fresh(backend, adapters, allow_tearing),
    {
        Dx12Backend {
            adapters,
            allow_tearing,
            devices: HashMap::new(),
            next_device_handle: 1,
            contexts: ContextTable::new(),
            buffers: BufferTable::new(),
            shaders: HashMap::new(),
            pipelines: HashMap::new(),
            compute_pipelines: HashMap::new(),
            next_compute_pipeline: 1,
            render_targets: HashMap::new(),
            surfaces: HashMap::new(),
            next_surface_handle: 1,
            textures: HashMap::new(),
            samplers: HashMap::new(),
            device_removed: false,
        }
    }

    /// Enters a device that was made.
    pub fn finish_create_device(&mut self, adapter_id: u32, supports_reserved_buffers: bool) -> (handle:
        u64)
        requires
            old(self).next_device_handle < u64::MAX,
        ensures
            handle == old(self).next_device_handle,
            final(self).devices@ == old(self).devices@.insert(
                handle,
                fresh_device(adapter_id, supports_reserved_buffers),
            ),
            *final(self) == (Dx12Backend {
                devices: final(self).devices,
                next_device_handle: (handle + 1) as u64,
                ..*old(self)
            }),
    {
        let handle: u64 = self.next_device_handle;
        self.next_device_handle = handle + 1;
        self.devices.insert(handle, LogicalDevice::new(adapter_id, supports_reserved_buffers));
        handle
    }

    /// Whether a device is there.
    pub fn is_device_valid(&self, device: u64) -> (valid: bool)
        ensures
            valid == self.devices@.contains_key(device),
    {
        self.devices.contains_key(&device)
    }

    /// The adapter of a device; the first where the device is not there.
    pub fn device_adapter(&self, device: u64) -> (adapter_id: u32)
        ensures
            adapter_id == (if self.devices@.contains_key(device) {
                self.devices@[device].adapter_id
            } else {
                0
            }),
    {
        match self.devices.get(&device) {
            Some(d) => d.adapter_id,
            None => 0,
        }
    }

    /// Takes a device out, once its work is done and its waiting objects have been
    /// released, with everything that belongs to it. The device is handed back for its
    /// cache of pipelines to be saved. Its timeline has moved past the value that the
    /// wait for its work used.
    pub fn destroy_device_inner(&mut self, device: u64) -> (destroyed: Option<LogicalDevice>)
        requires
            old(self).buffers.wf(),
            old(self).devices@.contains_key(device) ==> old(self).devices@[device].timeline_next
                < u64::MAX,
        ensures
            final(self).buffers.wf(),
            !final(self).devices@.contains_key(device),
            if old(self).devices@.contains_key(device) {
                &&& destroyed == Some(
                    LogicalDevice {
                        timeline_next: (old(self).devices@[device].timeline_next + 1) as u64,
                        ..old(self).devices@[device]
                    },
                )
                &&& final(self).devices@ == old(self).devices@.remove(device)
                &&& final(self).buffers.entries@ == off_device(old(self).buffers.entries@, device)
                &&& final(self).buffers.next_handle == old(self).buffers.next_handle
                &&& final(self).shaders@ == off_device(old(self).shaders@, device)
                &&& final(self).pipelines@ == off_device(old(self).pipelines@, device)
                &&& final(self).render_targets@ == off_device(old(self).render_targets@, device)
                &&& final(self).surfaces@ == off_device(old(self).surfaces@, device)
                &&& final(self).textures@ == off_device(old(self).textures@, device)
                &&& final(self).samplers@ == off_device(old(self).samplers@, device)
                &&& *final(self) == (Dx12Backend {
                    devices: final(self).devices,
                    buffers: final(self).buffers,
                    shaders: final(self).shaders,
                    pipelines: final(self).pipelines,
                    render_targets: final(self).render_targets,
                    surfaces: final(self).surfaces,
                    textures: final(self).textures,
                    samplers: final(self).samplers,
                    ..*old(self)
                })
            } else {
                destroyed is None && final(self).devices@ == old(self).devices@ && *final(self)
                    == (Dx12Backend { devices: final(self).devices, ..*old(self) })
            },
    {
        match self.devices.remove(&device) {
            None => {
                assert(self.devices@ =~= old(self).devices@);
                None
            },
            Some(found) => {
                remove_on_device(&mut self.buffers.entries, device);
                assert forall|h: u64| #[trigger]
                    self.buffers.entries@.contains_key(h) implies super::buffer::buffer_wf(
                    self.buffers.entries@[h],
                ) && h < self.buffers.next_handle by {
                    assert(old(self).buffers.entries@.contains_key(h));
                }
                remove_on_device(&mut self.shaders, device);
                remove_on_device(&mut self.pipelines, device);
                remove_on_device(&mut self.render_targets, device);
                remove_on_device(&mut self.surfaces, device);
                remove_on_device(&mut self.textures, device);
                remove_on_device(&mut self.samplers, device);
                Some(LogicalDevice { timeline_next: found.timeline_next + 1, ..found })
            },
        }
    }

    /// The contexts of a device: they are destroyed before it.
    pub fn contexts_to_destroy(&self, device: u64) -> (contexts: Vec<u64>)
        ensures
            contexts@.no_duplicates(),
            contexts@.to_set() == on_device_keys(self.contexts.contexts@, device),
    {
        handles_on_device(&self.contexts.contexts, device)
    }

    /// The devices that are destroyed when the back end shuts down.
    pub fn devices_to_destroy(&self) -> (devices: Vec<u64>)
        ensures
            devices@.no_duplicates(),
            devices@.to_set() == self.devices@.dom(),
    {
        all_handles(&self.devices)
    }

    /// How far a context has come, zero where it is not there.
    pub open spec fn progress_of(self, context: u64) -> u64 {
        if self.contexts.contexts@.contains_key(context) && self.contexts.fences@.contains_key(
            context,
        ) {
            self.contexts.fences@[context].completed
        } else {
            0
        }
    }

    /// How far a context has come, zero where it is not there.
    pub fn gpu_progress(&self, context: u64) -> (progress: u64)
        ensures
            progress == self.progress_of(context),
    {
        if !self.contexts.contexts.contains_key(&context) {
            return 0;
        }
        match self.contexts.fences.get(&context) {
            Some(fence) => fence.completed,
            None => 0,
        }
    }

    /// The wait for the worker that comes before a wait for a value, if one has to.
    /// `horizon` is the last value that was given out on the device.
    pub fn take_timeline_submission_epoch_wait(&self, context: u64, value: u64, horizon: u64) -> (wait:
        Option<EpochWait>)
        requires
            self.progress_of(context) < value ==> self.contexts.contexts@.contains_key(context),
        ensures
            ({
                let device = self.contexts.contexts@[context].device;
                wait == (if self.progress_of(context) >= value || !self.devices@.contains_key(device)
                    || value == 0 || value > horizon {
                    None
                } else {
                    Some(EpochWait { device, value, horizon })
                })
            }),
    {
        if self.gpu_progress(context) >= value {
            return None;
        }
        let device: u64 = self.contexts.context_device(context);
        if !self.devices.contains_key(&device) {
            return None;
        }
        if value == 0 || value > horizon {
            return None;
        }
        Some(EpochWait { device, value, horizon })
    }

    /// The wait for the fence of a context, if the value has not been reached.
    pub fn take_timeline_blocking_wait(&self, context: u64, value: u64) -> (wait: Result<
        Option<FenceWait>,
        BackendError,
    >)
        ensures
            wait == (if self.progress_of(context) >= value {
                Ok(None)
            } else if !self.contexts.fences@.contains_key(context) {
                Err(BackendError::InvalidContext { context })
            } else {
                Ok(Some(FenceWait { context, value }))
            }),
    {
        if self.gpu_progress(context) >= value {
            return Ok(None);
        }
        if !self.contexts.fences.contains_key(&context) {
            return Err(BackendError::InvalidContext { context });
        }
        Ok(Some(FenceWait { context, value }))
    }

    /// Releases what a wait for a value was for; nothing where the device of the context
    /// is not there. `completed` is what the fence of the context then read, `retired`
    /// what the device has retired. A removed device is noted.
    pub fn finish_timeline_wait(&mut self, context: u64, value: u64, completed: u64, retired: u64) -> (result:
        Result<Option<FinishedWait>, BackendError>)
        requires
            old(self).contexts.contexts@.contains_key(context),
        ensures
            wait_finished(*old(self), *final(self), context, value, completed, retired, result),
    {
        let device: u64 = self.contexts.context_device(context);
        if !self.contexts.fences.contains_key(&context) {
            return Err(BackendError::InvalidContext { context });
        }
        if completed == u64::MAX {
            self.device_removed = true;
            return Err(BackendError::DeviceRemoved);
        }
        if !self.devices.contains_key(&device) {
            return Ok(None);
        }
        let device_up_to: u64 = if value <= retired {
            value
        } else {
            retired
        };
        let drained = self.drain_context(context, completed);
        Ok(
            Some(
                FinishedWait { released: drained.released, profiles: drained.profiles, device_up_to },
            ),
        )
    }

    /// Takes out what waited for a live context up to a value.
    fn drain_context(&mut self, context: u64, completed: u64) -> (finished: Finished)
        requires
            old(self).contexts.contexts@.contains_key(context),
        ensures
            context_drained(*old(self), *final(self), context, completed),
            finished.released@ == reached(
                old(self).contexts.contexts@[context].deletion_queue@,
                completed,
            ),
            finished.profiles@ == old(self).contexts.contexts@[context].pending_gpu_profiles@.filter(
                |p: u64| p <= completed,
            ),
    {
        let mut finished = Finished { released: Vec::new(), profiles: Vec::new() };
        match self.contexts.contexts.remove(&context) {
            Some(mut live) => {
                finished = live.drain_context_deletion_queue_up_to(completed);
                self.contexts.contexts.insert(context, live);
            },
            None => {},
        }
        assert(self.contexts.contexts@.dom() =~= old(self).contexts.contexts@.dom());
        finished
    }

    /// How a wait with a timeout ends. `submitted` says whether the worker of the device
    /// had submitted the value in time, `in_time` whether the fence of the context then
    /// reached it in time; `completed` and `retired` are as for a wait without a timeout.
    pub fn wait_until_timeout(
        &mut self,
        context: u64,
        value: u64,
        submitted: bool,
        in_time: bool,
        completed: u64,
        retired: u64,
    ) -> (result: Result<TimedWait, BackendError>)
        requires
            old(self).contexts.contexts@.contains_key(context),
        ensures
            if old(self).devices@.contains_key(old(self).contexts.contexts@[context].device)
                && !submitted {
                result == Ok::<TimedWait, BackendError>(TimedWait::TimedOut) && *final(self)
                    == *old(self)
            } else if !old(self).contexts.fences@.contains_key(context) {
                result == Err::<TimedWait, BackendError>(BackendError::InvalidContext { context })
                    && *final(self) == *old(self)
            } else if !in_time {
                result == Ok::<TimedWait, BackendError>(TimedWait::TimedOut) && *final(self)
                    == *old(self)
            } else {
                !(result matches Ok(TimedWait::TimedOut)) && wait_finished(
                    *old(self),
                    *final(self),
                    context,
                    value,
                    completed,
                    retired,
                    match result {
                        Ok(ended) => Ok(ended->release),
                        Err(e) => Err(e),
                    },
                )
            },
    {
        let device: u64 = self.contexts.context_device(context);
        if self.devices.contains_key(&device) && !submitted {
            return Ok(TimedWait::TimedOut);
        }
        if !self.contexts.fences.contains_key(&context) {
            return Err(BackendError::InvalidContext { context });
        }
        if !in_time {
            return Ok(TimedWait::TimedOut);
        }
        match self.finish_timeline_wait(context, value, completed, retired) {
            Ok(release) => Ok(TimedWait::Reached { release }),
            Err(e) => Err(e),
        }
    }

    /// Takes out what waited for a context as far as its fence has come; everything stays
    /// that waits for a later value.
    pub fn flush_context(&mut self, context: u64) -> (released: Vec<PendingDeletion>)
        requires
            old(self).contexts.contexts@.contains_key(context),
        ensures
            ({
                let before = old(self).contexts.contexts@[context];
                let after = final(self).contexts.contexts@[context];
                let completed = if old(self).contexts.fences@.contains_key(context) {
                    old(self).contexts.fences@[context].completed
                } else {
                    0
                };
                &&& released@ == reached(before.deletion_queue@, completed)
                &&& after.deletion_queue@ == outstanding(before.deletion_queue@, completed)
                &&& after == (SubmissionContext { deletion_queue: after.deletion_queue, ..before })
            }),
            same_but_one_context(*old(self), *final(self), context),
            final(self).device_removed == old(self).device_removed,
    {
        let completed: u64 = match self.contexts.fences.get(&context) {
            Some(fence) => fence.completed,
            None => 0,
        };
        let mut released: Vec<PendingDeletion> = Vec::new();
        match self.contexts.contexts.remove(&context) {
            Some(mut live) => {
                released = live.deletion_queue.drain_up_to_completed(completed);
                self.contexts.contexts.insert(context, live);
            },
            None => {},
        }
        assert(self.contexts.contexts@.dom() =~= old(self).contexts.contexts@.dom());
        released
    }

    /// What a wait for a device does first. Nothing where the value has retired; else
    /// the worker is flushed, and waited for where the value was given out.
    pub fn plan_device_wait(&self, device: u64, value: u64, retired: u64, horizon: u64) -> (wait:
        Option<DeviceWait>)
        ensures
            wait == (if retired >= value {
                None
            } else if !self.devices@.contains_key(device) {
                Some(DeviceWait { flush: false, wait_submitted: None })
            } else {
                Some(
                    DeviceWait {
                        flush: true,
                        wait_submitted: if value <= horizon {
                            Some(value)
                        } else {
                            None
                        },
                    },
                )
            }),
    {
        if retired >= value {
            return None;
        }
        if !self.devices.contains_key(&device) {
            return Some(DeviceWait { flush: false, wait_submitted: None });
        }
        let wait_submitted = if value <= horizon {
            Some(value)
        } else {
            None
        };
        Some(DeviceWait { flush: true, wait_submitted })
    }

    /// Which fence a wait for a device waits for: that of a context that has submitted
    /// the value, or else that of the device itself.
    pub fn device_wait_fence(&self, device: u64, value: u64, retired: u64) -> (fence: DeviceFence)
        ensures
            match fence {
                DeviceFence::OfContext { context } => self.contexts.contexts@.contains_key(context)
                    && self.contexts.contexts@[context].device == device
                    && self.contexts.contexts@[context].last_submitted_seq >= value,
                DeviceFence::OfDevice => retired < value && self.devices@.contains_key(device)
                    && self.no_context_submitted(device, value),
                DeviceFence::Nothing => (retired >= value || !self.devices@.contains_key(device))
                    && self.no_context_submitted(device, value),
            },
    {
        let handles = handles_on_device(&self.contexts.contexts, device);
        let mut i: usize = 0;
        while i < handles.len()
            invariant
                i <= handles.len(),
                handles@.to_set() == on_device_keys(self.contexts.contexts@, device),
                forall|j: int|
                    0 <= j < i ==> self.contexts.contexts@[#[trigger] handles@[j]].last_submitted_seq
                        < value,
            decreases handles.len() - i,
        {
            let context: u64 = handles[i];
            assert(handles@.to_set().contains(context));
            if let Some(c) = self.contexts.contexts.get(&context) {
                if c.last_submitted_seq >= value {
                    return DeviceFence::OfContext { context };
                }
            }
            i += 1;
        }
        assert(self.no_context_submitted(device, value)) by {
            assert forall|c: u64| #[trigger]
                self.contexts.contexts@.contains_key(c) && self.contexts.contexts@[c].device
                    == device implies self.contexts.contexts@[c].last_submitted_seq < value by {
                assert(on_device_keys(self.contexts.contexts@, device).contains(c));
                let j = choose|j: int| 0 <= j < handles@.len() && handles@[j] == c;
                assert(self.contexts.contexts@[handles@[j]].last_submitted_seq < value);
            }
        }
        if retired < value && self.devices.contains_key(&device) {
            DeviceFence::OfDevice
        } else {
            DeviceFence::Nothing
        }
    }

    /// No context of the device has submitted the value.
    pub open spec fn no_context_submitted(self, device: u64, value: u64) -> bool {
        forall|c: u64| #[trigger]
            self.contexts.contexts@.contains_key(c) && self.contexts.contexts@[c].device == device
                ==> self.contexts.contexts@[c].last_submitted_seq < value
    }

    /// The first value of a context that is still in flight.
    pub fn peek_oldest_in_flight(&self, context: u64) -> (value: Option<u64>)
        ensures
            value == (if self.contexts.contexts@.contains_key(context) && self.progress_of(context)
                < self.contexts.contexts@[context].last_submitted_seq {
                Some((self.progress_of(context) + 1) as u64)
            } else {
                None
            }),
    {
        let progress: u64 = self.gpu_progress(context);
        match self.contexts.contexts.get(&context) {
            Some(c) => if progress < c.last_submitted_seq {
                Some(progress.saturating_add(1))
            } else {
                None
            },
            None => None,
        }
    }

    /// Takes the returned images out of the surfaces of a context's device, surface by
    /// surface in no particular order. `progress` is that of the context, `retired` what
    /// its device has retired: images return under either.
    pub fn poll_signals(&mut self, context: u64, progress: u64, retired: u64) -> (images: Vec<u32>)
        requires
            old(self).contexts.contexts@.contains_key(context),
        ensures
            polled(
                old(self).surfaces@,
                final(self).surfaces@,
                old(self).contexts.contexts@[context].device,
                later_of(progress, retired),
                images@,
            ),
            *final(self) == (Dx12Backend { surfaces: final(self).surfaces, ..*old(self) }),
    {
        let device: u64 = self.contexts.context_device(context);
        let reached: u64 = if progress >= retired {
            progress
        } else {
            retired
        };
        let handles = handles_on_device(&self.surfaces, device);
        let ghost start = self.surfaces@;
        let mut images: Vec<u32> = Vec::new();
        let mut i: usize = 0;
        while i < handles.len()
            invariant
                i <= handles.len(),
                handles@.no_duplicates(),
                handles@.to_set() == on_device_keys(start, device),
                self.surfaces@.dom() == start.dom(),
                *self == (Dx12Backend { surfaces: self.surfaces, ..*old(self) }),
                forall|j: int|
                    0 <= j < i ==> after_returns(
                        start[#[trigger] handles@[j]],
                        self.surfaces@[handles@[j]],
                        reached,
                    ),
                forall|s: u64| #[trigger]
                    start.contains_key(s) && !handles@.take(i as int).contains(s)
                        ==> self.surfaces@[s] == start[s],
                images@ == all_returned(start, handles@.take(i as int), reached),
            decreases handles.len() - i,
        {
            let h: u64 = handles[i];
            let ghost mid = self.surfaces@;
            proof {
                assert(handles@.to_set().contains(h));
                assert(on_device_keys(start, device).contains(h));
                assert(handles@.take(i + 1).drop_last() =~= handles@.take(i as int));
                assert(!handles@.take(i as int).contains(h)) by {
                    super::context::lemma_take_to_set(handles@, i as int);
                    assert(!handles@.take(i as int).to_set().contains(h));
                }
                assert(self.surfaces@.dom().contains(h));
            }
            match self.surfaces.remove(&h) {
                Some(mut surface) => {
                    let mut more = surface.take_returned(reached);
                    images.append(&mut more);
                    self.surfaces.insert(h, surface);
                },
                None => {},
            }
            proof {
                assert(self.surfaces@.dom() =~= start.dom());
                assert forall|j: int| 0 <= j < i + 1 implies after_returns(
                    start[#[trigger] handles@[j]],
                    self.surfaces@[handles@[j]],
                    reached,
                ) by {
                    if j < i {
                        assert(handles@[j] != h);
                    }
                }
                assert forall|s: u64| #[trigger]
                    start.contains_key(s) && !handles@.take(i + 1).contains(s) implies self.surfaces@[s]
                    == start[s] by {
                    assert(handles@.take(i + 1)[i as int] == h);
                    if handles@.take(i as int).contains(s) {
                        let k = choose|k: int| 0 <= k < i && handles@.take(i as int)[k] == s;
                        assert(handles@.take(i + 1)[k] == s);
                    }
                    assert(mid[s] == start[s]);
                }
                assert(images@ =~= all_returned(start, handles@.take(i + 1), reached));
            }
            i += 1;
        }
        proof {
            assert(handles@.take(i as int) =~= handles@);
            assert forall|s: u64| #[trigger] start.contains_key(s) implies polled_surface(
                start[s],
                self.surfaces@[s],
                device,
                reached,
            ) by {
                if start[s].device_handle == device {
                    assert(on_device_keys(start, device).contains(s));
                    let j = choose|j: int| 0 <= j < handles@.len() && handles@[j] == s;
                    assert(after_returns(start[handles@[j]], self.surfaces@[handles@[j]], reached));
                } else {
                    assert(!handles@.contains(s)) by {
                        if handles@.contains(s) {
                            assert(on_device_keys(start, device).contains(s));
                        }
                    }
                }
            }
            assert(lists_surfaces(start, device, handles@));
        }
        images
    }

    /// How many images of a surface are acquired and not returned.
    pub fn pending_acquire_count(&self, surface: u64) -> (count: u32)
        ensures
            count == (if self.surfaces@.contains_key(surface) {
                self.surfaces@[surface].pending_acquire_count
            } else {
                0
            }),
    {
        match self.surfaces.get(&surface) {
            Some(s) => s.pending_acquire_count,
            None => 0,
        }
    }

    /// The smallest fence value of an image of a surface that has not been returned.
    pub fn peek_oldest_pending_swapchain_return(&self, surface: u64) -> (oldest: Option<u64>)
        ensures
            match oldest {
                Some(fence) => self.surfaces@.contains_key(surface) && is_oldest(
                    self.surfaces@[surface].pending_swapchain_returns@,
                    fence,
                ),
                None => !self.surfaces@.contains_key(surface)
                    || self.surfaces@[surface].pending_swapchain_returns@.len() == 0,
            },
    {
        match self.surfaces.get(&surface) {
            Some(s) => s.oldest_return(),
            None => None,
        }
    }

    /// The wait for the return of an image of a surface, if the device has not reached
    /// it. `device_sync` is how far the fence of the device has come.
    pub fn take_swapchain_return_blocking_wait(&self, surface: u64, value: u64, device_sync: u64) -> (wait:
        Result<Option<SwapchainWait>, BackendError>)
        ensures
            wait == (if !self.surfaces@.contains_key(surface) {
                Err(BackendError::InvalidSurface { surface })
            } else {
                let s = self.surfaces@[surface];
                if !self.devices@.contains_key(s.device_handle) {
                    Err(BackendError::SurfaceDeviceInvalid { device: s.device_handle })
                } else if device_sync >= value {
                    Ok(None)
                } else {
                    Ok(
                        Some(
                            SwapchainWait {
                                device: s.device_handle,
                                value,
                                issue_token: first_token(s.pending_swapchain_returns@, value),
                            },
                        ),
                    )
                }
            }),
    {
        match self.surfaces.get(&surface) {
            None => Err(BackendError::InvalidSurface { surface }),
            Some(s) => {
                if !self.devices.contains_key(&s.device_handle) {
                    return Err(BackendError::SurfaceDeviceInvalid { device: s.device_handle });
                }
                if device_sync >= value {
                    return Ok(None);
                }
                Ok(
                    Some(
                        SwapchainWait {
                            device: s.device_handle,
                            value,
                            issue_token: s.return_token(value),
                        },
                    ),
                )
            },
        }
    }

    /// Enters a compute pipeline that was made, with what is known of its shader.
    pub fn finish_compute_pipeline(
        &mut self,
        device: u64,
        shader: u64,
        pipeline_state: u64,
        root_signature: u64,
    ) -> (handle: u64)
        requires
            old(self).next_compute_pipeline < u64::MAX,
        ensures
            handle == old(self).next_compute_pipeline,
            final(self).compute_pipelines@.dom() == old(self).compute_pipelines@.dom().insert(
                handle,
            ),
            forall|p: u64| #[trigger]
                old(self).compute_pipelines@.contains_key(p) && p != handle ==> final(self).compute_pipelines@[p] == old(self).compute_pipelines@[p],
            ({
                let made = final(self).compute_pipelines@[handle];
                &&& made.device_handle == device
                &&& made.pipeline_state == pipeline_state
                &&& made.root_signature == root_signature
                &&& if old(self).shaders@.contains_key(shader)
                    && old(self).shaders@[shader].reflection is Some {
                    made.reflection.same(old(self).shaders@[shader].reflection->Some_0)
                } else {
                    made.reflection.nothing()
                }
            }),
            *final(self) == (Dx12Backend {
                compute_pipelines: final(self).compute_pipelines,
                next_compute_pipeline: (handle + 1) as u64,
                ..*old(self)
            }),
    {
        let nothing = ShaderReflection {
            push_constant_categories: Vec::new(),
            push_constant_slot_kinds: Vec::new(),
            binding_element_strides: Vec::new(),
        };
        let reflection = match self.shaders.get(&shader) {
            Some(s) => match &s.reflection {
                Some(r) => r.copied(),
                None => nothing,
            },
            None => nothing,
        };
        let handle: u64 = self.next_compute_pipeline;
        self.next_compute_pipeline = handle + 1;
        self.compute_pipelines.insert(
            handle,
            PipelineState { device_handle: device, pipeline_state, root_signature, reflection },
        );
        assert(self.compute_pipelines@.dom() =~= old(self).compute_pipelines@.dom().insert(handle));
        handle
    }

    /// Forgets a compute pipeline.
    pub fn destroy_compute_pipeline(&mut self, pipeline: u64)
        ensures
            final(self).compute_pipelines@ == old(self).compute_pipelines@.remove(pipeline),
            *final(self) == (Dx12Backend {
                compute_pipelines: final(self).compute_pipelines,
                ..*old(self)
            }),
    {
        self.compute_pipelines.remove(&pipeline);
    }

    /// The access of each slot of a compute pipeline; none for an unknown one.
    pub fn compute_pipeline_slot_access(&self, pipeline: u64) -> (access: Vec<
        Option<ResourceAccess>,
    >)
        ensures
            access@ == (if self.compute_pipelines@.contains_key(pipeline) {
                self.compute_pipelines@[pipeline].reflection.push_constant_slot_kinds@.map_values(
                    |k: Option<BindlessSlotKind>| access_of(k),
                )
            } else {
                Seq::empty()
            }),
    {
        match self.compute_pipelines.get(&pipeline) {
            Some(p) => slot_access_from_push_constant_slot_kinds(
                &p.reflection.push_constant_slot_kinds,
            ),
            None => Vec::new(),
        }
    }

    /// The access of each slot of a graphics pipeline; none for an unknown one.
    pub fn render_pipeline_slot_access(&self, pipeline: u64) -> (access: Vec<
        Option<ResourceAccess>,
    >)
        ensures
            access@ == (if self.pipelines@.contains_key(pipeline) {
                self.pipelines@[pipeline].reflection.push_constant_slot_kinds@.map_values(
                    |k: Option<BindlessSlotKind>| access_of(k),
                )
            } else {
                Seq::empty()
            }),
    {
        match self.pipelines.get(&pipeline) {
            Some(p) => slot_access_from_push_constant_slot_kinds(
                &p.reflection.push_constant_slot_kinds,
            ),
            None => Vec::new(),
        }
    }

    /// How many objects wait for the device of a context.
    pub fn deferred_deletion_pending_count(&self, context: u64) -> (count: usize)
        requires
            self.contexts.contexts@.contains_key(context),
        ensures
            ({
                let device = self.contexts.contexts@[context].device;
                count == (if self.devices@.contains_key(device) {
                    self.devices@[device].pending_deletions
                } else {
                    0
                })
            }),
    {
        let device: u64 = self.contexts.context_device(context);
        match self.devices.get(&device) {
            Some(d) => d.pending_deletions,
            None => 0,
        }
    }
}

/// The largest value that a device is known to have reached by itself.
pub fn device_horizon(retired_floor: u64, device_sync: u64) -> (horizon: u64)
    ensures
        horizon == (if retired_floor >= device_sync {
            retired_floor
        } else {
            device_sync
        }),
{
    if retired_floor >= device_sync {
        retired_floor
    } else {
        device_sync
    }
}

/// Nothing of a destroyed device is left in the tables.
pub proof fn destroyed_device_leaves_nothing<V: DeviceOwned>(map: Map<u64, V>, device: u64, handle: u64)
    ensures
        off_device(map, device).contains_key(handle) ==> off_device(map, device)[handle].on_device()
            != device,
        map.contains_key(handle) && map[handle].on_device() != device ==> off_device(
            map,
            device,
        ).contains_key(handle) && off_device(map, device)[handle] == map[handle],
{
}

/// Every pending image is either returned or still out, never both and never lost.
pub proof fn returns_are_split(pending: Seq<SwapchainReturn>, progress: u64)
    ensures
        returned_images(pending, progress).len() + still_out(pending, progress).len()
            == pending.len(),
        forall|i: int|
            0 <= i < still_out(pending, progress).len() ==> (#[trigger] still_out(
                pending,
                progress,
            )[i]).return_fence > progress,
    decreases pending.len(),
{
    if pending.len() > 0 {
        returns_are_split(pending.drop_last(), progress);
    }
}

} // verus!
