//! Views, reserved buffers, logical sizes and release of buffers.

use vstd::prelude::*;

use super::buffer::{
    align_reserved_cap, buffer_wf, num_tiles_for_bytes, rewrite_root_buffer_descriptors,
    root_descriptors, stride_of, tiles_for, BufferError, BufferTable, DataAccess, DescriptorWrite,
    BUFFER_TILE_BYTES,
};
use super::buffer_resize::{
    all_view_descriptors, moved_to, resize_plan, view_descriptors, views_of, ResizePlan, ViewPatch,
};
use super::context::PendingDeletion;
use super::types::{BufferFlags, BufferState, Tile};

verus! {

broadcast use vstd::std_specs::hash::group_hash_axioms;

/// A buffer after it was given new resources: everything that names it stays.
pub open spec fn is_resized(
    b: BufferState,
    old: BufferState,
    plan: ResizePlan,
    resource: u64,
    readback: Option<u64>,
) -> bool {
    &&& b.device_handle == old.device_handle
    &&& b.resource == resource
    &&& b.size == plan.new_size
    &&& b.allocation_size == plan.allocation_size
    &&& b.bindless_offset == old.bindless_offset
    &&& b.bindless_srv_offset == old.bindless_srv_offset
    &&& b.is_storage == old.is_storage
    &&& b.upload_buffer is None
    &&& b.upload_width == 0
    &&& b.element_stride == old.element_stride
    &&& !b.is_view
    &&& b.coherent_readback == readback
    &&& b.coherent_readback_mapped == (readback is Some)
    &&& b.flags == old.flags
    &&& !b.transient_placed
    &&& b.parent_for_view is None
    &&& b.view_byte_offset is None
    &&& !b.is_reserved
    &&& b.tile_byte_size == 0
    &&& b.reserved_tiles@ == Seq::<Option<Tile>>::empty()
}

/// What a resize leaves to be done.
pub struct Resized {
    /// Descriptors of the buffer itself.
    pub writes: Vec<DescriptorWrite>,
    pub patch: ViewPatch,
    /// The old resources, released once the device no longer uses them.
    pub replaced: PendingDeletion,
    /// The old tiles, which go back with them.
    pub tiles: Vec<Option<Tile>>,
}

/// The fence value that the copy of a resize signals on the device, where `fence_value`
/// is the next one of the device.
pub open spec fn resize_signalled(fence_value: u64) -> int {
    fence_value + 1
}

/// The fence value that the copy of a resize is to signal.
pub fn resize_signal(fence_value: u64) -> (value: u64)
    requires
        fence_value < u64::MAX,
    ensures
        value == resize_signalled(fence_value),
        value == fence_value + 1,
{
    fence_value + 1
}

/// The fence value that the old resources of a resize wait for, and the device's
/// next fence value. Where the resize copied on the device, they wait for the value that
/// the copy signals, and the next value follows it; else they wait for nothing that is
/// still to come.
pub fn resize_fence(fence_value: u64, completed: u64, copied: bool) -> (fence: (u64, u64))
    requires
        fence_value <= u64::MAX - 2,
    ensures
        fence == (if copied {
            (resize_signalled(fence_value) as u64, (fence_value + 2) as u64)
        } else {
            (completed, fence_value)
        }),
        copied ==> fence.0 == resize_signalled(fence_value) && fence.1 == fence.0 + 1,
{
    if copied {
        (fence_value + 1, fence_value + 2)
    } else {
        (completed, fence_value)
    }
}

impl BufferTable {
    /// Gives a buffer the resources created for its resize. Its handle and its
    /// bindless slots stay, and its views move with it.
    pub fn finish_resize(
        &mut self,
        buffer: u64,
        plan: ResizePlan,
        resource: u64,
        readback: Option<u64>,
    ) -> (resized: Resized)
        requires
            old(self).wf(),
            old(self).entries@.contains_key(buffer),
            !old(self).entries@[buffer].is_view,
            plan.new_size <= u64::MAX - 0x2_0000,
            plan == resize_plan(old(self).entries@[buffer], plan.new_size),
        ensures
            final(self).wf(),
            final(self).next_handle == old(self).next_handle,
            final(self).entries@.dom() == old(self).entries@.dom(),
            ({
                let b = old(self).entries@[buffer];
                let views = views_of(old(self).entries@, buffer);
                &&& is_resized(final(self).entries@[buffer], b, plan, resource, readback)
                &&& forall|h: u64| #[trigger]
                    old(self).entries@.contains_key(h) && h != buffer ==> final(self).entries@[h]
                        == if views.contains(h) {
                        moved_to(old(self).entries@[h], resource)
                    } else {
                        old(self).entries@[h]
                    }
                &&& resized.writes@ == root_descriptors(
                    resource,
                    plan.new_size,
                    b.is_storage,
                    stride_of(b.element_stride),
                    b.bindless_offset,
                    b.bindless_srv_offset,
                )
                &&& resized.patch.views@.no_duplicates()
                &&& resized.patch.views@.to_set() == views
                &&& resized.patch.writes@ == all_view_descriptors(
                    old(self).entries@,
                    resized.patch.views@,
                    resource,
                )
                &&& resized.replaced == (PendingDeletion::ReplacedBufferGpu {
                    resource: b.resource,
                    upload_buffer: b.upload_buffer,
                    coherent_readback: b.coherent_readback,
                    reserved: b.is_reserved,
                })
                &&& resized.tiles@ == b.reserved_tiles@
            }),
    {
        let ghost start = self.entries@;
        let removed = self.entries.remove(&buffer);
        let b = match removed {
            Some(b) => b,
            None => {
                assert(false);
                return Resized {
                    writes: Vec::new(),
                    patch: ViewPatch { views: Vec::new(), writes: Vec::new() },
                    replaced: PendingDeletion::StandaloneResource(0),
                    tiles: Vec::new(),
                };
            },
        };
        let ghost before = b;
        let writes = rewrite_root_buffer_descriptors(
            resource,
            plan.new_size,
            b.is_storage,
            b.element_stride,
            b.bindless_offset,
            b.bindless_srv_offset,
        );
        let replaced = PendingDeletion::ReplacedBufferGpu {
            resource: b.resource,
            upload_buffer: b.upload_buffer,
            coherent_readback: b.coherent_readback,
            reserved: b.is_reserved,
        };
        let state = BufferState {
            device_handle: b.device_handle,
            resource,
            size: plan.new_size,
            allocation_size: plan.allocation_size,
            bindless_offset: b.bindless_offset,
            bindless_srv_offset: b.bindless_srv_offset,
            is_storage: b.is_storage,
            upload_buffer: None,
            upload_width: 0,
            element_stride: b.element_stride,
            is_view: false,
            coherent_readback: readback,
            coherent_readback_mapped: readback.is_some(),
            flags: b.flags,
            transient_placed: false,
            parent_for_view: None,
            view_byte_offset: None,
            is_reserved: false,
            tile_byte_size: 0,
            reserved_tiles: Vec::new(),
        };
        let tiles = b.reserved_tiles;
        self.entries.insert(buffer, state);
        let ghost mid = self.entries@;
        assert(mid.dom() =~= start.dom());
        assert(self.wf()) by {
            assert(buffer_wf(mid[buffer]));
        }
        assert(views_of(mid, buffer) =~= views_of(start, buffer));
        let patch = match self.patch_buffer_views_after_parent_resize(buffer) {
            Ok(patch) => patch,
            Err(_) => {
                assert(false);
                ViewPatch { views: Vec::new(), writes: Vec::new() }
            },
        };
        proof {
            lemma_view_descriptors_agree(start, mid, patch.views@, buffer, resource);
        }
        Resized { writes, patch, replaced, tiles }
    }
}

proof fn lemma_view_descriptors_agree(
    a: Map<u64, BufferState>,
    b: Map<u64, BufferState>,
    views: Seq<u64>,
    parent: u64,
    resource: u64,
)
    requires
        forall|i: int| 0 <= i < views.len() ==> views_of(a, parent).contains(#[trigger] views[i]),
        forall|h: u64| #[trigger] views_of(a, parent).contains(h) ==> a[h] == b[h],
    ensures
        all_view_descriptors(a, views, resource) == all_view_descriptors(b, views, resource),
    decreases views.len(),
{
    if views.len() > 0 {
        lemma_view_descriptors_agree(a, b, views.drop_last(), parent, resource);
        assert(views_of(a, parent).contains(views.last()));
    }
}

/// A view about to be created.
#[derive(Clone, Copy, Debug, PartialEq, Eq, Structural)]
pub struct ViewPlan {
    pub parent: u64,
    pub offset: u64,
    pub size: u64,
    pub element_stride: Option<u32>,
    pub first_element: u32,
    pub num_elements: u32,
}

/// Why a view is refused; `None` where it is not.
pub open spec fn view_refused(
    buffers: Map<u64, BufferState>,
    parent: u64,
    offset: u64,
    size: u64,
    element_stride: Option<u32>,
) -> Option<BufferError> {
    let stride = stride_of(element_stride);
    if !buffers.contains_key(parent) {
        Some(BufferError::InvalidParent)
    } else if offset + size > buffers[parent].size {
        Some(BufferError::ExceedsParent)
    } else if !buffers[parent].is_storage {
        Some(BufferError::ParentNotStorage)
    } else if stride == 0 {
        Some(BufferError::ZeroStride)
    } else if (size as u32) % stride != 0 {
        Some(BufferError::NotDivisibleByStride)
    } else if offset % (stride as u64) != 0 {
        Some(BufferError::OffsetNotAligned)
    } else {
        None
    }
}

/// A view as it is entered in the table.
pub open spec fn is_view_created(
    b: BufferState,
    parent: BufferState,
    plan: ViewPlan,
    slots: Option<(u32, u32)>,
) -> bool {
    &&& b.device_handle == parent.device_handle
    &&& b.resource == parent.resource
    &&& b.size == plan.size
    &&& b.allocation_size == parent.allocation_size
    &&& b.bindless_offset == (match slots {
        Some((uav, srv)) => Some(uav),
        None => None,
    })
    &&& b.bindless_srv_offset == (match slots {
        Some((uav, srv)) => Some(srv),
        None => None,
    })
    &&& b.is_storage
    &&& b.upload_buffer is None
    &&& b.upload_width == 0
    &&& b.element_stride == plan.element_stride
    &&& b.is_view
    &&& b.coherent_readback is None
    &&& !b.coherent_readback_mapped
    &&& b.flags == parent.flags
    &&& !b.transient_placed
    &&& b.parent_for_view == Some(plan.parent)
    &&& b.view_byte_offset == Some(plan.offset)
    &&& !b.is_reserved
    &&& b.tile_byte_size == 0
    &&& b.reserved_tiles@ == Seq::<Option<Tile>>::empty()
}

impl BufferTable {
    /// Plans a view of a part of a storage buffer.
    pub fn plan_view(
        &self,
        parent: u64,
        offset: u64,
        size: u64,
        element_stride: Option<u32>,
    ) -> (plan: Result<ViewPlan, BufferError>)
        requires
            offset + size <= u64::MAX,
        ensures
            match view_refused(self.entries@, parent, offset, size, element_stride) {
                Some(e) => plan == Err::<ViewPlan, BufferError>(e),
                None => plan == Ok::<ViewPlan, BufferError>(
                    ViewPlan {
                        parent,
                        offset,
                        size,
                        element_stride,
                        first_element: (offset / (stride_of(element_stride) as u64)) as u32,
                        num_elements: ((size as u32) / stride_of(element_stride)) as u32,
                    },
                ),
            },
    {
        let p = match self.entries.get(&parent) {
            Some(p) => p,
            None => {
                return Err(BufferError::InvalidParent);
            },
        };
        if offset + size > p.size {
            return Err(BufferError::ExceedsParent);
        }
        if !p.is_storage {
            return Err(BufferError::ParentNotStorage);
        }
        let stride: u32 = match element_stride {
            Some(stride) => stride,
            None => 4,
        };
        if stride == 0 {
            return Err(BufferError::ZeroStride);
        }
        if (size as u32) % stride != 0 {
            return Err(BufferError::NotDivisibleByStride);
        }
        if offset % (stride as u64) != 0 {
            return Err(BufferError::OffsetNotAligned);
        }
        Ok(
            ViewPlan {
                parent,
                offset,
                size,
                element_stride,
                first_element: (offset / (stride as u64)) as u32,
                num_elements: (size as u32) / stride,
            },
        )
    }

    /// Enters a planned view. `slots` are its descriptors, unordered access before
    /// shader resource; a view without elements has none.
    pub fn finish_view(&mut self, plan: ViewPlan, slots: Option<(u32, u32)>) -> (created: (
        u64,
        Vec<DescriptorWrite>,
    ))
        requires
            old(self).wf(),
            old(self).next_handle < u64::MAX,
            plan.offset + plan.size <= u64::MAX,
            view_refused(
                old(self).entries@,
                plan.parent,
                plan.offset,
                plan.size,
                plan.element_stride,
            ) is None,
            plan.first_element == (plan.offset / (stride_of(plan.element_stride) as u64)) as u32,
            plan.num_elements == ((plan.size as u32) / stride_of(plan.element_stride)) as u32,
            slots is Some <==> plan.num_elements > 0,
        ensures
            final(self).wf(),
            created.0 == old(self).next_handle,
            final(self).next_handle == old(self).next_handle + 1,
            final(self).entries@.dom() == old(self).entries@.dom().insert(created.0),
            forall|h: u64| #[trigger]
                old(self).entries@.contains_key(h) ==> final(self).entries@[h]
                    == old(self).entries@[h],
            is_view_created(
                final(self).entries@[created.0],
                old(self).entries@[plan.parent],
                plan,
                slots,
            ),
            created.1@ == view_descriptors(
                final(self).entries@[created.0],
                old(self).entries@[plan.parent].resource,
            ),
    {
        let handle: u64 = self.next_handle;
        self.next_handle = handle + 1;
        let stride: u32 = match plan.element_stride {
            Some(stride) => stride,
            None => 4,
        };
        let (device_handle, resource, allocation_size, flags) = match self.entries.get(&plan.parent) {
            Some(p) => (p.device_handle, p.resource, p.allocation_size, p.flags),
            None => {
                assert(false);
                (0, 0, 0, BufferFlags { cpu_readable: false, cpu_writable: false })
            },
        };
        let mut writes: Vec<DescriptorWrite> = Vec::new();
        let (bindless_offset, bindless_srv_offset): (Option<u32>, Option<u32>) = match slots {
            Some((uav, srv)) => {
                writes.push(
                    DescriptorWrite::BufferUav {
                        slot: uav,
                        resource,
                        first_element: plan.first_element,
                        num_elements: plan.num_elements,
                        stride,
                    },
                );
                writes.push(
                    DescriptorWrite::BufferSrv {
                        slot: srv,
                        resource,
                        first_element: plan.first_element,
                        num_elements: plan.num_elements,
                        stride,
                    },
                );
                (Some(uav), Some(srv))
            },
            None => (None, None),
        };
        let state = BufferState {
            device_handle,
            resource,
            size: plan.size,
            allocation_size,
            bindless_offset,
            bindless_srv_offset,
            is_storage: true,
            upload_buffer: None,
            upload_width: 0,
            element_stride: plan.element_stride,
            is_view: true,
            coherent_readback: None,
            coherent_readback_mapped: false,
            flags,
            transient_placed: false,
            parent_for_view: Some(plan.parent),
            view_byte_offset: Some(plan.offset),
            is_reserved: false,
            tile_byte_size: 0,
            reserved_tiles: Vec::new(),
        };
        let ghost entered = state;
        self.entries.insert(handle, state);
        assert(self.entries@.dom() =~= old(self).entries@.dom().insert(handle));
        assert(writes@ =~= view_descriptors(entered, resource));
        (handle, writes)
    }
}

/// What the choice between reserved and committed memory depends on.
#[derive(Clone, Copy, Debug, PartialEq, Eq, Structural)]
pub struct ReservedSupport {
    pub supports_reserved_buffers: bool,
    pub has_tile_pool: bool,
    /// Reserved buffers are switched off.
    pub disabled: bool,
}

/// A buffer with room to grow is reserved where the device can map tiles: for
/// storage that the CPU does not read, and not where reserved buffers are off.
pub open spec fn wants_reserved(
    device: Option<ReservedSupport>,
    initial_size: u64,
    capacity: u64,
    access: DataAccess,
    flags: BufferFlags,
) -> bool {
    device matches Some(d) && !d.disabled && d.supports_reserved_buffers && d.has_tile_pool && capacity
        > initial_size && access is Scattered && !flags.cpu_readable
}

/// Chooses between reserved and committed memory, and gives the capacity to
/// allocate: at least the initial size.
pub fn create_with_capacity(
    device: Option<ReservedSupport>,
    initial_size: u64,
    requested_capacity: u64,
    access: DataAccess,
    flags: BufferFlags,
) -> (choice: (bool, u64))
    ensures
        choice.1 == (if requested_capacity < initial_size {
            initial_size
        } else {
            requested_capacity
        }),
        choice.0 == wants_reserved(device, initial_size, choice.1, access, flags),
{
    let capacity: u64 = if requested_capacity < initial_size {
        initial_size
    } else {
        requested_capacity
    };
    let reserved = match device {
        Some(d) => !d.disabled && d.supports_reserved_buffers && d.has_tile_pool && capacity
            > initial_size && matches!(access, DataAccess::Scattered) && !flags.cpu_readable,
        None => false,
    };
    (reserved, capacity)
}

/// A reserved buffer about to be created.
#[derive(Clone, Copy, Debug, PartialEq, Eq, Structural)]
pub struct ReservedPlan {
    pub device_handle: u64,
    pub size: u64,
    /// Whole tiles.
    pub allocation_size: u64,
    pub tile_count: u64,
    /// Tiles to map at once, from the first on.
    pub initial_tiles: u64,
    pub element_stride: Option<u32>,
    pub flags: BufferFlags,
}

/// Plans a reserved buffer: address space for the capacity in whole tiles, memory
/// for the tiles that the logical size touches.
pub fn plan_reserved(
    device: Option<ReservedSupport>,
    device_handle: u64,
    logical_size: u64,
    capacity: u64,
    element_stride: Option<u32>,
    flags: BufferFlags,
) -> (plan: Result<ReservedPlan, BufferError>)
    requires
        logical_size <= u64::MAX - 0x2_0000,
        capacity <= u64::MAX - 0x2_0000,
    ensures
        match device {
            None => plan == Err::<ReservedPlan, BufferError>(BufferError::InvalidDevice),
            Some(d) => if !d.has_tile_pool {
                plan == Err::<ReservedPlan, BufferError>(BufferError::MissingTilePool)
            } else {
                let most = if capacity < logical_size {
                    logical_size
                } else {
                    capacity
                };
                plan == Ok::<ReservedPlan, BufferError>(
                    ReservedPlan {
                        device_handle,
                        size: logical_size,
                        allocation_size: (tiles_for(most) * BUFFER_TILE_BYTES) as u64,
                        tile_count: tiles_for(most) as u64,
                        initial_tiles: tiles_for(logical_size) as u64,
                        element_stride,
                        flags,
                    },
                )
            },
        },
        plan matches Ok(p) ==> p.size <= p.allocation_size <= u64::MAX - 0x1_0000
            && p.tile_count == tiles_for(p.allocation_size) && p.initial_tiles <= p.tile_count,
{
    let most: u64 = if capacity < logical_size { logical_size } else { capacity };
    let allocation_size: u64 = align_reserved_cap(most);
    let tile_count: u64 = num_tiles_for_bytes(allocation_size);
    let initial_tiles: u64 = num_tiles_for_bytes(logical_size);
    match device {
        None => Err(BufferError::InvalidDevice),
        Some(d) => {
            if !d.has_tile_pool {
                Err(BufferError::MissingTilePool)
            } else {
                Ok(
                    ReservedPlan {
                        device_handle,
                        size: logical_size,
                        allocation_size,
                        tile_count,
                        initial_tiles,
                        element_stride,
                        flags,
                    },
                )
            }
        },
    }
}

/// The tile table of a new reserved buffer: the first tiles mapped, the others not.
pub open spec fn first_tiles(count: int, tiles: Seq<Tile>) -> Seq<Option<Tile>> {
    Seq::new(
        count as nat,
        |i: int|
            if i < tiles.len() {
                Some(tiles[i])
            } else {
                None
            },
    )
}

impl BufferTable {
    /// Enters a reserved buffer whose first tiles have been mapped, and gives the
    /// descriptors to write for it.
    pub fn finish_reserved(
        &mut self,
        plan: ReservedPlan,
        resource: u64,
        tiles: &Vec<Tile>,
        uav: u32,
        srv: u32,
    ) -> (created: (u64, Vec<DescriptorWrite>))
        requires
            old(self).wf(),
            old(self).next_handle < u64::MAX,
            plan.size <= plan.allocation_size <= u64::MAX - 0x1_0000,
            plan.tile_count == tiles_for(plan.allocation_size),
            tiles@.len() == plan.initial_tiles <= plan.tile_count,
            stride_of(plan.element_stride) != 0,
            !plan.flags.cpu_readable,
        ensures
            final(self).wf(),
            created.0 == old(self).next_handle,
            final(self).next_handle == old(self).next_handle + 1,
            final(self).entries@.dom() == old(self).entries@.dom().insert(created.0),
            forall|h: u64| #[trigger]
                old(self).entries@.contains_key(h) ==> final(self).entries@[h]
                    == old(self).entries@[h],
            ({
                let b = final(self).entries@[created.0];
                &&& b.device_handle == plan.device_handle
                &&& b.resource == resource
                &&& b.size == plan.size
                &&& b.allocation_size == plan.allocation_size
                &&& b.bindless_offset == Some(uav)
                &&& b.bindless_srv_offset == Some(srv)
                &&& b.is_storage
                &&& b.upload_buffer is None
                &&& b.upload_width == 0
                &&& b.element_stride == plan.element_stride
                &&& !b.is_view
                &&& b.coherent_readback is None
                &&& !b.coherent_readback_mapped
                &&& b.flags == plan.flags
                &&& !b.transient_placed
                &&& b.parent_for_view is None
                &&& b.view_byte_offset is None
                &&& b.is_reserved
                &&& b.tile_byte_size == BUFFER_TILE_BYTES
                &&& b.reserved_tiles@ == first_tiles(plan.tile_count as int, tiles@)
            }),
            created.1@ == root_descriptors(
                resource,
                plan.size,
                true,
                stride_of(plan.element_stride),
                Some(uav),
                Some(srv),
            ),
    {
        let handle: u64 = self.next_handle;
        self.next_handle = handle + 1;
        let mut reserved_tiles: Vec<Option<Tile>> = Vec::new();
        let mut i: u64 = 0;
        while i < plan.tile_count
            invariant
                i <= plan.tile_count,
                reserved_tiles@ == first_tiles(i as int, tiles@),
            decreases plan.tile_count - i,
        {
            if i < tiles.len() as u64 {
                reserved_tiles.push(Some(tiles[i as usize]));
            } else {
                reserved_tiles.push(None);
            }
            assert(reserved_tiles@ =~= first_tiles(i + 1, tiles@));
            i += 1;
        }
        let writes = rewrite_root_buffer_descriptors(
            resource,
            plan.size,
            true,
            plan.element_stride,
            Some(uav),
            Some(srv),
        );
        let state = BufferState {
            device_handle: plan.device_handle,
            resource,
            size: plan.size,
            allocation_size: plan.allocation_size,
            bindless_offset: Some(uav),
            bindless_srv_offset: Some(srv),
            is_storage: true,
            upload_buffer: None,
            upload_width: 0,
            element_stride: plan.element_stride,
            is_view: false,
            coherent_readback: None,
            coherent_readback_mapped: false,
            flags: plan.flags,
            transient_placed: false,
            parent_for_view: None,
            view_byte_offset: None,
            is_reserved: true,
            tile_byte_size: BUFFER_TILE_BYTES,
            reserved_tiles,
        };
        self.entries.insert(handle, state);
        assert(self.entries@.dom() =~= old(self).entries@.dom().insert(handle));
        (handle, writes)
    }
}

/// What is to be done with a buffer that leaves the table.
pub enum Released {
    /// It was not known, or its device is gone.
    Nothing,
    /// Its memory belongs to another: only its descriptors go, at once.
    Unregister { buffer: u64 },
    /// It goes once the device has reached a fence value.
    Queue {
        fence_value: u64,
        deletion: PendingDeletion,
        /// Read-back resource to unmap first.
        unmap: Option<u64>,
        /// Tiles that go back with it.
        tiles: Vec<Option<Tile>>,
    },
}

impl BufferTable {
    /// Takes a buffer out of the table. Its resources and descriptors go once work
    /// in flight has completed; of a view only the descriptors do.
    pub fn destroy(&mut self, buffer: u64, device_fence: Option<u64>) -> (released: Released)
        requires
            old(self).wf(),
        ensures
            final(self).wf(),
            final(self).next_handle == old(self).next_handle,
            final(self).entries@ == old(self).entries@.remove(buffer),
            ({
                let b = old(self).entries@[buffer];
                if !old(self).entries@.contains_key(buffer) || device_fence is None {
                    released is Nothing
                } else {
                    let last = if device_fence->0 == 0 {
                        0
                    } else {
                        (device_fence->0 - 1) as u64
                    };
                    if b.is_view {
                        &&& released matches Released::Queue { fence_value, deletion, unmap, tiles }
                        &&& fence_value == last
                        &&& deletion == (PendingDeletion::BufferView { buffer_handle: buffer })
                        &&& unmap is None
                        &&& tiles@ == Seq::<Option<Tile>>::empty()
                    } else if b.transient_placed {
                        released == (Released::Unregister { buffer })
                    } else {
                        &&& released matches Released::Queue { fence_value, deletion, unmap, tiles }
                        &&& fence_value == last
                        &&& deletion == (PendingDeletion::Buffer {
                            buffer_handle: buffer,
                            resource: b.resource,
                            upload_buffer: b.upload_buffer,
                            coherent_readback: b.coherent_readback,
                            reserved: b.is_reserved,
                        })
                        &&& unmap == (if b.coherent_readback_mapped {
                            b.coherent_readback
                        } else {
                            None
                        })
                        &&& tiles@ == if b.is_reserved {
                            b.reserved_tiles@
                        } else {
                            Seq::<Option<Tile>>::empty()
                        }
                    }
                }
            }),
    {
        match self.entries.remove(&buffer) {
            None => {
                assert(self.entries@ =~= old(self).entries@.remove(buffer));
                Released::Nothing
            },
            Some(b) => match device_fence {
                None => Released::Nothing,
                Some(fence_value) => {
                    let last: u64 = fence_value.saturating_sub(1);
                    if b.is_view {
                        Released::Queue {
                            fence_value: last,
                            deletion: PendingDeletion::BufferView { buffer_handle: buffer },
                            unmap: None,
                            tiles: Vec::new(),
                        }
                    } else if b.transient_placed {
                        Released::Unregister { buffer }
                    } else {
                        Released::Queue {
                            fence_value: last,
                            deletion: PendingDeletion::Buffer {
                                buffer_handle: buffer,
                                resource: b.resource,
                                upload_buffer: b.upload_buffer,
                                coherent_readback: b.coherent_readback,
                                reserved: b.is_reserved,
                            },
                            unmap: if b.coherent_readback_mapped {
                                b.coherent_readback
                            } else {
                                None
                            },
                            tiles: if b.is_reserved {
                                b.reserved_tiles
                            } else {
                                Vec::new()
                            },
                        }
                    }
                },
            },
        }
    }
}

} // verus!
