//! Buffers: creation, views, resizing and release. Each operation that needs
//! Direct3D is split: a plan says what to allocate or copy, and a second function
//! takes what Direct3D gave and updates the table.

use std::collections::HashMap;
use vstd::prelude::*;

use super::types::{BufferFlags, BufferState, Tile};

verus! {

broadcast use vstd::std_specs::hash::group_hash_axioms;

/// Bytes of a tile of a reserved buffer.
pub const BUFFER_TILE_BYTES: u32 = 0x1_0000;

/// How shaders reach a buffer.
#[derive(Clone, Copy, Debug, PartialEq, Eq, Structural)]
pub enum DataAccess {
    /// A storage buffer, read and written anywhere.
    Scattered,
    /// A uniform buffer, read alike by every thread.
    Broadcast,
}

/// Memory that a resource lies in.
#[derive(Clone, Copy, Debug, PartialEq, Eq, Structural)]
pub enum HeapType {
    Default,
    Upload,
    Readback,
}

/// State that a resource is created in.
#[derive(Clone, Copy, Debug, PartialEq, Eq, Structural)]
pub enum InitialState {
    Common,
    GenericRead,
    CopyDest,
}

/// A committed buffer resource to create.
#[derive(Clone, Copy, Debug, PartialEq, Eq, Structural)]
pub struct ResourcePlan {
    pub heap: HeapType,
    pub width: u64,
    pub allow_unordered_access: bool,
    pub initial_state: InitialState,
}

/// The resources of a buffer: its own, and the one its contents are read back
/// through.
#[derive(Clone, Copy, Debug, PartialEq, Eq, Structural)]
pub struct PairPlan {
    pub main: ResourcePlan,
    pub readback: Option<ResourcePlan>,
}

/// Why a buffer operation is refused.
#[derive(Clone, Copy, Debug, PartialEq, Eq, Structural)]
pub enum BufferError {
    InvalidBuffer,
    InvalidParent,
    InvalidDevice,
    DifferentDevice,
    IsView,
    TransientPlaced,
    WithinReservedCapacity,
    CpuReadableNotStorage,
    NotDivisibleByStride,
    ExceedsAllocation,
    ExceedsParent,
    ZeroSize,
    ZeroStride,
    OffsetNotAligned,
    ViewOffsetMissing,
    ParentNotStorage,
    OutOfBounds,
    NotCpuReadable,
    NotMapped,
    MissingReadback,
    MissingTilePool,
}

/// A descriptor to write into the bindless heap.
#[derive(Clone, Copy, Debug, PartialEq, Eq, Structural)]
pub enum DescriptorWrite {
    BufferUav { slot: u32, resource: u64, first_element: u32, num_elements: u32, stride: u32 },
    BufferSrv { slot: u32, resource: u64, first_element: u32, num_elements: u32, stride: u32 },
    BufferCbv { slot: u32, resource: u64, size: u32 },
}

/// `x` rounded up to a multiple of 256.
pub open spec fn align_256(x: int) -> int {
    (x + 255) / 256 * 256
}

fn round_up_256(x: u64) -> (rounded: u64)
    requires
        x <= u64::MAX - 255,
    ensures
        rounded == align_256(x as int),
{
    (x + 255) / 256 * 256
}

/// Width of a uniform buffer: as asked for, but wide enough for the constant
/// buffer view, whose size is a multiple of 256 bytes.
pub fn uniform_buffer_allocation_width(logical_size: u64, requested_width: u64) -> (width: u64)
    requires
        logical_size <= requested_width,
        logical_size <= u64::MAX - 255,
    ensures
        width == (if requested_width < align_256(logical_size as int) {
            align_256(logical_size as int)
        } else {
            requested_width as int
        }),
        width >= logical_size,
{
    let range: u64 = round_up_256(logical_size);
    if requested_width < range {
        range
    } else {
        requested_width
    }
}

/// The main resource of a buffer: unordered access in device memory for storage,
/// upload memory otherwise.
pub open spec fn main_plan(width: u64, is_storage: bool) -> ResourcePlan {
    if is_storage {
        ResourcePlan {
            heap: HeapType::Default,
            width,
            allow_unordered_access: true,
            initial_state: InitialState::Common,
        }
    } else {
        ResourcePlan {
            heap: HeapType::Upload,
            width,
            allow_unordered_access: false,
            initial_state: InitialState::GenericRead,
        }
    }
}

/// The resource that a buffer is read back through.
pub open spec fn readback_plan(width: u64) -> ResourcePlan {
    ResourcePlan {
        heap: HeapType::Readback,
        width,
        allow_unordered_access: false,
        initial_state: InitialState::CopyDest,
    }
}

/// The resources of a buffer.
pub open spec fn pair_plan(width: u64, is_storage: bool, cpu_readable: bool) -> PairPlan {
    PairPlan {
        main: main_plan(width, is_storage),
        readback: if cpu_readable {
            Some(readback_plan(width))
        } else {
            None
        },
    }
}

/// Plans the resources of a buffer. Only storage buffers can be read by the CPU.
pub fn alloc_committed_buffer_pair(size: u64, is_storage: bool, cpu_readable: bool) -> (plan: Result<
    PairPlan,
    BufferError,
>)
    ensures
        plan == (if cpu_readable && !is_storage {
            Err::<PairPlan, BufferError>(BufferError::CpuReadableNotStorage)
        } else {
            Ok(pair_plan(size, is_storage, cpu_readable))
        }),
{
    if cpu_readable && !is_storage {
        return Err(BufferError::CpuReadableNotStorage);
    }
    let main = if is_storage {
        ResourcePlan {
            heap: HeapType::Default,
            width: size,
            allow_unordered_access: true,
            initial_state: InitialState::Common,
        }
    } else {
        ResourcePlan {
            heap: HeapType::Upload,
            width: size,
            allow_unordered_access: false,
            initial_state: InitialState::GenericRead,
        }
    };
    let readback = if cpu_readable {
        Some(
            ResourcePlan {
                heap: HeapType::Readback,
                width: size,
                allow_unordered_access: false,
                initial_state: InitialState::CopyDest,
            },
        )
    } else {
        None
    };
    Ok(PairPlan { main, readback })
}

/// The stride of a buffer's elements; four bytes where none is given.
pub open spec fn stride_of(element_stride: Option<u32>) -> u32 {
    match element_stride {
        Some(stride) => stride,
        None => 4,
    }
}

fn stride_or_default(element_stride: Option<u32>) -> (stride: u32)
    ensures
        stride == stride_of(element_stride),
{
    match element_stride {
        Some(stride) => stride,
        None => 4,
    }
}

/// The descriptors of a whole buffer over a resource: unordered access view, then
/// shader resource view, for storage; constant buffer view otherwise. Only slots
/// that the buffer has are written.
pub open spec fn root_descriptors(
    resource: u64,
    size: u64,
    is_storage: bool,
    stride: u32,
    slot: Option<u32>,
    srv_slot: Option<u32>,
) -> Seq<DescriptorWrite> {
    if is_storage {
        (match slot {
            Some(slot) => seq![
                DescriptorWrite::BufferUav {
                    slot,
                    resource,
                    first_element: 0,
                    num_elements: ((size as u32) / stride) as u32,
                    stride,
                },
            ],
            None => Seq::empty(),
        }) + (match srv_slot {
            Some(slot) => seq![
                DescriptorWrite::BufferSrv {
                    slot,
                    resource,
                    first_element: 0,
                    num_elements: ((size as u32) / stride) as u32,
                    stride,
                },
            ],
            None => Seq::empty(),
        })
    } else {
        match slot {
            Some(slot) => seq![
                DescriptorWrite::BufferCbv { slot, resource, size: align_256(size as int) as u32 },
            ],
            None => Seq::empty(),
        }
    }
}

/// Writes the descriptors of a buffer over a resource of a size, in the slots that
/// the buffer has.
pub fn rewrite_root_buffer_descriptors(
    resource: u64,
    size: u64,
    is_storage: bool,
    element_stride: Option<u32>,
    slot: Option<u32>,
    srv_slot: Option<u32>,
) -> (writes: Vec<DescriptorWrite>)
    requires
        is_storage ==> stride_of(element_stride) != 0,
        size <= u64::MAX - 255,
    ensures
        writes@ == root_descriptors(
            resource,
            size,
            is_storage,
            stride_of(element_stride),
            slot,
            srv_slot,
        ),
{
    let mut writes: Vec<DescriptorWrite> = Vec::new();
    let stride: u32 = stride_or_default(element_stride);
    if is_storage {
        let num_elements: u32 = (size as u32) / stride;
        match slot {
            Some(slot) => {
                writes.push(
                    DescriptorWrite::BufferUav {
                        slot,
                        resource,
                        first_element: 0,
                        num_elements,
                        stride,
                    },
                );
            },
            None => {},
        }
        match srv_slot {
            Some(slot) => {
                writes.push(
                    DescriptorWrite::BufferSrv {
                        slot,
                        resource,
                        first_element: 0,
                        num_elements,
                        stride,
                    },
                );
            },
            None => {},
        }
    } else {
        match slot {
            Some(slot) => {
                let size: u32 = round_up_256(size) as u32;
                writes.push(DescriptorWrite::BufferCbv { slot, resource, size });
            },
            None => {},
        }
    }
    assert(writes@ =~= root_descriptors(resource, size, is_storage, stride, slot, srv_slot));
    writes
}

/// Buffers by handle.
pub struct BufferTable {
    pub entries: HashMap<u64, BufferState>,
    pub next_handle: u64,
}

/// A buffer's view of its parent is well formed: the view starts at a multiple of
/// its element size, which is not zero.
pub open spec fn view_aligned(b: BufferState) -> bool {
    b.view_byte_offset matches Some(offset) && stride_of(b.element_stride) != 0 && offset
        % (stride_of(b.element_stride) as u64) == 0
}

/// What holds of each buffer of a table: its contents fit its allocation, only
/// storage is read back by the CPU, and a view is an aligned view of storage.
pub open spec fn buffer_wf(b: BufferState) -> bool {
    &&& b.size <= b.allocation_size
    &&& b.flags.cpu_readable ==> b.is_storage
    &&& b.is_storage ==> stride_of(b.element_stride) != 0
    &&& b.is_view ==> b.is_storage && b.parent_for_view is Some && view_aligned(b)
    &&& b.is_reserved ==> b.is_storage && b.tile_byte_size == BUFFER_TILE_BYTES
        && b.reserved_tiles@.len() == tiles_for(b.allocation_size)
    &&& b.allocation_size <= u64::MAX - 0x1_0000
}

/// Tiles that hold a number of bytes.
pub open spec fn tiles_for(bytes: u64) -> int {
    (bytes + BUFFER_TILE_BYTES - 1) / (BUFFER_TILE_BYTES as int)
}

/// Tiles that hold a number of bytes.
pub fn num_tiles_for_bytes(bytes: u64) -> (tiles: u64)
    requires
        bytes <= u64::MAX - 0x1_0000,
    ensures
        tiles == tiles_for(bytes),
{
    (bytes + (BUFFER_TILE_BYTES as u64 - 1)) / (BUFFER_TILE_BYTES as u64)
}

/// A capacity rounded up to whole tiles.
pub fn align_reserved_cap(bytes: u64) -> (aligned: u64)
    requires
        bytes <= u64::MAX - 0x1_0000,
    ensures
        aligned == tiles_for(bytes) * BUFFER_TILE_BYTES,
        bytes <= aligned < bytes + BUFFER_TILE_BYTES,
        tiles_for(aligned) == tiles_for(bytes),
{
    let tiles: u64 = num_tiles_for_bytes(bytes);
    tiles * (BUFFER_TILE_BYTES as u64)
}

impl BufferTable {
    /// Every buffer is well formed, and handles to come are new.
    pub open spec fn wf(self) -> bool {
        &&& forall|h: u64| #[trigger]
            self.entries@.contains_key(h) ==> buffer_wf(self.entries@[h]) && h < self.next_handle
    }

    /// A table without buffers.
    pub fn new() -> (table: BufferTable)
        ensures
            table.wf(),
            table.entries@ == Map::<u64, BufferState>::empty(),
            table.next_handle == 1,
    {
        BufferTable { entries: HashMap::new(), next_handle: 1 }
    }

    /// Logical size of a buffer; zero for an unknown one.
    pub fn size(&self, buffer: u64) -> (size: u64)
        ensures
            size == (if self.entries@.contains_key(buffer) {
                self.entries@[buffer].size
            } else {
                0
            }),
    {
        match self.entries.get(&buffer) {
            Some(b) => b.size,
            None => 0,
        }
    }

    /// Allocated size of a buffer; zero for an unknown one.
    pub fn capacity(&self, buffer: u64) -> (capacity: u64)
        ensures
            capacity == (if self.entries@.contains_key(buffer) {
                self.entries@[buffer].allocation_size
            } else {
                0
            }),
    {
        match self.entries.get(&buffer) {
            Some(b) => b.allocation_size,
            None => 0,
        }
    }

    /// Bindless index of a buffer, where it has one.
    pub fn bindless_index(&self, buffer: u64) -> (index: Option<u32>)
        ensures
            index == (if self.entries@.contains_key(buffer) {
                self.entries@[buffer].bindless_offset
            } else {
                None
            }),
    {
        match self.entries.get(&buffer) {
            Some(b) => b.bindless_offset,
            None => None,
        }
    }

    /// Bindless index under which a buffer is read: its shader resource view where
    /// it has one, else its other view.
    pub fn bindless_srv_index(&self, buffer: u64) -> (index: Option<u32>)
        ensures
            index == (if !self.entries@.contains_key(buffer) {
                None
            } else if self.entries@[buffer].bindless_srv_offset is Some {
                self.entries@[buffer].bindless_srv_offset
            } else {
                self.entries@[buffer].bindless_offset
            }),
    {
        match self.entries.get(&buffer) {
            Some(b) => match b.bindless_srv_offset {
                Some(offset) => Some(offset),
                None => b.bindless_offset,
            },
            None => None,
        }
    }
}

/// A buffer about to be created.
#[derive(Clone, Copy, Debug, PartialEq, Eq, Structural)]
pub struct CreatePlan {
    pub device_handle: u64,
    pub size: u64,
    pub allocation_size: u64,
    pub access: DataAccess,
    pub element_stride: Option<u32>,
    pub flags: BufferFlags,
    pub resources: PairPlan,
}

/// What there was no memory for.
#[derive(Clone, Copy, Debug, PartialEq, Eq, Structural)]
pub enum OversubscribedReason {
    BufferHeap,
}

/// What is signaled where there was no memory.
#[derive(Clone, Copy, Debug, PartialEq, Eq, Structural)]
pub struct Oversubscribed {
    pub reason: OversubscribedReason,
    /// The bytes that were asked for.
    pub size_hint: u64,
}

impl CreatePlan {
    /// What is signaled where the resource of the buffer cannot be made.
    pub fn oversubscribed(&self) -> (signal: Oversubscribed)
        ensures
            signal == (Oversubscribed {
                reason: OversubscribedReason::BufferHeap,
                size_hint: self.allocation_size,
            }),
    {
        Oversubscribed {
            reason: OversubscribedReason::BufferHeap,
            size_hint: self.allocation_size,
        }
    }
}

/// The width that a buffer is allocated with.
pub open spec fn allocation_width(logical_size: u64, allocation_size: u64, access: DataAccess) -> int {
    if access is Broadcast && allocation_size < align_256(logical_size as int) {
        align_256(logical_size as int)
    } else {
        allocation_size as int
    }
}

/// Plans a buffer: where the device is known, and only storage is readable by the
/// CPU.
pub fn plan_create(
    device_known: bool,
    device_handle: u64,
    logical_size: u64,
    allocation_size: u64,
    access: DataAccess,
    element_stride: Option<u32>,
    flags: BufferFlags,
) -> (plan: Result<CreatePlan, BufferError>)
    requires
        logical_size <= allocation_size,
        allocation_size <= u64::MAX - 0x2_0000,
    ensures
        plan == (if !device_known {
            Err::<CreatePlan, BufferError>(BufferError::InvalidDevice)
        } else if flags.cpu_readable && access is Broadcast {
            Err(BufferError::CpuReadableNotStorage)
        } else {
            Ok(
                CreatePlan {
                    device_handle,
                    size: logical_size,
                    allocation_size: allocation_width(logical_size, allocation_size, access) as u64,
                    access,
                    element_stride,
                    flags,
                    resources: pair_plan(
                        allocation_width(logical_size, allocation_size, access) as u64,
                        access is Scattered,
                        flags.cpu_readable,
                    ),
                },
            )
        }),
        plan matches Ok(p) ==> p.size <= p.allocation_size <= u64::MAX - 0x1_0000
            && (access is Broadcast ==> align_256(p.size as int) <= p.allocation_size),
{
    let is_storage = matches!(access, DataAccess::Scattered);
    let width: u64 = if is_storage {
        allocation_size
    } else {
        uniform_buffer_allocation_width(logical_size, allocation_size)
    };
    if !device_known {
        return Err(BufferError::InvalidDevice);
    }
    match alloc_committed_buffer_pair(width, is_storage, flags.cpu_readable) {
        Ok(resources) => Ok(
            CreatePlan {
                device_handle,
                size: logical_size,
                allocation_size: width,
                access,
                element_stride,
                flags,
                resources,
            },
        ),
        Err(e) => Err(e),
    }
}

/// A committed buffer as it is entered in the table.
pub open spec fn is_created(
    b: BufferState,
    plan: CreatePlan,
    resource: u64,
    readback: Option<u64>,
    slot: u32,
    srv_slot: u32,
) -> bool {
    &&& b.device_handle == plan.device_handle
    &&& b.resource == resource
    &&& b.size == plan.size
    &&& b.allocation_size == plan.allocation_size
    &&& b.bindless_offset == Some(slot)
    &&& b.bindless_srv_offset == if plan.access is Scattered {
        Some(srv_slot)
    } else {
        None
    }
    &&& b.is_storage == (plan.access is Scattered)
    &&& b.upload_buffer is None
    &&& b.upload_width == 0
    &&& b.element_stride == plan.element_stride
    &&& !b.is_view
    &&& b.coherent_readback == readback
    &&& b.coherent_readback_mapped == (readback is Some)
    &&& b.flags == plan.flags
    &&& !b.transient_placed
    &&& b.parent_for_view is None
    &&& b.view_byte_offset is None
    &&& !b.is_reserved
    &&& b.tile_byte_size == 0
    &&& b.reserved_tiles@ == Seq::<Option<Tile>>::empty()
}

impl BufferTable {
    /// Enters a buffer whose resources have been created, and gives the descriptors
    /// to write for it. Uniform buffers have no shader resource view.
    pub fn finish_create(
        &mut self,
        plan: CreatePlan,
        resource: u64,
        readback: Option<u64>,
        slot: u32,
        srv_slot: u32,
    ) -> (created: (u64, Vec<DescriptorWrite>))
        requires
            old(self).wf(),
            old(self).next_handle < u64::MAX,
            plan.size <= plan.allocation_size <= u64::MAX - 0x1_0000,
            plan.access is Scattered ==> stride_of(plan.element_stride) != 0,
            plan.flags.cpu_readable ==> plan.access is Scattered,
        ensures
            final(self).wf(),
            created.0 == old(self).next_handle,
            final(self).next_handle == old(self).next_handle + 1,
            final(self).entries@.dom() == old(self).entries@.dom().insert(created.0),
            forall|h: u64| #[trigger]
                old(self).entries@.contains_key(h) ==> final(self).entries@[h]
                    == old(self).entries@[h],
            is_created(
                final(self).entries@[created.0],
                plan,
                resource,
                readback,
                slot,
                srv_slot,
            ),
            created.1@ == root_descriptors(
                resource,
                plan.size,
                plan.access is Scattered,
                stride_of(plan.element_stride),
                Some(slot),
                Some(srv_slot),
            ),
    {
        let handle: u64 = self.next_handle;
        self.next_handle = handle + 1;
        let is_storage = matches!(plan.access, DataAccess::Scattered);
        let writes = rewrite_root_buffer_descriptors(
            resource,
            plan.size,
            is_storage,
            plan.element_stride,
            Some(slot),
            Some(srv_slot),
        );
        let state = BufferState {
            device_handle: plan.device_handle,
            resource,
            size: plan.size,
            allocation_size: plan.allocation_size,
            bindless_offset: Some(slot),
            bindless_srv_offset: if is_storage {
                Some(srv_slot)
            } else {
                None
            },
            is_storage,
            upload_buffer: None,
            upload_width: 0,
            element_stride: plan.element_stride,
            is_view: false,
            coherent_readback: readback,
            coherent_readback_mapped: readback.is_some(),
            flags: plan.flags,
            transient_placed: false,
            parent_for_view: None,
            view_byte_offset: None,
            is_reserved: false,
            tile_byte_size: 0,
            reserved_tiles: Vec::new(),
        };
        self.entries.insert(handle, state);
        assert(self.entries@.dom() =~= old(self).entries@.dom().insert(handle));
        (handle, writes)
    }
}

} // verus!
