//! What the operations of the buffer table do: reads and writes by the CPU, clears,
//! views, resizes and releases.

use vstd::prelude::*;

use super::buffer::{
    plan_create, BufferError, BufferTable, CreatePlan, DataAccess, DescriptorWrite, HeapType,
    ResourcePlan,
};
use super::buffer_io::{
    chunk_count, readback_calls, upload_chunk, ReadPlan, WritePlan, UPLOAD_CHUNK_SIZE,
};
use super::buffer_lifecycle::{
    plan_reserved, view_refused, Released, ReservedPlan, ReservedSupport, Resized, ViewPlan,
};
use super::buffer_resize::{ResizePlan, ViewPatch};
use super::buffer_tiles::{first_unused_tile, TileChange, UnusedTiles};
use super::command_list::Call;
use super::context::PendingDeletion;
use super::descriptor_laws::{
    covers, created_view_covers_its_bytes, element_bytes, rewritten_views_cover_their_bytes,
    slot_of, tellable, views_name_their_parent, written,
};
use super::tile_laws::{
    first_unused_tile_holds_nothing_before, freed_tiles_are_those_between, tiles_hold_their_bytes,
};
use super::types::{BufferFlags, BufferState, Tile};

verus! {

broadcast use vstd::std_specs::hash::group_hash_axioms;

/// A read that is planned is one of the buffer's own resource and stays within its size. It
/// goes through the buffer's own read-back resource where the buffer has one for the CPU,
/// of which all is copied, through a mapping where the buffer is no storage, and through a
/// resource of the read's length otherwise.
pub proof fn planned_read_is_of_the_buffer(
    table: &BufferTable,
    buffer: u64,
    device_known: bool,
    len: u64,
    plan: Result<ReadPlan, BufferError>,
)
    requires
        call_ensures(BufferTable::read_to_cpu, (table, buffer, device_known, len), plan),
    ensures
        plan matches Ok(p) ==> {
            let b = table.entries@[buffer];
            &&& table.entries@.contains_key(buffer)
            &&& len <= b.size
            &&& match p {
                ReadPlan::Coherent { resource, readback, size } => {
                    &&& resource == b.resource
                    &&& b.coherent_readback == Some(readback)
                    &&& b.coherent_readback_mapped
                    &&& size == b.size
                    &&& b.is_storage && b.flags.cpu_readable && device_known
                },
                ReadPlan::Staged { resource, len: staged } => {
                    &&& resource == b.resource
                    &&& staged == len
                    &&& b.is_storage && device_known
                    &&& !b.flags.cpu_readable || b.coherent_readback is None
                },
                ReadPlan::Mapped { resource, len: mapped } => {
                    &&& resource == b.resource
                    &&& mapped == len
                    &&& !b.is_storage
                },
            }
        },
        plan matches Err(e) ==> match e {
            BufferError::InvalidBuffer => !table.entries@.contains_key(buffer),
            BufferError::OutOfBounds => table.entries@.contains_key(buffer) && len
                > table.entries@[buffer].size,
            BufferError::InvalidDevice => table.entries@.contains_key(buffer) && !device_known
                && table.entries@[buffer].is_storage,
            BufferError::NotMapped => table.entries@.contains_key(buffer)
                && table.entries@[buffer].coherent_readback is Some
                && !table.entries@[buffer].coherent_readback_mapped,
            _ => false,
        },
{
}

/// A write that is planned through a mapping is of the bytes asked for, in the buffer's own
/// resource.
pub proof fn mapped_write_is_of_the_bytes_asked_for(
    table: &BufferTable,
    buffer: u64,
    offset: u64,
    len: u64,
    fence_value: u64,
    plan: Result<WritePlan, BufferError>,
)
    requires
        call_ensures(BufferTable::plan_write, (table, buffer, offset, len, fence_value), plan),
    ensures
        plan matches Ok(WritePlan::Mapped { resource: r, offset: o, size: s }) ==> {
            &&& table.entries@.contains_key(buffer)
            &&& !table.entries@[buffer].is_storage
            &&& r == table.entries@[buffer].resource
            &&& o == offset
            &&& s == len
            &&& offset + len <= table.entries@[buffer].size
        },
        plan matches Ok(WritePlan::Nothing) ==> len == 0,
        len == 0 ==> plan is Ok,
        plan matches Err(e) ==> match e {
            BufferError::InvalidBuffer => !table.entries@.contains_key(buffer),
            BufferError::OutOfBounds => table.entries@.contains_key(buffer) && offset + len
                > table.entries@[buffer].size,
            _ => false,
        },
{
}

/// A write of a storage buffer goes through an upload buffer in chunks that follow each
/// other without a gap, from the first byte of the data to the last; each byte goes to the
/// place that lies as far behind the offset as it lies in the data. An upload buffer that
/// the buffer has is used where no chunk is larger. Each chunk signals a value of its own,
/// later than that of the chunk before it.
pub proof fn staged_write_moves_every_byte(
    table: &BufferTable,
    buffer: u64,
    offset: u64,
    len: u64,
    fence_value: u64,
    plan: Result<WritePlan, BufferError>,
    i: int,
)
    requires
        call_ensures(BufferTable::plan_write, (table, buffer, offset, len, fence_value), plan),
        offset + len <= u64::MAX,
        fence_value + 2 * chunk_count(len as int) <= u64::MAX,
        plan is Ok,
        plan->Ok_0 is Staged,
        0 <= i < plan->Ok_0->chunks@.len(),
    ensures
        ({
            let b = table.entries@[buffer];
            let chunks = plan->Ok_0->chunks@;
            &&& table.entries@.contains_key(buffer)
            &&& b.is_storage
            &&& plan->Ok_0->Staged_resource == b.resource
            &&& chunks[0].first == 0
            &&& chunks.last().first + chunks.last().size == len
            &&& i + 1 < chunks.len() ==> chunks[i + 1].first == chunks[i].first + chunks[i].size
            &&& i + 1 < chunks.len() ==> chunks[i + 1].fence_value > chunks[i].fence_value
            &&& chunks[i].dst_offset == offset + chunks[i].first
            &&& chunks[i].dst_offset + chunks[i].size <= b.size
            &&& fence_value < chunks[i].fence_value < plan->Ok_0->next_fence_value
            &&& plan->Ok_0->upload matches Some(upload) ==> b.upload_buffer == Some(upload)
                && chunks[i].size <= b.upload_width
            &&& plan->Ok_0->upload is None ==> chunks[i].size <= plan->Ok_0->width
            &&& b.upload_buffer is Some && plan->Ok_0->width <= b.upload_width
                ==> plan->Ok_0->upload is Some
        }),
{
    let n = chunk_count(len as int);
    let last = n - 1;
    let chunks = plan->Ok_0->chunks@;
    assert(chunks.len() == n);
    assert(chunks[i] == upload_chunk(offset as int, len as int, fence_value as int, i));
    assert(chunks[0] == upload_chunk(offset as int, len as int, fence_value as int, 0));
    assert(chunks[last] == upload_chunk(offset as int, len as int, fence_value as int, last));
    if i + 1 < n {
        assert(chunks[i + 1] == upload_chunk(offset as int, len as int, fence_value as int, i + 1));
    }
}

/// A clear of a buffer that is no storage zeroes, through a mapping, the bytes asked for,
/// or those from the offset to the end where no size is given. A clear of a storage buffer
/// that stays in its memory leaves zeros there.
pub proof fn planned_clear_is_of_the_bytes_asked_for(
    table: &BufferTable,
    buffer: u64,
    zero: Option<u64>,
    offset: u64,
    size: u64,
    calls: Result<Vec<Call>, BufferError>,
)
    requires
        call_ensures(BufferTable::clear, (table, buffer, zero, offset, size), calls),
        calls is Ok,
    ensures
        ({
            let b = table.entries@[buffer];
            let end = if size != 0 {
                offset + size
            } else if b.size > offset {
                b.size as int
            } else {
                offset as int
            };
            &&& table.entries@.contains_key(buffer)
            &&& end <= b.size
            &&& end == offset ==> calls->Ok_0@.len() == 0
            &&& end > offset && !b.is_storage ==> calls->Ok_0@ == seq![
                Call::ZeroMapped {
                    resource: b.resource,
                    offset,
                    size: (end - offset) as u64,
                },
            ]
            &&& end > offset && b.is_storage ==> zero is Some
        }),
{
}

/// The copy into a read-back resource is recorded for CPU-readable storage alone, behind
/// what was recorded before.
pub proof fn readback_is_recorded_for_readable_storage(
    table: &BufferTable,
    buffer: u64,
    calls: &mut Vec<Call>,
    result: Result<(), BufferError>,
)
    requires
        call_ensures(BufferTable::emit_copy_coherent_readback, (table, buffer, calls), result),
    ensures
        old(calls)@.len() <= final(calls)@.len(),
        final(calls)@.take(old(calls)@.len() as int) == old(calls)@,
        result is Err ==> final(calls)@ == old(calls)@,
        result is Ok ==> table.entries@.contains_key(buffer),
        table.entries@.contains_key(buffer) && !(table.entries@[buffer].flags.cpu_readable
            && table.entries@[buffer].is_storage) ==> result is Ok && final(calls)@ == old(calls)@,
        table.entries@.contains_key(buffer) && table.entries@[buffer].flags.cpu_readable
            && table.entries@[buffer].is_storage ==> (result is Ok
            <==> table.entries@[buffer].coherent_readback is Some),
        final(calls)@.len() > old(calls)@.len() ==> exists|k: int|
            0 <= k < final(calls)@.len() && (#[trigger] final(calls)@[k] matches Call::CopyBufferRegion {
                dst,
                dst_offset,
                src,
                src_offset,
                size,
            } && Some(dst) == table.entries@[buffer].coherent_readback && src
                == table.entries@[buffer].resource && dst_offset == 0 && src_offset == 0 && size
                == table.entries@[buffer].size),
{
    if final(calls)@.len() > old(calls)@.len() {
        let b = table.entries@[buffer];
        let added = readback_calls(b.resource, b.coherent_readback->0, b.size);
        let n = old(calls)@.len() as int;
        assert(final(calls)@[n + 1] == added[1]);
        assert(final(calls)@[n + 2] == added[2]);
    }
}

/// A read of the persistent mapping is let through exactly where the buffer is readable,
/// mapped, and holds the bytes.
pub proof fn mapping_is_read_within_the_buffer(
    table: &BufferTable,
    buffer: u64,
    offset: u64,
    len: u64,
    result: Result<(), BufferError>,
)
    requires
        call_ensures(BufferTable::read_coherent, (table, buffer, offset, len), result),
    ensures
        result is Ok <==> {
            &&& table.entries@.contains_key(buffer)
            &&& table.entries@[buffer].flags.cpu_readable
            &&& table.entries@[buffer].coherent_readback_mapped
            &&& offset + len <= table.entries@[buffer].size
        },
{
}

/// A new upload buffer is noted with its width for its own buffer alone, and the one it
/// takes the place of waits for all that was submitted to the device before.
pub proof fn replaced_upload_buffer_waits_for_the_device(
    table: &mut BufferTable,
    buffer: u64,
    upload: u64,
    width: u64,
    device_fence: u64,
    replaced: Option<(u64, PendingDeletion)>,
    other: u64,
)
    requires
        call_ensures(
            BufferTable::set_upload_buffer,
            (table, buffer, upload, width, device_fence),
            replaced,
        ),
        old(table).entries@.contains_key(buffer),
    ensures
        final(table).entries@[buffer].upload_buffer == Some(upload),
        final(table).entries@[buffer].upload_width == width,
        final(table).entries@[buffer].resource == old(table).entries@[buffer].resource,
        final(table).entries@[buffer].size == old(table).entries@[buffer].size,
        other != buffer ==> (final(table).entries@.contains_key(other)
            <==> old(table).entries@.contains_key(other)) && final(table).entries@[other]
            == old(table).entries@[other],
        replaced is Some <==> old(table).entries@[buffer].upload_buffer is Some,
        replaced matches Some(r) ==> {
            &&& device_fence > 0 ==> r.0 + 1 == device_fence
            &&& device_fence == 0 ==> r.0 == 0
            &&& r.1 matches PendingDeletion::StandaloneResource(old_upload)
            &&& old(table).entries@[buffer].upload_buffer == Some(old_upload)
        },
{
}

/// An upload buffer is made where the buffer has none that holds a chunk of the write, and
/// then holds the whole write or a whole chunk of it.
pub proof fn upload_buffer_is_made_where_it_is_missing(
    table: &BufferTable,
    buffer: u64,
    device_known: bool,
    min_size: u64,
    plan: Result<Option<ResourcePlan>, BufferError>,
)
    requires
        call_ensures(
            BufferTable::ensure_upload_buffer,
            (table, buffer, device_known, min_size),
            plan,
        ),
    ensures
        ({
            let b = table.entries@[buffer];
            let needed = if min_size < UPLOAD_CHUNK_SIZE {
                min_size
            } else {
                UPLOAD_CHUNK_SIZE
            };
            let fits = b.upload_buffer is Some && needed <= b.upload_width;
            &&& plan == Ok::<_, BufferError>(None::<ResourcePlan>)
                <==> table.entries@.contains_key(buffer) && fits
            &&& plan matches Ok(Some(p)) ==> p.width == needed && p.heap
                == HeapType::Upload && !p.allow_unordered_access && device_known
            &&& plan matches Err(e) ==> e == (if table.entries@.contains_key(buffer) {
                BufferError::InvalidDevice
            } else {
                BufferError::InvalidBuffer
            })
        }),
{
}

/// A buffer that is taken out is gone from the table, and no other is. What it owned waits
/// for all that was submitted to its device before: its resource, its companions and its
/// tiles. A view owns none of these and hands out only its descriptors; a buffer in
/// memory of another does not release that memory.
pub proof fn destroyed_buffer_hands_out_what_it_owned(
    table: &mut BufferTable,
    buffer: u64,
    device_fence: Option<u64>,
    released: Released,
    other: u64,
)
    requires
        call_ensures(BufferTable::destroy, (table, buffer, device_fence), released),
    ensures
        !final(table).entries@.contains_key(buffer),
        other != buffer ==> (final(table).entries@.contains_key(other)
            <==> old(table).entries@.contains_key(other)) && final(table).entries@[other]
            == old(table).entries@[other],
        released is Nothing <==> !old(table).entries@.contains_key(buffer) || device_fence is None,
        released matches Released::Unregister { buffer: b } ==> b == buffer
            && !old(table).entries@[buffer].is_view,
        released matches Released::Queue { fence_value, deletion, unmap, tiles } ==> {
            let was = old(table).entries@[buffer];
            &&& device_fence->0 > 0 ==> fence_value + 1 == device_fence->0
            &&& device_fence->0 == 0 ==> fence_value == 0
            &&& was.is_view <==> deletion is BufferView
            &&& was.is_view ==> deletion->BufferView_buffer_handle == buffer && tiles@.len() == 0
            &&& !was.is_view ==> {
                &&& deletion is Buffer
                &&& deletion->Buffer_buffer_handle == buffer
                &&& deletion->Buffer_resource == was.resource
                &&& deletion->Buffer_upload_buffer == was.upload_buffer
                &&& deletion->Buffer_coherent_readback == was.coherent_readback
                &&& was.is_reserved ==> tiles@ == was.reserved_tiles@
                &&& !was.is_reserved ==> tiles@.len() == 0
                &&& unmap is Some ==> unmap == was.coherent_readback
                &&& was.coherent_readback_mapped && was.coherent_readback is Some ==> unmap is Some
            }
        },
{
}

/// Entering a view puts one new buffer into the table, which names its parent, and writes
/// descriptors that cover exactly the bytes of the parent's resource that the view was
/// planned for.
pub proof fn entered_view_covers_its_bytes(
    table: &mut BufferTable,
    plan: ViewPlan,
    slots: Option<(u32, u32)>,
    created: (u64, Vec<DescriptorWrite>),
    other: u64,
)
    requires
        call_ensures(BufferTable::finish_view, (table, plan, slots), created),
        view_refused(
            old(table).entries@,
            plan.parent,
            plan.offset,
            plan.size,
            plan.element_stride,
        ) is None,
        plan.offset + plan.size <= u64::MAX,
        tellable(plan.size, plan.offset, plan.element_stride),
        slots is Some <==> plan.size > 0,
    ensures
        created.0 == old(table).next_handle,
        final(table).entries@.contains_key(created.0),
        final(table).entries@[created.0].is_view,
        final(table).entries@[created.0].parent_for_view == Some(plan.parent),
        final(table).entries@[created.0].view_byte_offset == Some(plan.offset),
        final(table).entries@[created.0].size == plan.size,
        old(table).entries@.contains_key(other) ==> final(table).entries@.contains_key(other)
            && final(table).entries@[other] == old(table).entries@[other],
        slots is None ==> created.1@.len() == 0,
        slots matches Some((uav, srv)) ==> {
            let resource = old(table).entries@[plan.parent].resource;
            let from = plan.offset as int;
            let to = plan.offset + plan.size;
            let stride = element_bytes(plan.element_stride);
            &&& created.1@.len() == 2
            &&& slot_of(created.1@[0]) == uav
            &&& slot_of(created.1@[1]) == srv
            &&& covers(created.1@[0], resource, from, to, stride)
            &&& covers(created.1@[1], resource, from, to, stride)
        },
{
    created_view_covers_its_bytes(
        old(table).entries@,
        final(table).entries@[created.0],
        plan,
        slots,
    );
}

/// When a buffer was given another resource, each view of it that has bytes is written
/// again, in both its slots, over the bytes that it covered before, now of the new
/// resource; no other buffer of the table changes.
pub proof fn patched_view_covers_its_bytes_again(
    table: &mut BufferTable,
    parent: u64,
    patch: Result<ViewPatch, BufferError>,
    view: u64,
    offset: u64,
)
    requires
        call_ensures(BufferTable::patch_buffer_views_after_parent_resize, (table, parent), patch),
        patch is Ok,
        old(table).entries@.contains_key(view),
    ensures
        ({
            let b = old(table).entries@[view];
            let resource = old(table).entries@[parent].resource;
            let of_parent = b.is_view && b.parent_for_view == Some(parent);
            let stride = element_bytes(b.element_stride);
            let to = offset + b.size;
            &&& final(table).entries@.contains_key(view)
            &&& final(table).entries@[view] == if of_parent {
                BufferState { resource, ..b }
            } else {
                b
            }
            &&& patch->Ok_0.views@.contains(view) <==> of_parent
            &&& of_parent && b.view_byte_offset == Some(offset) && tellable(
                b.size,
                offset,
                b.element_stride,
            ) && b.bindless_offset is Some && b.bindless_srv_offset is Some && b.size > 0 ==> {
                &&& written(
                    patch->Ok_0.writes@,
                    b.bindless_offset->0,
                    resource,
                    offset as int,
                    to,
                    stride,
                )
                &&& written(
                    patch->Ok_0.writes@,
                    b.bindless_srv_offset->0,
                    resource,
                    offset as int,
                    to,
                    stride,
                )
            }
        }),
{
    let b = old(table).entries@[view];
    let resource = old(table).entries@[parent].resource;
    let views = patch->Ok_0.views@;
    views_name_their_parent(old(table).entries@, parent, view);
    assert(views.to_set().contains(view) <==> views.contains(view));
    if b.is_view && b.parent_for_view == Some(parent) && b.view_byte_offset == Some(offset)
        && tellable(b.size, offset, b.element_stride) && b.bindless_offset is Some
        && b.bindless_srv_offset is Some && b.size > 0 {
        let v = choose|v: int| 0 <= v < views.len() && views[v] == view;
        rewritten_views_cover_their_bytes(old(table).entries@, views, resource, v, offset);
    }
}

/// A resized buffer keeps its handle, its slots and its kind, has the new resource and
/// size, and hands out all that it had before. Its views move with it, and no other
/// buffer does.
pub proof fn resized_buffer_hands_out_what_it_had(
    table: &mut BufferTable,
    buffer: u64,
    plan: ResizePlan,
    resource: u64,
    readback: Option<u64>,
    resized: Resized,
    other: u64,
)
    requires
        call_ensures(BufferTable::finish_resize, (table, buffer, plan, resource, readback), resized),
        old(table).entries@.contains_key(buffer),
        !old(table).entries@[buffer].is_view,
    ensures
        ({
            let was = old(table).entries@[buffer];
            let now = final(table).entries@[buffer];
            &&& final(table).entries@.contains_key(buffer)
            &&& now.resource == resource
            &&& now.size == plan.new_size
            &&& now.bindless_offset == was.bindless_offset
            &&& now.bindless_srv_offset == was.bindless_srv_offset
            &&& now.is_storage == was.is_storage
            &&& now.flags == was.flags
            &&& now.coherent_readback == readback
            &&& resized.replaced is ReplacedBufferGpu
            &&& resized.replaced->ReplacedBufferGpu_resource == was.resource
            &&& resized.replaced->ReplacedBufferGpu_upload_buffer == was.upload_buffer
            &&& resized.replaced->ReplacedBufferGpu_coherent_readback == was.coherent_readback
            &&& resized.tiles@ == was.reserved_tiles@
        }),
        old(table).entries@.contains_key(other) && other != buffer ==> {
            let was = old(table).entries@[other];
            &&& final(table).entries@.contains_key(other)
            &&& final(table).entries@[other] == if was.is_view && was.parent_for_view == Some(
                buffer,
            ) {
                BufferState { resource, ..was }
            } else {
                was
            }
        },
{
    views_name_their_parent(old(table).entries@, buffer, other);
}

/// A reserved buffer is given address space for its capacity, in whole tiles, and memory
/// for no more tiles than its size touches.
pub proof fn reserved_buffer_has_room_for_its_capacity(
    device: Option<ReservedSupport>,
    device_handle: u64,
    logical_size: u64,
    capacity: u64,
    element_stride: Option<u32>,
    flags: BufferFlags,
    plan: Result<ReservedPlan, BufferError>,
)
    requires
        logical_size <= u64::MAX - 0x2_0000,
        capacity <= u64::MAX - 0x2_0000,
        call_ensures(
            plan_reserved,
            (device, device_handle, logical_size, capacity, element_stride, flags),
            plan,
        ),
    ensures
        plan is Ok <==> device is Some && device->0.has_tile_pool,
        plan matches Ok(p) ==> {
            &&& p.device_handle == device_handle
            &&& p.size == logical_size
            &&& p.element_stride == element_stride
            &&& p.flags == flags
            &&& p.allocation_size == p.tile_count * 0x1_0000
            &&& p.allocation_size >= capacity
            &&& p.allocation_size >= logical_size
            &&& p.allocation_size < capacity + 0x1_0000 || p.allocation_size < logical_size
                + 0x1_0000
            &&& p.initial_tiles * 0x1_0000 >= logical_size
            &&& (p.initial_tiles - 1) * 0x1_0000 < logical_size
        },
{
    tiles_hold_their_bytes(logical_size);
    tiles_hold_their_bytes(capacity);
}

/// A reserved buffer that is entered is as planned, and holds the tiles that were mapped
/// for it from its first byte on.
pub proof fn entered_reserved_buffer_is_as_planned(
    table: &mut BufferTable,
    plan: ReservedPlan,
    resource: u64,
    tiles: &Vec<Tile>,
    uav: u32,
    srv: u32,
    created: (u64, Vec<DescriptorWrite>),
    i: int,
)
    requires
        call_ensures(BufferTable::finish_reserved, (table, plan, resource, tiles, uav, srv), created),
        tiles@.len() == plan.initial_tiles <= plan.tile_count,
    ensures
        created.0 == old(table).next_handle,
        ({
            let b = final(table).entries@[created.0];
            &&& final(table).entries@.contains_key(created.0)
            &&& b.device_handle == plan.device_handle
            &&& b.resource == resource
            &&& b.size == plan.size
            &&& b.allocation_size == plan.allocation_size
            &&& b.bindless_offset == Some(uav)
            &&& b.bindless_srv_offset == Some(srv)
            &&& b.is_storage && b.is_reserved && !b.is_view
            &&& b.reserved_tiles@.len() == plan.tile_count
            &&& 0 <= i < tiles@.len() ==> b.reserved_tiles@[i] == Some(tiles@[i])
            &&& tiles@.len() <= i < plan.tile_count ==> b.reserved_tiles@[i] is None
        }),
{
}

/// A buffer is planned exactly where its device is known and the CPU is to read only
/// storage; its size and kind are those asked for, and its memory holds the size.
pub proof fn planned_buffer_is_the_one_asked_for(
    device_known: bool,
    device_handle: u64,
    logical_size: u64,
    allocation_size: u64,
    access: DataAccess,
    element_stride: Option<u32>,
    flags: BufferFlags,
    plan: Result<CreatePlan, BufferError>,
)
    requires
        call_ensures(
            plan_create,
            (
                device_known,
                device_handle,
                logical_size,
                allocation_size,
                access,
                element_stride,
                flags,
            ),
            plan,
        ),
    ensures
        plan is Ok <==> device_known && !(flags.cpu_readable && access is Broadcast),
        plan matches Ok(p) ==> {
            &&& p.device_handle == device_handle
            &&& p.size == logical_size
            &&& p.allocation_size >= logical_size
            &&& p.access == access
            &&& p.element_stride == element_stride
            &&& p.flags == flags
        },
        plan matches Err(e) ==> (e == BufferError::InvalidDevice <==> !device_known),
{
}

/// A new logical size is taken over together with the tiles mapped for it; what it no
/// longer touches is handed back. The allocation and the other buffers stay.
pub proof fn taken_size_has_its_tiles(
    table: &mut BufferTable,
    buffer: u64,
    new_size: u64,
    change: TileChange,
    tiles: &Vec<Tile>,
    freed: Vec<Tile>,
    i: int,
    other: u64,
)
    requires
        call_ensures(BufferTable::apply_logical_size, (table, buffer, new_size, change, tiles), freed),
        old(table).entries@.contains_key(buffer),
        change matches TileChange::MapTiles { first, count } ==> tiles@.len() == count && first
            + count <= old(table).entries@[buffer].reserved_tiles@.len(),
        change matches TileChange::UnmapTiles { first, count } ==> first + count
            <= old(table).entries@[buffer].reserved_tiles@.len(),
        0 <= i < old(table).entries@[buffer].reserved_tiles@.len(),
    ensures
        ({
            let was = old(table).entries@[buffer];
            let now = final(table).entries@[buffer];
            &&& now.size == new_size
            &&& now.resource == was.resource
            &&& now.allocation_size == was.allocation_size
            &&& now.reserved_tiles@.len() == was.reserved_tiles@.len()
            &&& change is Keep ==> now.reserved_tiles@[i] == was.reserved_tiles@[i] && freed@.len()
                == 0
            &&& change matches TileChange::MapTiles { first, count } ==> {
                &&& now.reserved_tiles@[i] == if first <= i < first + count {
                    Some(tiles@[i - first])
                } else {
                    was.reserved_tiles@[i]
                }
                &&& freed@.len() == 0
            }
            &&& change matches TileChange::UnmapTiles { first, count } ==> {
                &&& now.reserved_tiles@[i] == if first <= i < first + count {
                    None
                } else {
                    was.reserved_tiles@[i]
                }
                &&& first <= i < first + count && was.reserved_tiles@[i] is Some
                    ==> freed@.contains(was.reserved_tiles@[i]->0)
            }
        }),
        other != buffer && old(table).entries@.contains_key(other)
            ==> final(table).entries@.contains_key(other) && final(table).entries@[other]
            == old(table).entries@[other],
{
    let was = old(table).entries@[buffer];
    if change is UnmapTiles {
        let first = change->UnmapTiles_first as int;
        let end = change->UnmapTiles_first + change->UnmapTiles_count;
        if first <= i < end {
            freed_tiles_are_those_between(was.reserved_tiles@, first, end, i);
        }
    }
}

/// A hint frees the tiles that hold no byte below the offset, and no others.
pub proof fn hint_frees_what_lies_above(
    table: &mut BufferTable,
    buffer: u64,
    has_tile_pool: bool,
    offset: u64,
    unused: UnusedTiles,
    i: int,
)
    requires
        call_ensures(BufferTable::hint_unused_above, (table, buffer, has_tile_pool, offset), unused),
        old(table).entries@.contains_key(buffer),
        old(table).entries@[buffer].is_reserved,
        has_tile_pool,
        offset <= u64::MAX - 0x1_0000,
        0 <= i < old(table).entries@[buffer].reserved_tiles@.len(),
    ensures
        ({
            let was = old(table).entries@[buffer];
            let now = final(table).entries@[buffer];
            &&& now.size == was.size
            &&& now.resource == was.resource
            &&& i * 0x1_0000 >= offset ==> now.reserved_tiles@[i] is None
            &&& i * 0x1_0000 < offset ==> now.reserved_tiles@[i] == was.reserved_tiles@[i]
            &&& i * 0x1_0000 >= offset && was.reserved_tiles@[i] is Some ==> unused.freed@.contains(
                was.reserved_tiles@[i]->0,
            )
        }),
{
    let was = old(table).entries@[buffer];
    let n = was.reserved_tiles@.len() as int;
    first_unused_tile_holds_nothing_before(offset);
    let first = first_unused_tile(offset);
    if first <= i < n {
        freed_tiles_are_those_between(was.reserved_tiles@, first, n, i);
    }
}

} // verus!
