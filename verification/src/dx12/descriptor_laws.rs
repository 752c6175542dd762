//! Which bytes the descriptors of buffers and of views cover.

use vstd::prelude::*;

use super::buffer::{
    align_256, root_descriptors, stride_of, BufferError, DescriptorWrite,
};
use super::buffer_lifecycle::{is_view_created, view_refused, ViewPlan};
use super::buffer_resize::{all_view_descriptors, view_descriptors, views_of};
use super::types::BufferState;

verus! {

broadcast use vstd::std_specs::hash::group_hash_axioms;

/// The slot that a descriptor is written to.
pub open spec fn slot_of(write: DescriptorWrite) -> u32 {
    match write {
        DescriptorWrite::BufferUav { slot, .. } => slot,
        DescriptorWrite::BufferSrv { slot, .. } => slot,
        DescriptorWrite::BufferCbv { slot, .. } => slot,
    }
}

/// A descriptor covers exactly the bytes of a resource from one to another, in elements of
/// a stride.
pub open spec fn covers(
    write: DescriptorWrite,
    resource: u64,
    from: int,
    to: int,
    stride: int,
) -> bool {
    match write {
        DescriptorWrite::BufferUav { slot, resource: r, first_element, num_elements, stride: s } => {
            &&& r == resource
            &&& s == stride
            &&& first_element * s == from
            &&& (first_element + num_elements) * s == to
        },
        DescriptorWrite::BufferSrv { slot, resource: r, first_element, num_elements, stride: s } => {
            &&& r == resource
            &&& s == stride
            &&& first_element * s == from
            &&& (first_element + num_elements) * s == to
        },
        DescriptorWrite::BufferCbv { slot, resource: r, size } => {
            &&& r == resource
            &&& from == 0
            &&& size == to
        },
    }
}

/// The bytes of one element: as told, and four where nothing is told.
pub open spec fn element_bytes(element_stride: Option<u32>) -> int {
    match element_stride {
        Some(stride) => stride as int,
        None => 4,
    }
}

/// The sizes of a view can be told in elements of a descriptor: they are whole numbers of
/// elements, of no more than 32 bits.
pub open spec fn tellable(size: u64, offset: u64, element_stride: Option<u32>) -> bool {
    let stride = element_bytes(element_stride);
    &&& stride > 0
    &&& size <= u32::MAX
    &&& offset as int / stride <= u32::MAX
    &&& size as int % stride == 0
    &&& offset as int % stride == 0
}

proof fn lemma_elements(size: u64, offset: u64, stride: u32)
    requires
        stride > 0,
        size <= u32::MAX,
        offset as int / stride as int <= u32::MAX,
        size as int % stride as int == 0,
        offset as int % stride as int == 0,
    ensures
        size as u32 == size,
        ((size as u32) / stride) as u32 * stride == size,
        (offset / (stride as u64)) as u32 * stride == offset,
        ((offset / (stride as u64)) as u32 + ((size as u32) / stride) as u32) * stride == offset
            + size,
{
    assert(size <= u32::MAX ==> size as u32 == size) by (bit_vector);
    let n = (size as int) / (stride as int);
    let f = (offset as int) / (stride as int);
    vstd::arithmetic::div_mod::lemma_fundamental_div_mod(size as int, stride as int);
    vstd::arithmetic::div_mod::lemma_fundamental_div_mod(offset as int, stride as int);
    assert(0 <= n <= size && 0 <= f <= offset) by (nonlinear_arith)
        requires
            n == (size as int) / (stride as int),
            f == (offset as int) / (stride as int),
            stride > 0,
    ;
    assert(n * stride == size && f * stride == offset && (f + n) * stride == offset + size)
        by (nonlinear_arith)
        requires
            size as int == stride as int * n,
            offset as int == stride as int * f,
    ;
}

/// The elements of a view that can be told in elements begin at its offset and make up its
/// bytes.
pub proof fn elements_make_up_the_bytes(size: u64, offset: u64, element_stride: Option<u32>)
    requires
        tellable(size, offset, element_stride),
    ensures
        ({
            let stride = stride_of(element_stride);
            &&& (offset / (stride as u64)) as u32 * element_bytes(element_stride) == offset
            &&& ((size as u32) / stride) as u32 * element_bytes(element_stride) == size
        }),
{
    lemma_elements(size, offset, stride_of(element_stride));
}

/// Both descriptors of a view cover exactly the bytes of the resource from its offset to
/// its end, one in each of its slots: the first for writing, the second for reading. A view
/// without slots or without bytes has none.
pub proof fn view_descriptors_cover_the_view(b: BufferState, resource: u64, offset: u64)
    requires
        b.view_byte_offset == Some(offset),
        tellable(b.size, offset, b.element_stride),
    ensures
        ({
            let writes = view_descriptors(b, resource);
            let stride = element_bytes(b.element_stride);
            if b.bindless_offset is Some && b.bindless_srv_offset is Some && b.size > 0 {
                &&& writes.len() == 2
                &&& writes[0] is BufferUav
                &&& slot_of(writes[0]) == b.bindless_offset->0
                &&& covers(writes[0], resource, offset as int, offset + b.size, stride)
                &&& writes[1] is BufferSrv
                &&& slot_of(writes[1]) == b.bindless_srv_offset->0
                &&& covers(writes[1], resource, offset as int, offset + b.size, stride)
            } else {
                writes.len() == 0
            }
        }),
{
    let stride = stride_of(b.element_stride);
    lemma_elements(b.size, offset, stride);
    let num = ((b.size as u32) / stride) as u32;
    assert(num == 0 <==> b.size == 0) by (nonlinear_arith)
        requires
            num * stride == b.size,
            stride > 0,
    ;
}

/// When a view is created, every descriptor that is written for it covers exactly the bytes
/// from its offset to its offset and size, in the memory of its parent, and these lie inside
/// the parent. There are two, in the slots that were handed over.
pub proof fn created_view_covers_its_bytes(
    buffers: Map<u64, BufferState>,
    view: BufferState,
    plan: ViewPlan,
    slots: Option<(u32, u32)>,
)
    requires
        is_view_created(view, buffers[plan.parent], plan, slots),
        view_refused(buffers, plan.parent, plan.offset, plan.size, plan.element_stride) is None,
        plan.size <= u32::MAX,
        plan.offset as int / element_bytes(plan.element_stride) <= u32::MAX,
        slots is Some <==> plan.size > 0,
    ensures
        ({
            let parent = buffers[plan.parent];
            let writes = view_descriptors(view, parent.resource);
            let stride = element_bytes(plan.element_stride);
            let from = plan.offset as int;
            let to = plan.offset + plan.size;
            &&& to <= parent.size
            &&& view.resource == parent.resource
            &&& view.size == plan.size
            &&& view.view_byte_offset == Some(plan.offset)
            &&& slots is None ==> writes.len() == 0
            &&& slots matches Some((uav, srv)) ==> {
                &&& writes.len() == 2
                &&& writes[0] is BufferUav && slot_of(writes[0]) == uav
                &&& covers(writes[0], parent.resource, from, to, stride)
                &&& writes[1] is BufferSrv && slot_of(writes[1]) == srv
                &&& covers(writes[1], parent.resource, from, to, stride)
            }
        }),
{
    let size = plan.size;
    assert(size <= u32::MAX ==> size as u32 == size) by (bit_vector);
    view_descriptors_cover_the_view(view, buffers[plan.parent].resource, plan.offset);
}

/// A view is created exactly where its parent is a known storage buffer that it lies in,
/// and its offset and size are whole numbers of its elements.
pub proof fn view_is_created_where_it_fits(
    buffers: Map<u64, BufferState>,
    parent: u64,
    offset: u64,
    size: u64,
    element_stride: Option<u32>,
)
    requires
        size <= u32::MAX,
    ensures
        view_refused(buffers, parent, offset, size, element_stride) is None <==> {
            let stride = element_bytes(element_stride);
            &&& buffers.contains_key(parent)
            &&& buffers[parent].is_storage
            &&& offset + size <= buffers[parent].size
            &&& stride > 0
            &&& size as int % stride == 0
            &&& offset as int % stride == 0
        },
        view_refused(buffers, parent, offset, size, element_stride) matches Some(e) ==> {
            let stride = element_bytes(element_stride);
            match e {
                BufferError::InvalidParent => !buffers.contains_key(parent),
                BufferError::ExceedsParent => offset + size > buffers[parent].size,
                BufferError::ParentNotStorage => !buffers[parent].is_storage,
                BufferError::ZeroStride => stride == 0,
                BufferError::NotDivisibleByStride => size as int % stride != 0,
                BufferError::OffsetNotAligned => offset as int % stride != 0,
                _ => false,
            }
        },
{
    assert(size <= u32::MAX ==> size as u32 == size) by (bit_vector);
}

/// Some of the writes covers a view in a slot.
pub open spec fn written(
    writes: Seq<DescriptorWrite>,
    slot: u32,
    resource: u64,
    from: int,
    to: int,
    stride: int,
) -> bool {
    exists|w: int|
        {
            &&& 0 <= w < writes.len()
            &&& slot_of(#[trigger] writes[w]) == slot
            &&& covers(writes[w], resource, from, to, stride)
        }
}

/// When descriptors of views are written anew, after their parent has got other memory,
/// each view that has slots and bytes gets its two descriptors, and each covers exactly the
/// bytes of the view in the new memory.
pub proof fn rewritten_views_cover_their_bytes(
    buffers: Map<u64, BufferState>,
    views: Seq<u64>,
    resource: u64,
    v: int,
    offset: u64,
)
    requires
        0 <= v < views.len(),
        ({
            let b = buffers[views[v]];
            &&& b.view_byte_offset == Some(offset)
            &&& tellable(b.size, offset, b.element_stride)
            &&& b.bindless_offset is Some
            &&& b.bindless_srv_offset is Some
            &&& b.size > 0
        }),
    ensures
        ({
            let b = buffers[views[v]];
            let writes = all_view_descriptors(buffers, views, resource);
            let stride = element_bytes(b.element_stride);
            let to = offset + b.size;
            &&& written(writes, b.bindless_offset->0, resource, offset as int, to, stride)
            &&& written(writes, b.bindless_srv_offset->0, resource, offset as int, to, stride)
        }),
    decreases views.len(),
{
    let b = buffers[views[v]];
    let rest = all_view_descriptors(buffers, views.drop_last(), resource);
    let writes = all_view_descriptors(buffers, views, resource);
    let stride = element_bytes(b.element_stride);
    let to = offset + b.size;
    if v == views.len() - 1 {
        view_descriptors_cover_the_view(b, resource, offset);
        let own = view_descriptors(b, resource);
        assert(writes[rest.len() as int] == own[0]);
        assert(writes[rest.len() as int + 1] == own[1]);
    } else {
        assert(views.drop_last()[v] == views[v]);
        rewritten_views_cover_their_bytes(buffers, views.drop_last(), resource, v, offset);
        let i = choose|w: int|
            0 <= w < rest.len() && slot_of(#[trigger] rest[w]) == b.bindless_offset->0 && covers(
                rest[w],
                resource,
                offset as int,
                to,
                stride,
            );
        let j = choose|w: int|
            0 <= w < rest.len() && slot_of(#[trigger] rest[w]) == b.bindless_srv_offset->0
                && covers(rest[w], resource, offset as int, to, stride);
        assert(writes[i] == rest[i]);
        assert(writes[j] == rest[j]);
    }
}

/// A write is a descriptor of a view: in one of its slots, over exactly its bytes.
pub open spec fn describes(write: DescriptorWrite, view: BufferState, resource: u64) -> bool {
    let offset = view.view_byte_offset->0;
    &&& slot_of(write) == view.bindless_offset->0 || slot_of(write) == view.bindless_srv_offset->0
    &&& covers(
        write,
        resource,
        offset as int,
        offset + view.size,
        element_bytes(view.element_stride),
    )
}

/// When descriptors of views are written anew, nothing is written but descriptors of these
/// views.
pub proof fn only_views_are_rewritten(
    buffers: Map<u64, BufferState>,
    views: Seq<u64>,
    resource: u64,
    w: int,
) -> (v: int)
    requires
        forall|i: int|
            0 <= i < views.len() ==> {
                let b = buffers[#[trigger] views[i]];
                &&& b.view_byte_offset is Some
                &&& tellable(b.size, b.view_byte_offset->0, b.element_stride)
            },
        0 <= w < all_view_descriptors(buffers, views, resource).len(),
    ensures
        0 <= v < views.len(),
        describes(
            all_view_descriptors(buffers, views, resource)[w],
            buffers[views[v]],
            resource,
        ),
    decreases views.len(),
{
    let rest = all_view_descriptors(buffers, views.drop_last(), resource);
    if w < rest.len() {
        assert forall|i: int| 0 <= i < views.drop_last().len() implies {
            let b = buffers[#[trigger] views.drop_last()[i]];
            &&& b.view_byte_offset is Some
            &&& tellable(b.size, b.view_byte_offset->0, b.element_stride)
        } by {
            assert(views.drop_last()[i] == views[i]);
        }
        only_views_are_rewritten(buffers, views.drop_last(), resource, w)
    } else {
        let b = buffers[views[views.len() - 1]];
        view_descriptors_cover_the_view(b, resource, b.view_byte_offset->0);
        views.len() - 1
    }
}

/// The views of a buffer are those that name it as their parent, and no others.
pub proof fn views_name_their_parent(buffers: Map<u64, BufferState>, parent: u64, view: u64)
    ensures
        views_of(buffers, parent).contains(view) <==> buffers.contains_key(view)
            && buffers[view].is_view && buffers[view].parent_for_view == Some(parent),
{
}

/// The descriptors of a whole storage buffer cover all its bytes, one for writing and one
/// for reading, in the slots that it has.
pub proof fn storage_descriptors_cover_the_buffer(
    resource: u64,
    size: u64,
    element_stride: Option<u32>,
    slot: Option<u32>,
    srv_slot: Option<u32>,
    w: int,
)
    requires
        tellable(size, 0, element_stride),
    ensures
        ({
            let writes = root_descriptors(
                resource,
                size,
                true,
                stride_of(element_stride),
                slot,
                srv_slot,
            );
            let stride = element_bytes(element_stride);
            &&& writes.len() == (if slot is Some {
                1int
            } else {
                0
            }) + (if srv_slot is Some {
                1int
            } else {
                0
            })
            &&& 0 <= w < writes.len() ==> covers(writes[w], resource, 0, size as int, stride)
            &&& slot is Some ==> writes[0] is BufferUav && slot_of(writes[0]) == slot->0
            &&& srv_slot is Some ==> writes.last() is BufferSrv && slot_of(writes.last())
                == srv_slot->0
        }),
{
    lemma_elements(size, 0, stride_of(element_stride));
}

/// The descriptor of a whole uniform buffer covers all its bytes and less than 256 more, up
/// to a whole number of 256.
pub proof fn uniform_descriptor_covers_the_buffer(
    resource: u64,
    size: u64,
    element_stride: Option<u32>,
    slot: Option<u32>,
    srv_slot: Option<u32>,
)
    requires
        size <= u32::MAX - 255,
    ensures
        ({
            let writes = root_descriptors(
                resource,
                size,
                false,
                stride_of(element_stride),
                slot,
                srv_slot,
            );
            &&& slot is None ==> writes.len() == 0
            &&& slot matches Some(s) ==> writes.len() == 1 && (writes[0] matches
                DescriptorWrite::BufferCbv { slot: at, resource: r, size: covered } && at == s && r
                == resource && covered % 256 == 0 && size <= covered < size + 256)
        }),
{
    assert(align_256(size as int) <= u32::MAX);
}

} // verus!
