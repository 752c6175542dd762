//! Resizing of buffers and what follows for their views, their tiles and the
//! resources they leave behind.

use vstd::prelude::*;

use super::barriers::{
    buffer_barrier_full, full_buffer_barrier, Barrier, ACCESS_COMMON, ACCESS_COPY_DEST,
    ACCESS_COPY_SOURCE, ACCESS_UNORDERED_ACCESS, SYNC_ALL, SYNC_COPY,
};
use super::buffer::{
    align_256, alloc_committed_buffer_pair, buffer_wf, pair_plan, stride_of,
    uniform_buffer_allocation_width, BufferError, BufferTable, DescriptorWrite, PairPlan,
};
use super::command_list::{issue_barrier, issue_one, Call};
use super::memory::{
    is_zero_buffer, overwrite, run_calls, run_calls_in_a_row, zero_fill_zeroes_the_range, zeros,
    Memory,
};
use super::record::{emit_zero_fill, zero_fill};
use super::tables::{keys_where, selected_keys, Selector};
use super::types::BufferState;

verus! {

broadcast use vstd::std_specs::hash::group_hash_axioms;

/// A resize about to happen.
#[derive(Clone, Copy, Debug, PartialEq, Eq, Structural)]
pub struct ResizePlan {
    pub new_size: u64,
    pub allocation_size: u64,
    pub resources: PairPlan,
    /// Read-back resource to unmap first.
    pub unmap_readback: Option<u64>,
}

/// Why a resize is refused; `None` where it is not.
pub open spec fn resize_refused(
    buffers: Map<u64, BufferState>,
    device_known: bool,
    device: u64,
    buffer: u64,
    new_size: u64,
) -> Option<BufferError> {
    if !buffers.contains_key(buffer) {
        Some(BufferError::InvalidBuffer)
    } else {
        let b = buffers[buffer];
        let stride = stride_of(b.element_stride);
        if b.device_handle != device {
            Some(BufferError::DifferentDevice)
        } else if b.is_view {
            Some(BufferError::IsView)
        } else if b.transient_placed {
            Some(BufferError::TransientPlaced)
        } else if new_size == b.size {
            None
        } else if b.is_reserved && new_size <= b.allocation_size {
            Some(BufferError::WithinReservedCapacity)
        } else if b.flags.cpu_readable && !b.is_storage {
            Some(BufferError::CpuReadableNotStorage)
        } else if b.is_storage && stride > 0 && new_size > 0 && (new_size as u32) % stride != 0 {
            Some(BufferError::NotDivisibleByStride)
        } else if !device_known {
            Some(BufferError::InvalidDevice)
        } else {
            None
        }
    }
}

/// The width of the resources that a resize creates.
pub open spec fn resized_width(is_storage: bool, new_size: u64) -> int {
    if is_storage {
        new_size as int
    } else {
        align_256(new_size as int)
    }
}

/// What a resize that is not refused does.
pub open spec fn resize_plan(b: BufferState, new_size: u64) -> ResizePlan {
    ResizePlan {
        new_size,
        allocation_size: resized_width(b.is_storage, new_size) as u64,
        resources: pair_plan(
            resized_width(b.is_storage, new_size) as u64,
            b.is_storage,
            b.flags.cpu_readable,
        ),
        unmap_readback: if b.coherent_readback_mapped {
            b.coherent_readback
        } else {
            None
        },
    }
}

/// Bytes of the old contents that a resize keeps.
pub open spec fn kept_bytes(old_size: u64, new_size: u64, preserve: bool) -> u64 {
    if !preserve {
        0
    } else if old_size < new_size {
        old_size
    } else {
        new_size
    }
}

/// The barrier that opens a buffer of a resize for copying into it.
pub open spec fn open_for_copy(resource: u64) -> Seq<Call> {
    issue_one(
        Barrier::Buffer(
            full_buffer_barrier(
                resource,
                SYNC_ALL,
                SYNC_COPY,
                ACCESS_COMMON,
                ACCESS_COPY_DEST,
            ),
        ),
    )
}

/// Calls that move the kept contents of a storage buffer.
pub open spec fn move_calls(old: u64, new: u64, kept: u64) -> Seq<Call> {
    if kept > 0 {
        issue_one(
            Barrier::Buffer(
                full_buffer_barrier(
                    old,
                    SYNC_ALL,
                    SYNC_COPY,
                    ACCESS_UNORDERED_ACCESS,
                    ACCESS_COPY_SOURCE,
                ),
            ),
        ) + open_for_copy(new) + seq![
            Call::CopyBufferRegion {
                dst: new,
                dst_offset: 0,
                src: old,
                src_offset: 0,
                size: kept,
            },
        ]
    } else {
        Seq::empty()
    }
}

/// Calls that zero what a grown storage buffer has beyond its old contents.
pub open spec fn tail_calls(
    new: u64,
    zero: u64,
    old_size: u64,
    new_size: u64,
    opened: bool,
) -> Seq<Call> {
    (if opened {
        Seq::empty()
    } else {
        open_for_copy(new)
    }) + zero_fill(new, old_size as int, zero, new_size - old_size) + issue_one(
        Barrier::Buffer(
            full_buffer_barrier(
                new,
                SYNC_COPY,
                SYNC_ALL,
                ACCESS_COPY_DEST,
                ACCESS_COMMON,
            ),
        ),
    )
}

/// Calls that fill the new resource of a storage buffer: the kept contents, then
/// zeros to the new size.
pub open spec fn resize_calls(
    old: u64,
    new: u64,
    zero: u64,
    old_size: u64,
    new_size: u64,
    preserve: bool,
) -> Seq<Call> {
    let kept = kept_bytes(old_size, new_size, preserve);
    move_calls(old, new, kept) + if preserve && new_size > old_size {
        tail_calls(new, zero, old_size, new_size, kept > 0)
    } else {
        Seq::empty()
    }
}

/// Records the calls that fill the new resource of a storage buffer.
pub fn record_resize(
    old: u64,
    new: u64,
    zero: u64,
    old_size: u64,
    new_size: u64,
    preserve: bool,
) -> (calls: Vec<Call>)
    ensures
        calls@ == resize_calls(old, new, zero, old_size, new_size, preserve),
{
    let mut calls: Vec<Call> = Vec::new();
    let kept: u64 = if !preserve {
        0
    } else if old_size < new_size {
        old_size
    } else {
        new_size
    };
    if kept > 0 {
        let from = buffer_barrier_full(
            old,
            SYNC_ALL,
            SYNC_COPY,
            ACCESS_UNORDERED_ACCESS,
            ACCESS_COPY_SOURCE,
        );
        issue_barrier(&mut calls, Barrier::Buffer(from));
        let to = buffer_barrier_full(new, SYNC_ALL, SYNC_COPY, ACCESS_COMMON, ACCESS_COPY_DEST);
        issue_barrier(&mut calls, Barrier::Buffer(to));
        calls.push(
            Call::CopyBufferRegion {
                dst: new,
                dst_offset: 0,
                src: old,
                src_offset: 0,
                size: kept,
            },
        );
    }
    assert(calls@ =~= move_calls(old, new, kept));
    if preserve && new_size > old_size {
        if kept == 0 {
            let to = buffer_barrier_full(new, SYNC_ALL, SYNC_COPY, ACCESS_COMMON, ACCESS_COPY_DEST);
            issue_barrier(&mut calls, Barrier::Buffer(to));
        }
        emit_zero_fill(&mut calls, new, old_size, zero, new_size - old_size);
        let back = buffer_barrier_full(new, SYNC_COPY, SYNC_ALL, ACCESS_COPY_DEST, ACCESS_COMMON);
        issue_barrier(&mut calls, Barrier::Buffer(back));
    }
    assert(calls@ =~= resize_calls(old, new, zero, old_size, new_size, preserve));
    calls
}

/// How the contents of a resized buffer reach its new resource.
#[derive(Clone, Copy, Debug, PartialEq, Eq, Structural)]
pub enum ResizeContents {
    /// They are not kept, or there are none.
    Nothing,
    /// By the calls of `record_resize`.
    OnDevice,
    /// Through mappings of both resources: the first `copied` bytes are copied, then
    /// `zeroed` bytes are cleared from `zero_from` on.
    Mapped { copied: u64, zero_from: u64, zeroed: u64 },
}

/// How the contents of a resized buffer are moved.
pub open spec fn contents_plan(is_storage: bool, old_size: u64, new_size: u64, preserve: bool) -> ResizeContents {
    let kept = kept_bytes(old_size, new_size, preserve);
    let grown = preserve && new_size > old_size;
    if is_storage {
        if kept > 0 || grown {
            ResizeContents::OnDevice
        } else {
            ResizeContents::Nothing
        }
    } else if kept > 0 {
        ResizeContents::Mapped {
            copied: kept,
            zero_from: old_size,
            zeroed: if grown {
                (new_size - old_size) as u64
            } else {
                0
            },
        }
    } else {
        ResizeContents::Nothing
    }
}

/// Decides how the contents of a resized buffer are moved.
pub fn resize_contents(is_storage: bool, old_size: u64, new_size: u64, preserve: bool) -> (contents:
    ResizeContents)
    ensures
        contents == contents_plan(is_storage, old_size, new_size, preserve),
        is_storage && contents is Nothing ==> forall|old: u64, new: u64, zero: u64| #[trigger]
            resize_calls(old, new, zero, old_size, new_size, preserve) == Seq::<Call>::empty(),
{
    let kept: u64 = if !preserve {
        0
    } else if old_size < new_size {
        old_size
    } else {
        new_size
    };
    let grown = preserve && new_size > old_size;
    if is_storage {
        if kept > 0 || grown {
            ResizeContents::OnDevice
        } else {
            assert forall|old: u64, new: u64, zero: u64| #[trigger]
                resize_calls(old, new, zero, old_size, new_size, preserve)
                    == Seq::<Call>::empty() by {
                assert(resize_calls(old, new, zero, old_size, new_size, preserve)
                    =~= Seq::<Call>::empty());
            }
            ResizeContents::Nothing
        }
    } else if kept > 0 {
        let zeroed: u64 = if grown {
            new_size - old_size
        } else {
            0
        };
        ResizeContents::Mapped { copied: kept, zero_from: old_size, zeroed }
    } else {
        ResizeContents::Nothing
    }
}

/// The new bytes of a buffer that is resized through mappings.
pub open spec fn mapped_bytes(old: Seq<u8>, new: Seq<u8>, contents: ResizeContents) -> Seq<u8> {
    match contents {
        ResizeContents::Mapped { copied, zero_from, zeroed } => overwrite(
            overwrite(new, 0, old.take(copied as int)),
            zero_from as int,
            zeros(zeroed as int),
        ),
        _ => new,
    }
}

/// Resizing a mapped buffer that has contents keeps the old bytes up to the smaller
/// size and gives zeros beyond the old size, up to the new one.
pub proof fn mapped_resize_preserves_contents(old: Seq<u8>, new: Seq<u8>, old_size: u64, new_size: u64)
    requires
        0 < old_size <= old.len(),
        0 < new_size <= new.len(),
    ensures
        ({
            let after = mapped_bytes(old, new, contents_plan(false, old_size, new_size, true));
            &&& after.len() == new.len()
            &&& forall|i: int|
                0 <= i < new_size ==> #[trigger] after[i] == (if i < old_size {
                    old[i]
                } else {
                    0
                })
            &&& forall|i: int| new_size <= i < new.len() ==> #[trigger] after[i] == new[i]
        }),
{
}

proof fn lemma_two_barriers_do_nothing(memory: Memory, a: Barrier, b: Barrier)
    ensures
        run_calls(memory, issue_one(a)) == memory,
        run_calls(memory, issue_one(a) + issue_one(b)) == memory,
{
    reveal_with_fuel(run_calls, 6);
    assert(issue_one(a).drop_last() =~= seq![Call::QueueBarrier(a)]);
    assert(seq![Call::QueueBarrier(a)].drop_last() =~= Seq::<Call>::empty());
    run_calls_in_a_row(memory, issue_one(a), issue_one(b));
    assert(issue_one(b).drop_last() =~= seq![Call::QueueBarrier(b)]);
    assert(seq![Call::QueueBarrier(b)].drop_last() =~= Seq::<Call>::empty());
}

/// Resizing a storage buffer with its contents kept gives the old bytes up to the
/// smaller size, and zeros beyond the old size.
pub proof fn resize_preserves_contents(
    memory: Memory,
    old: u64,
    new: u64,
    zero: u64,
    old_size: u64,
    new_size: u64,
)
    requires
        memory.contains_key(old),
        memory.contains_key(new),
        is_zero_buffer(memory, zero),
        old != new,
        new != zero,
        memory[old].len() >= old_size,
        memory[new].len() == new_size,
    ensures
        ({
            let after = run_calls(
                memory,
                resize_calls(old, new, zero, old_size, new_size, true),
            );
            &&& after[new] == Seq::new(
                new_size as nat,
                |i: int|
                    if i < old_size {
                        memory[old][i]
                    } else {
                        0u8
                    },
            )
            &&& after[old] == memory[old]
        }),
{
    let kept = kept_bytes(old_size, new_size, true);
    let moved = move_calls(old, new, kept);
    let from = Barrier::Buffer(
        full_buffer_barrier(old, SYNC_ALL, SYNC_COPY, ACCESS_UNORDERED_ACCESS, ACCESS_COPY_SOURCE),
    );
    let to = Barrier::Buffer(
        full_buffer_barrier(new, SYNC_ALL, SYNC_COPY, ACCESS_COMMON, ACCESS_COPY_DEST),
    );
    let back = Barrier::Buffer(
        full_buffer_barrier(new, SYNC_COPY, SYNC_ALL, ACCESS_COPY_DEST, ACCESS_COMMON),
    );
    let m1 = run_calls(memory, moved);
    if kept > 0 {
        lemma_two_barriers_do_nothing(memory, from, to);
        let copy = Call::CopyBufferRegion {
            dst: new,
            dst_offset: 0,
            src: old,
            src_offset: 0,
            size: kept,
        };
        assert(moved.drop_last() =~= issue_one(from) + issue_one(to));
        assert(moved.last() == copy);
    }
    assert(m1[old] == memory[old]);
    assert(m1.contains_key(new) && m1[new].len() == new_size);
    assert(forall|i: int| 0 <= i < kept ==> #[trigger] m1[new][i] == memory[old][i]);
    assert(is_zero_buffer(m1, zero));
    let calls = resize_calls(old, new, zero, old_size, new_size, true);
    let want = Seq::new(
        new_size as nat,
        |i: int|
            if i < old_size {
                memory[old][i]
            } else {
                0u8
            },
    );
    if new_size > old_size {
        let tail = tail_calls(new, zero, old_size, new_size, kept > 0);
        run_calls_in_a_row(memory, moved, tail);
        let fill = zero_fill(new, old_size as int, zero, new_size - old_size);
        let opening = if kept > 0 {
            Seq::<Call>::empty()
        } else {
            open_for_copy(new)
        };
        assert(tail =~= opening + fill + issue_one(back));
        run_calls_in_a_row(m1, opening + fill, issue_one(back));
        run_calls_in_a_row(m1, opening, fill);
        lemma_two_barriers_do_nothing(m1, to, back);
        assert(run_calls(m1, opening) == m1);
        zero_fill_zeroes_the_range(m1, new, old_size as int, zero, new_size - old_size);
        let m2 = run_calls(m1, fill);
        lemma_two_barriers_do_nothing(m2, back, to);
        assert(m2[new] =~= want);
    } else {
        assert(calls =~= moved);
        assert(m1[new] =~= want);
    }
}

impl BufferTable {
    /// Plans a resize: nothing to do where the size stays, else what to allocate.
    pub fn plan_resize(
        &self,
        device_known: bool,
        device: u64,
        buffer: u64,
        new_size: u64,
    ) -> (plan: Result<Option<ResizePlan>, BufferError>)
        requires
            new_size <= u64::MAX - 0x2_0000,
        ensures
            match resize_refused(self.entries@, device_known, device, buffer, new_size) {
                Some(e) => plan == Err::<Option<ResizePlan>, BufferError>(e),
                None => plan == Ok::<Option<ResizePlan>, BufferError>(
                    if new_size == self.entries@[buffer].size {
                        None
                    } else {
                        Some(resize_plan(self.entries@[buffer], new_size))
                    },
                ),
            },
    {
        let b = match self.entries.get(&buffer) {
            Some(b) => b,
            None => {
                return Err(BufferError::InvalidBuffer);
            },
        };
        if b.device_handle != device {
            return Err(BufferError::DifferentDevice);
        }
        if b.is_view {
            return Err(BufferError::IsView);
        }
        if b.transient_placed {
            return Err(BufferError::TransientPlaced);
        }
        if new_size == b.size {
            return Ok(None);
        }
        if b.is_reserved && new_size <= b.allocation_size {
            return Err(BufferError::WithinReservedCapacity);
        }
        if b.flags.cpu_readable && !b.is_storage {
            return Err(BufferError::CpuReadableNotStorage);
        }
        let stride: u32 = match b.element_stride {
            Some(stride) => stride,
            None => 4,
        };
        if b.is_storage && stride > 0 && new_size > 0 && (new_size as u32) % stride != 0 {
            return Err(BufferError::NotDivisibleByStride);
        }
        if !device_known {
            return Err(BufferError::InvalidDevice);
        }
        let width: u64 = if b.is_storage {
            new_size
        } else {
            uniform_buffer_allocation_width(new_size, new_size)
        };
        match alloc_committed_buffer_pair(width, b.is_storage, b.flags.cpu_readable) {
            Ok(resources) => Ok(
                Some(
                    ResizePlan {
                        new_size,
                        allocation_size: width,
                        resources,
                        unmap_readback: if b.coherent_readback_mapped {
                            b.coherent_readback
                        } else {
                            None
                        },
                    },
                ),
            ),
            Err(e) => Err(e),
        }
    }
}

/// Selects the views of a buffer.
pub struct ViewsOf {
    pub parent: u64,
}

impl Selector<BufferState> for ViewsOf {
    open spec fn selects(&self, entry: BufferState) -> bool {
        entry.is_view && entry.parent_for_view == Some(self.parent)
    }

    fn test(&self, entry: &BufferState) -> (selected: bool) {
        entry.is_view && match entry.parent_for_view {
            Some(parent) => parent == self.parent,
            None => false,
        }
    }
}

/// The handles of the views of a buffer.
pub open spec fn views_of(buffers: Map<u64, BufferState>, parent: u64) -> Set<u64> {
    selected_keys(buffers, ViewsOf { parent })
}

/// A buffer moved to another resource.
pub open spec fn moved_to(b: BufferState, resource: u64) -> BufferState {
    BufferState { resource, ..b }
}

/// The descriptors of a view over a resource: none where it has no slots or no
/// elements.
pub open spec fn view_descriptors(b: BufferState, resource: u64) -> Seq<DescriptorWrite> {
    let stride = stride_of(b.element_stride);
    let first_element = (b.view_byte_offset->0 / (stride as u64)) as u32;
    let num_elements = ((b.size as u32) / stride) as u32;
    if b.bindless_offset is Some && b.bindless_srv_offset is Some && num_elements > 0 {
        seq![
            DescriptorWrite::BufferUav {
                slot: b.bindless_offset->0,
                resource,
                first_element,
                num_elements,
                stride,
            },
            DescriptorWrite::BufferSrv {
                slot: b.bindless_srv_offset->0,
                resource,
                first_element,
                num_elements,
                stride,
            },
        ]
    } else {
        Seq::empty()
    }
}

/// The descriptors of views over a resource, view after view.
pub open spec fn all_view_descriptors(
    buffers: Map<u64, BufferState>,
    views: Seq<u64>,
    resource: u64,
) -> Seq<DescriptorWrite>
    decreases views.len(),
{
    if views.len() == 0 {
        Seq::empty()
    } else {
        all_view_descriptors(buffers, views.drop_last(), resource) + view_descriptors(
            buffers[views.last()],
            resource,
        )
    }
}

/// The descriptor writes of a view patch, with the order in which the views were
/// taken.
pub struct ViewPatch {
    pub views: Vec<u64>,
    pub writes: Vec<DescriptorWrite>,
}

impl BufferTable {
    /// Moves the views of a buffer to its new resource and gives the descriptors to
    /// write for them.
    pub fn patch_buffer_views_after_parent_resize(&mut self, parent: u64) -> (patch: Result<
        ViewPatch,
        BufferError,
    >)
        requires
            old(self).wf(),
        ensures
            final(self).wf(),
            final(self).next_handle == old(self).next_handle,
            match patch {
                Err(e) => e == BufferError::InvalidParent && !old(self).entries@.contains_key(
                    parent,
                ) && final(self).entries == old(self).entries,
                Ok(p) => {
                    let resource = old(self).entries@[parent].resource;
                    let views = views_of(old(self).entries@, parent);
                    &&& old(self).entries@.contains_key(parent)
                    &&& p.views@.no_duplicates()
                    &&& p.views@.to_set() == views
                    &&& p.writes@ == all_view_descriptors(
                        old(self).entries@,
                        p.views@,
                        resource,
                    )
                    &&& final(self).entries@.dom() == old(self).entries@.dom()
                    &&& forall|h: u64| #[trigger]
                        old(self).entries@.contains_key(h) ==> final(self).entries@[h] == if views.contains(
                            h,
                        ) {
                            moved_to(old(self).entries@[h], resource)
                        } else {
                            old(self).entries@[h]
                        }
                },
            },
    {
        let resource: u64 = match self.entries.get(&parent) {
            Some(b) => b.resource,
            None => {
                return Err(BufferError::InvalidParent);
            },
        };
        let views = keys_where(&self.entries, &(ViewsOf { parent }));
        let mut writes: Vec<DescriptorWrite> = Vec::new();
        let ghost start = self.entries@;
        let mut i: usize = 0;
        while i < views.len()
            invariant
                i <= views.len(),
                views@.no_duplicates(),
                views@.to_set() == views_of(start, parent),
                self.wf(),
                self.next_handle == old(self).next_handle,
                self.entries@.dom() == start.dom(),
                forall|h: u64| #[trigger] start.contains_key(h) ==> buffer_wf(start[h]),
                forall|h: u64| #[trigger]
                    start.contains_key(h) ==> self.entries@[h] == if views@.take(
                        i as int,
                    ).to_set().contains(h) {
                        moved_to(start[h], resource)
                    } else {
                        start[h]
                    },
                writes@ == all_view_descriptors(start, views@.take(i as int), resource),
            decreases views.len() - i,
        {
            let view: u64 = views[i];
            proof {
                super::context::lemma_take_to_set(views@, i as int);
            }
            assert(start.contains_key(view) && self.entries@.dom().contains(view));
            assert(views@.take(i + 1).drop_last() =~= views@.take(i as int));
            match self.entries.remove(&view) {
                Some(b) => {
                    let stride: u32 = match b.element_stride {
                        Some(stride) => stride,
                        None => 4,
                    };
                    let offset: u64 = match b.view_byte_offset {
                        Some(offset) => offset,
                        None => 0,
                    };
                    let first_element: u32 = (offset / (stride as u64)) as u32;
                    let num_elements: u32 = (b.size as u32) / stride;
                    match (b.bindless_offset, b.bindless_srv_offset) {
                        (Some(uav), Some(srv)) => {
                            if num_elements > 0 {
                                writes.push(
                                    DescriptorWrite::BufferUav {
                                        slot: uav,
                                        resource,
                                        first_element,
                                        num_elements,
                                        stride,
                                    },
                                );
                                writes.push(
                                    DescriptorWrite::BufferSrv {
                                        slot: srv,
                                        resource,
                                        first_element,
                                        num_elements,
                                        stride,
                                    },
                                );
                            }
                        },
                        _ => {},
                    }
                    assert(writes@ =~= all_view_descriptors(
                        start,
                        views@.take(i as int),
                        resource,
                    ) + view_descriptors(start[view], resource));
                    let mut moved = b;
                    moved.resource = resource;
                    self.entries.insert(view, moved);
                },
                None => {
                    assert(false);
                },
            }
            assert(self.entries@.dom() =~= start.dom());
            i += 1;
        }
        assert(views@.take(i as int) =~= views@);
        Ok(ViewPatch { views, writes })
    }
}

} // verus!
