//! Submission of command streams and graphs: the allocator slot a submission is
//! recorded from, the uploads staged before it, its calls, the descriptors it
//! uses and the bookkeeping once it is on its way.

use std::collections::HashMap;
use vstd::prelude::*;
use vstd::slice::slice_subrange;

use super::commands::{GpuCommand, GraphCommand, PushLayoutInfo, RenderBinding};
use super::context::{AllocatorSlot, DeferredSlot};
use super::types::{BufferState, RecordTables};

verus! {

broadcast use vstd::std_specs::hash::group_hash_axioms;

/// Reads a sixteen-bit word, least significant byte first.
///
/// Calls `bytemuck::pod_read_unaligned`, which copies the bytes of a slice of the
/// word's size into a word of the machine and panics on a slice of another size;
/// the word is then taken as little-endian, so the result does not depend on the
/// machine.
#[verifier::external_body]
fn read_u16(bytes: &[u8]) -> (word: u16)
    requires
        bytes@.len() == 2,
    ensures
        word == bytes@[0] + 256 * bytes@[1],
{
    u16::from_le(bytemuck::pod_read_unaligned::<u16>(bytes))
}

/// The bindless index at a byte of a batch's arguments.
pub open spec fn index_at(args: Seq<u8>, at: int) -> u32 {
    (args[at] + 256 * args[at + 1]) as u32
}

/// The first `n` indices of a push-constant block, without the unused ones, which
/// are zero.
pub open spec fn block_slots(layout: PushLayoutInfo, args: Seq<u8>, base: int, n: int) -> Seq<
    DeferredSlot,
>
    decreases n,
{
    if n <= 0 {
        Seq::empty()
    } else {
        let rest = block_slots(layout, args, base, n - 1);
        let index = index_at(args, base + layout.bindless_offset + 2 * (n - 1));
        if index != 0 {
            rest.push(DeferredSlot::CbvSrvUav(index))
        } else {
            rest
        }
    }
}

/// The indices of the first `count` dispatches of a batch, as far as their blocks
/// lie in the arguments.
pub open spec fn batch_slots(layout: PushLayoutInfo, args: Seq<u8>, count: int) -> Seq<DeferredSlot>
    decreases count,
{
    if count <= 0 {
        Seq::empty()
    } else {
        let base = (count - 1) * layout.stride;
        batch_slots(layout, args, count - 1) + if base + layout.size <= args.len() {
            block_slots(layout, args, base, layout.bindless_count as int)
        } else {
            Seq::empty()
        }
    }
}

/// The descriptors that one command uses.
pub open spec fn command_slots(layout: PushLayoutInfo, cmd: GpuCommand) -> Seq<DeferredSlot> {
    match cmd {
        GpuCommand::BindResourcesRaw { indices, user, frame_table_base } => indices@.map_values(
            |i: u32| DeferredSlot::CbvSrvUav(i),
        ),
        GpuCommand::BindResourcesTyped { handles } => handles@.map_values(
            |h: super::commands::TypedHandle| DeferredSlot::CbvSrvUav(h.index),
        ),
        GpuCommand::DispatchBatch { label, arg_data, count } => batch_slots(
            layout,
            arg_data@,
            count as int,
        ),
        _ => Seq::empty(),
    }
}

/// The descriptors that a command stream uses, in order.
pub open spec fn stream_slots(layout: PushLayoutInfo, commands: Seq<GpuCommand>) -> Seq<DeferredSlot>
    decreases commands.len(),
{
    if commands.len() == 0 {
        Seq::empty()
    } else {
        stream_slots(layout, commands.drop_last()) + command_slots(layout, commands.last())
    }
}

/// The descriptors of the known buffers among the handles.
pub open spec fn buffer_slots(buffers: Map<u64, BufferState>, handles: Seq<u64>) -> Seq<DeferredSlot>
    decreases handles.len(),
{
    if handles.len() == 0 {
        Seq::empty()
    } else {
        let rest = buffer_slots(buffers, handles.drop_last());
        let h = handles.last();
        if buffers.contains_key(h) && buffers[h].bindless_offset is Some {
            rest.push(DeferredSlot::CbvSrvUav(buffers[h].bindless_offset->0))
        } else {
            rest
        }
    }
}

/// The descriptors that one command of a render pass uses.
pub open spec fn render_slots(buffers: Map<u64, BufferState>, cmd: RenderBinding) -> Seq<DeferredSlot> {
    match cmd {
        RenderBinding::BindResources { buffers: handles } => buffer_slots(buffers, handles@),
        RenderBinding::BindResourcesRaw { indices } => indices@.map_values(
            |i: u32| DeferredSlot::CbvSrvUav(i),
        ),
        RenderBinding::BindResourcesTyped { handles } => handles@.map_values(
            |h: super::commands::TypedHandle| DeferredSlot::CbvSrvUav(h.index),
        ),
        _ => Seq::empty(),
    }
}

/// The descriptors that a render pass uses, in order.
pub open spec fn pass_slots(buffers: Map<u64, BufferState>, commands: Seq<RenderBinding>) -> Seq<
    DeferredSlot,
>
    decreases commands.len(),
{
    if commands.len() == 0 {
        Seq::empty()
    } else {
        pass_slots(buffers, commands.drop_last()) + render_slots(buffers, commands.last())
    }
}

/// The descriptors that a graph uses, in order.
pub open spec fn graph_slots(
    layout: PushLayoutInfo,
    buffers: Map<u64, BufferState>,
    commands: Seq<GraphCommand>,
) -> Seq<DeferredSlot>
    decreases commands.len(),
{
    if commands.len() == 0 {
        Seq::empty()
    } else {
        graph_slots(layout, buffers, commands.drop_last()) + match commands.last() {
            GraphCommand::Compute(cmd) => command_slots(layout, cmd),
            GraphCommand::Render { target, commands: pass, stages_frame_table } => pass_slots(
                buffers,
                pass@,
            ),
        }
    }
}

fn append_indices(slots: &mut Vec<DeferredSlot>, indices: &Vec<u32>)
    ensures
        final(slots)@ == old(slots)@ + indices@.map_values(|i: u32| DeferredSlot::CbvSrvUav(i)),
{
    let ghost start = slots@;
    let mut i: usize = 0;
    while i < indices.len()
        invariant
            i <= indices.len(),
            slots@ == start + indices@.take(i as int).map_values(
                |i: u32| DeferredSlot::CbvSrvUav(i),
            ),
        decreases indices.len() - i,
    {
        slots.push(DeferredSlot::CbvSrvUav(indices[i]));
        i += 1;
    }
    assert(indices@.take(i as int) =~= indices@);
}

fn append_typed(slots: &mut Vec<DeferredSlot>, handles: &Vec<super::commands::TypedHandle>)
    ensures
        final(slots)@ == old(slots)@ + handles@.map_values(
            |h: super::commands::TypedHandle| DeferredSlot::CbvSrvUav(h.index),
        ),
{
    let ghost start = slots@;
    let mut i: usize = 0;
    while i < handles.len()
        invariant
            i <= handles.len(),
            slots@ == start + handles@.take(i as int).map_values(
                |h: super::commands::TypedHandle| DeferredSlot::CbvSrvUav(h.index),
            ),
        decreases handles.len() - i,
    {
        slots.push(DeferredSlot::CbvSrvUav(handles[i].index));
        i += 1;
    }
    assert(handles@.take(i as int) =~= handles@);
}

fn append_block(slots: &mut Vec<DeferredSlot>, layout: &PushLayoutInfo, args: &Vec<u8>, base: usize)
    requires
        layout.wf(),
        base + layout.size <= args@.len(),
    ensures
        final(slots)@ == old(slots)@ + block_slots(
            *layout,
            args@,
            base as int,
            layout.bindless_count as int,
        ),
{
    let ghost start = slots@;
    let len: usize = args.len();
    let mut j: usize = 0;
    while j < layout.bindless_count
        invariant
            j <= layout.bindless_count,
            layout.wf(),
            base + layout.size <= len,
            len == args@.len(),
            slots@ == start + block_slots(*layout, args@, base as int, j as int),
        decreases layout.bindless_count - j,
    {
        let at: usize = base + layout.bindless_offset + 2 * j;
        let word: u16 = read_u16(slice_subrange(args.as_slice(), at, at + 2));
        assert(word as u32 == index_at(args@, at as int));
        if word != 0 {
            slots.push(DeferredSlot::CbvSrvUav(word as u32));
        }
        assert(slots@ =~= start + block_slots(*layout, args@, base as int, j + 1));
        j += 1;
    }
}

fn append_batch(slots: &mut Vec<DeferredSlot>, layout: &PushLayoutInfo, args: &Vec<u8>, count: u32)
    requires
        layout.wf(),
    ensures
        final(slots)@ == old(slots)@ + batch_slots(*layout, args@, count as int),
{
    let ghost start = slots@;
    let len: usize = args.len();
    let mut i: u32 = 0;
    while i < count
        invariant
            i <= count,
            layout.wf(),
            len == args@.len(),
            slots@ == start + batch_slots(*layout, args@, i as int),
        decreases count - i,
    {
        assert(i * layout.stride <= 0xffff_ffff * 0x1_0000 && 0 <= i * layout.stride)
            by (nonlinear_arith)
            requires
                0 <= i <= 0xffff_ffff,
                0 <= layout.stride <= 0x1_0000,
        ;
        let base: u64 = i as u64 * layout.stride as u64;
        let ghost before = slots@;
        if base + layout.size as u64 <= len as u64 {
            append_block(slots, layout, args, base as usize);
        }
        assert(slots@ =~= start + batch_slots(*layout, args@, i + 1));
        i += 1;
    }
}

fn append_command(slots: &mut Vec<DeferredSlot>, layout: &PushLayoutInfo, cmd: &GpuCommand)
    requires
        layout.wf(),
    ensures
        final(slots)@ == old(slots)@ + command_slots(*layout, *cmd),
{
    match cmd {
        GpuCommand::BindResourcesRaw { indices, .. } => {
            append_indices(slots, indices);
        },
        GpuCommand::BindResourcesTyped { handles } => {
            append_typed(slots, handles);
        },
        GpuCommand::DispatchBatch { arg_data, count, .. } => {
            append_batch(slots, layout, arg_data, *count);
        },
        _ => {
            assert(slots@ =~= slots@ + Seq::<DeferredSlot>::empty());
        },
    }
}

/// Collects the bindless descriptors that a command stream uses.
pub fn collect_bindless_slots_from_gpu_commands(
    layout: &PushLayoutInfo,
    commands: &Vec<GpuCommand>,
) -> (slots: Vec<DeferredSlot>)
    requires
        layout.wf(),
    ensures
        slots@ == stream_slots(*layout, commands@),
{
    let mut slots: Vec<DeferredSlot> = Vec::new();
    let mut i: usize = 0;
    while i < commands.len()
        invariant
            i <= commands.len(),
            layout.wf(),
            slots@ == stream_slots(*layout, commands@.take(i as int)),
        decreases commands.len() - i,
    {
        append_command(&mut slots, layout, &commands[i]);
        assert(commands@.take(i + 1).drop_last() =~= commands@.take(i as int));
        i += 1;
    }
    assert(commands@.take(i as int) =~= commands@);
    slots
}

fn append_buffers(
    slots: &mut Vec<DeferredSlot>,
    buffers: &HashMap<u64, BufferState>,
    handles: &Vec<u64>,
)
    ensures
        final(slots)@ == old(slots)@ + buffer_slots(buffers@, handles@),
{
    let ghost start = slots@;
    let mut i: usize = 0;
    while i < handles.len()
        invariant
            i <= handles.len(),
            slots@ == start + buffer_slots(buffers@, handles@.take(i as int)),
        decreases handles.len() - i,
    {
        assert(handles@.take(i + 1).drop_last() =~= handles@.take(i as int));
        match buffers.get(&handles[i]) {
            Some(b) => match b.bindless_offset {
                Some(offset) => {
                    slots.push(DeferredSlot::CbvSrvUav(offset));
                },
                None => {},
            },
            None => {},
        }
        assert(slots@ =~= start + buffer_slots(buffers@, handles@.take(i + 1)));
        i += 1;
    }
    assert(handles@.take(i as int) =~= handles@);
}

fn append_pass(
    slots: &mut Vec<DeferredSlot>,
    buffers: &HashMap<u64, BufferState>,
    commands: &Vec<RenderBinding>,
)
    ensures
        final(slots)@ == old(slots)@ + pass_slots(buffers@, commands@),
{
    let ghost start = slots@;
    let mut i: usize = 0;
    while i < commands.len()
        invariant
            i <= commands.len(),
            slots@ == start + pass_slots(buffers@, commands@.take(i as int)),
        decreases commands.len() - i,
    {
        assert(commands@.take(i + 1).drop_last() =~= commands@.take(i as int));
        let ghost before = slots@;
        match &commands[i] {
            RenderBinding::BindResources { buffers: handles } => {
                append_buffers(slots, buffers, handles);
            },
            RenderBinding::BindResourcesRaw { indices } => {
                append_indices(slots, indices);
            },
            RenderBinding::BindResourcesTyped { handles } => {
                append_typed(slots, handles);
            },
            _ => {
                assert(slots@ =~= before + Seq::<DeferredSlot>::empty());
            },
        }
        assert(slots@ =~= start + pass_slots(buffers@, commands@.take(i + 1)));
        i += 1;
    }
    assert(commands@.take(i as int) =~= commands@);
}

/// Collects the bindless descriptors that a mixed compute and render graph uses.
pub fn collect_bindless_slots_from_graph_commands(
    layout: &PushLayoutInfo,
    buffers: &HashMap<u64, BufferState>,
    commands: &Vec<GraphCommand>,
) -> (slots: Vec<DeferredSlot>)
    requires
        layout.wf(),
    ensures
        slots@ == graph_slots(*layout, buffers@, commands@),
{
    let mut slots: Vec<DeferredSlot> = Vec::new();
    let mut i: usize = 0;
    while i < commands.len()
        invariant
            i <= commands.len(),
            layout.wf(),
            slots@ == graph_slots(*layout, buffers@, commands@.take(i as int)),
        decreases commands.len() - i,
    {
        assert(commands@.take(i + 1).drop_last() =~= commands@.take(i as int));
        match &commands[i] {
            GraphCommand::Compute(cmd) => {
                append_command(&mut slots, layout, cmd);
            },
            GraphCommand::Render { commands: pass, .. } => {
                append_pass(&mut slots, buffers, pass);
            },
        }
        i += 1;
    }
    assert(commands@.take(i as int) =~= commands@);
    slots
}

/// The label of a dispatching command.
pub open spec fn dispatch_label(cmd: GpuCommand) -> Option<Option<&'static str>> {
    match cmd {
        GpuCommand::Dispatch { label, workgroups_x, workgroups_y, workgroups_z } => Some(label),
        GpuCommand::DispatchIndirect { label, buffer, offset } => Some(label),
        GpuCommand::DispatchBatch { label, arg_data, count } => Some(label),
        _ => None,
    }
}

/// The labels of the dispatching commands of a stream, in order.
pub open spec fn stream_labels(commands: Seq<GpuCommand>) -> Seq<Option<&'static str>>
    decreases commands.len(),
{
    if commands.len() == 0 {
        Seq::empty()
    } else {
        match dispatch_label(commands.last()) {
            Some(label) => stream_labels(commands.drop_last()).push(label),
            None => stream_labels(commands.drop_last()),
        }
    }
}

/// The labels of the dispatching commands of a graph, in order.
pub open spec fn graph_labels(commands: Seq<GraphCommand>) -> Seq<Option<&'static str>>
    decreases commands.len(),
{
    if commands.len() == 0 {
        Seq::empty()
    } else {
        let rest = graph_labels(commands.drop_last());
        match commands.last() {
            GraphCommand::Compute(cmd) => match dispatch_label(cmd) {
                Some(label) => rest.push(label),
                None => rest,
            },
            GraphCommand::Render { .. } => rest,
        }
    }
}

fn label_of(cmd: &GpuCommand) -> (label: Option<Option<&'static str>>)
    ensures
        label == dispatch_label(*cmd),
{
    match cmd {
        GpuCommand::Dispatch { label, .. } => Some(*label),
        GpuCommand::DispatchIndirect { label, .. } => Some(*label),
        GpuCommand::DispatchBatch { label, .. } => Some(*label),
        _ => None,
    }
}

/// Collects the labels of the dispatches of a command stream.
pub fn dx12_collect_dispatch_labels(commands: &Vec<GpuCommand>) -> (labels: Vec<Option<&'static str>>)
    ensures
        labels@ == stream_labels(commands@),
{
    let mut labels: Vec<Option<&'static str>> = Vec::new();
    let mut i: usize = 0;
    while i < commands.len()
        invariant
            i <= commands.len(),
            labels@ == stream_labels(commands@.take(i as int)),
        decreases commands.len() - i,
    {
        assert(commands@.take(i + 1).drop_last() =~= commands@.take(i as int));
        match label_of(&commands[i]) {
            Some(label) => {
                labels.push(label);
            },
            None => {},
        }
        i += 1;
    }
    assert(commands@.take(i as int) =~= commands@);
    labels
}

/// Collects the labels of the dispatches of a graph.
pub fn dx12_collect_dispatch_labels_graph(commands: &Vec<GraphCommand>) -> (labels: Vec<
    Option<&'static str>,
>)
    ensures
        labels@ == graph_labels(commands@),
{
    let mut labels: Vec<Option<&'static str>> = Vec::new();
    let mut i: usize = 0;
    while i < commands.len()
        invariant
            i <= commands.len(),
            labels@ == graph_labels(commands@.take(i as int)),
        decreases commands.len() - i,
    {
        assert(commands@.take(i + 1).drop_last() =~= commands@.take(i as int));
        match &commands[i] {
            GraphCommand::Compute(cmd) => match label_of(cmd) {
                Some(label) => {
                    labels.push(label);
                },
                None => {},
            },
            GraphCommand::Render { .. } => {},
        }
        i += 1;
    }
    assert(commands@.take(i as int) =~= commands@);
    labels
}

/// Sizes of the timestamp queries of a submission.
#[derive(Clone, Copy, Debug, PartialEq, Eq, Structural)]
pub struct ProfilePlan {
    pub query_count: u32,
    /// Bytes of the buffer that the timestamps are resolved into.
    pub readback_width: u64,
}

/// Two timestamps for the list and two for each dispatch, as far as the counter
/// goes; eight bytes each, in a buffer of a multiple of 256 bytes.
pub open spec fn profile_plan(dispatches: usize) -> ProfilePlan {
    let n = (dispatches as u32) as int;
    let twice: int = if 2 * n > u32::MAX {
        u32::MAX as int
    } else {
        2 * n
    };
    let count: int = if twice + 2 > u32::MAX {
        u32::MAX as int
    } else {
        twice + 2
    };
    let bytes: int = if 8 * count < 256 {
        256
    } else {
        8 * count
    };
    ProfilePlan {
        query_count: count as u32,
        readback_width: ((bytes + 255) / 256 * 256) as u64,
    }
}

/// Plans the timestamp queries for a number of dispatches.
pub fn plan_gpu_profile(dispatches: usize) -> (plan: ProfilePlan)
    ensures
        plan == profile_plan(dispatches),
        plan.readback_width % 256 == 0,
        plan.readback_width >= 8 * plan.query_count,
{
    let n: u32 = dispatches as u32;
    let twice: u32 = match n.checked_mul(2) {
        Some(t) => t,
        None => u32::MAX,
    };
    let query_count: u32 = twice.saturating_add(2);
    let data: u64 = query_count as u64 * 8;
    let bytes: u64 = if data < 256 { 256 } else { data };
    let readback_width: u64 = (bytes + 255) / 256 * 256;
    ProfilePlan { query_count, readback_width }
}

/// The timestamps of one timed span.
#[derive(Clone, Copy, Debug)]
pub struct TimedSpan {
    pub label: &'static str,
    pub start: u64,
    pub end: u64,
}

/// The span of the `i`th dispatch. A dispatch without a label is called
/// `dispatch`.
pub open spec fn dispatch_span(values: Seq<u64>, labels: Seq<Option<&'static str>>, i: int) -> TimedSpan {
    TimedSpan {
        label: match labels[i] {
            Some(label) => label,
            None => "dispatch",
        },
        start: values[2 + 2 * i],
        end: values[3 + 2 * i],
    }
}

/// Pairs the timestamps read back from a submission with its dispatches.
pub fn dx12_readback_gpu_profile(values: &Vec<u64>, labels: &Vec<Option<&'static str>>) -> (spans: Vec<
    TimedSpan,
>)
    requires
        values@.len() >= 2 + 2 * labels@.len(),
    ensures
        spans@ == Seq::new(labels@.len(), |i: int| dispatch_span(values@, labels@, i)),
{
    let mut spans: Vec<TimedSpan> = Vec::new();
    let n: usize = values.len();
    let mut i: usize = 0;
    while i < labels.len()
        invariant
            i <= labels.len(),
            n == values@.len(),
            values@.len() >= 2 + 2 * labels@.len(),
            spans@ == Seq::new(i as nat, |i: int| dispatch_span(values@, labels@, i)),
        decreases labels.len() - i,
    {
        let label: &'static str = match labels[i] {
            Some(label) => label,
            None => "dispatch",
        };
        spans.push(TimedSpan { label, start: values[2 + 2 * i], end: values[3 + 2 * i] });
        assert(spans@ =~= Seq::new((i + 1) as nat, |i: int| dispatch_span(values@, labels@, i)));
        i += 1;
    }
    spans
}

/// Ticks between two timestamps of a counter that wraps.
pub fn span_ticks(span: &TimedSpan) -> (ticks: u64)
    ensures
        ticks == (if span.end >= span.start {
            (span.end - span.start) as u64
        } else {
            (span.end - span.start + 0x1_0000_0000_0000_0000) as u64
        }),
{
    span.end.wrapping_sub(span.start)
}

/// A slot whose last submission has retired and whose list is not retained.
pub open spec fn slot_reusable(slot: AllocatorSlot, completed: u64) -> bool {
    completed >= slot.fence_value && !slot.retained
}

/// `idx` is the first reusable slot of a pool, or its length where there is none.
pub open spec fn first_reusable(pool: Seq<AllocatorSlot>, completed: u64, idx: int) -> bool {
    &&& 0 <= idx <= pool.len()
    &&& forall|j: int| 0 <= j < idx ==> !slot_reusable(#[trigger] pool[j], completed)
    &&& idx < pool.len() ==> slot_reusable(pool[idx], completed)
}

/// What has to be done before a slot can be recorded from.
#[derive(Clone, Copy, Debug, PartialEq, Eq, Structural)]
pub enum SlotWork {
    /// Reset the allocator and its list.
    Reset { command_list: u64 },
    /// Reset the allocator and make a list for it.
    CreateList,
    /// Make an allocator and a list.
    CreateBoth,
}

/// Chooses the allocator slot for a submission: the first one that can be reused,
/// else a new one at the end of the pool.
pub fn choose_allocator_slot(pool: &Vec<AllocatorSlot>, completed: u64) -> (choice: (usize, SlotWork))
    ensures
        first_reusable(pool@, completed, choice.0 as int),
        choice.1 == (if choice.0 == pool@.len() {
            SlotWork::CreateBoth
        } else {
            match pool@[choice.0 as int].command_list {
                Some(command_list) => SlotWork::Reset { command_list },
                None => SlotWork::CreateList,
            }
        }),
{
    let mut i: usize = 0;
    while i < pool.len()
        invariant
            i <= pool.len(),
            forall|j: int| 0 <= j < i ==> !slot_reusable(#[trigger] pool@[j], completed),
        decreases pool.len() - i,
    {
        let slot = pool[i];
        if completed >= slot.fence_value && !slot.retained {
            return (
                i,
                match slot.command_list {
                    Some(command_list) => SlotWork::Reset { command_list },
                    None => SlotWork::CreateList,
                },
            );
        }
        i += 1;
    }
    (i, SlotWork::CreateBoth)
}

/// The pool once a slot holds the allocator and the list it is recorded from.
pub open spec fn with_slot(
    pool: Seq<AllocatorSlot>,
    idx: int,
    allocator: u64,
    command_list: u64,
) -> Seq<AllocatorSlot> {
    if idx < pool.len() {
        pool.update(idx, AllocatorSlot { command_list: Some(command_list), ..pool[idx] })
    } else {
        pool.push(
            AllocatorSlot {
                allocator,
                command_list: Some(command_list),
                fence_value: 0,
                retained: false,
            },
        )
    }
}

/// Notes the list that a chosen slot is recorded into, and the allocator where the
/// slot is new.
pub fn adopt_allocator_slot(
    pool: &mut Vec<AllocatorSlot>,
    idx: usize,
    allocator: u64,
    command_list: u64,
)
    requires
        idx <= old(pool)@.len(),
    ensures
        final(pool)@ == with_slot(old(pool)@, idx as int, allocator, command_list),
{
    if idx < pool.len() {
        let slot = pool[idx];
        pool.set(idx, AllocatorSlot { command_list: Some(command_list), ..slot });
    } else {
        pool.push(
            AllocatorSlot {
                allocator,
                command_list: Some(command_list),
                fence_value: 0,
                retained: false,
            },
        );
    }
}

/// An upload to stage before a command is recorded.
#[derive(Clone, Copy, Debug, PartialEq, Eq, Structural)]
pub enum StagingStep {
    /// Write the command's bytes to the staging belt of a device.
    BeltWrite { command: usize, device: u64 },
    /// Prepare the command's texture upload.
    TextureUpload { command: usize },
}

/// Why a submission is refused before it is recorded.
#[derive(Clone, Copy, Debug, PartialEq, Eq, Structural)]
pub enum PrepassError {
    WriteBufferInvalidHandle { command: usize },
    WriteBufferDeviceMissing { command: usize },
}

/// The upload that one command needs staged.
pub open spec fn staging_step(tables: RecordTables, cmd: GpuCommand, command: usize) -> Result<
    Option<StagingStep>,
    PrepassError,
> {
    match cmd {
        GpuCommand::WriteBuffer { buffer, offset, data } => if !tables.buffers@.contains_key(
            buffer,
        ) {
            Err(PrepassError::WriteBufferInvalidHandle { command })
        } else if !tables.buffers@[buffer].is_storage {
            Ok(None)
        } else if !tables.devices@.contains_key(tables.buffers@[buffer].device_handle) {
            Err(PrepassError::WriteBufferDeviceMissing { command })
        } else {
            Ok(
                Some(
                    StagingStep::BeltWrite {
                        command,
                        device: tables.buffers@[buffer].device_handle,
                    },
                ),
            )
        },
        GpuCommand::WriteTexture { .. } => Ok(Some(StagingStep::TextureUpload { command })),
        GpuCommand::WriteTextureRegion { .. } => Ok(Some(StagingStep::TextureUpload { command })),
        GpuCommand::CopyBufferToTexture { .. } => Ok(Some(StagingStep::TextureUpload { command })),
        _ => Ok(None),
    }
}

fn staging_step_of(tables: &RecordTables, cmd: &GpuCommand, command: usize) -> (step: Result<
    Option<StagingStep>,
    PrepassError,
>)
    ensures
        step == staging_step(*tables, *cmd, command),
{
    match cmd {
        GpuCommand::WriteBuffer { buffer, .. } => match tables.buffers.get(buffer) {
            Some(b) => {
                if !b.is_storage {
                    Ok(None)
                } else if !tables.devices.contains_key(&b.device_handle) {
                    Err(PrepassError::WriteBufferDeviceMissing { command })
                } else {
                    Ok(Some(StagingStep::BeltWrite { command, device: b.device_handle }))
                }
            },
            None => Err(PrepassError::WriteBufferInvalidHandle { command }),
        },
        GpuCommand::WriteTexture { .. } => Ok(Some(StagingStep::TextureUpload { command })),
        GpuCommand::WriteTextureRegion { .. } => Ok(Some(StagingStep::TextureUpload { command })),
        GpuCommand::CopyBufferToTexture { .. } => Ok(Some(StagingStep::TextureUpload { command })),
        _ => Ok(None),
    }
}

/// The uploads of a command stream, or the first reason against it.
pub open spec fn stream_staging(tables: RecordTables, commands: Seq<GpuCommand>) -> Result<
    Seq<StagingStep>,
    PrepassError,
>
    decreases commands.len(),
{
    if commands.len() == 0 {
        Ok(Seq::empty())
    } else {
        match stream_staging(tables, commands.drop_last()) {
            Err(e) => Err(e),
            Ok(steps) => match staging_step(
                tables,
                commands.last(),
                (commands.len() - 1) as usize,
            ) {
                Err(e) => Err(e),
                Ok(None) => Ok(steps),
                Ok(Some(step)) => Ok(steps.push(step)),
            },
        }
    }
}

/// The uploads of a graph, or the first reason against it.
pub open spec fn graph_staging(tables: RecordTables, commands: Seq<GraphCommand>) -> Result<
    Seq<StagingStep>,
    PrepassError,
>
    decreases commands.len(),
{
    if commands.len() == 0 {
        Ok(Seq::empty())
    } else {
        match graph_staging(tables, commands.drop_last()) {
            Err(e) => Err(e),
            Ok(steps) => match commands.last() {
                GraphCommand::Render { .. } => Ok(steps),
                GraphCommand::Compute(cmd) => match staging_step(
                    tables,
                    cmd,
                    (commands.len() - 1) as usize,
                ) {
                    Err(e) => Err(e),
                    Ok(None) => Ok(steps),
                    Ok(Some(step)) => Ok(steps.push(step)),
                },
            },
        }
    }
}

proof fn lemma_stream_staging_error(tables: RecordTables, commands: Seq<GpuCommand>, n: int)
    requires
        0 <= n <= commands.len(),
        stream_staging(tables, commands.take(n)) is Err,
    ensures
        stream_staging(tables, commands) == stream_staging(tables, commands.take(n)),
    decreases commands.len() - n,
{
    if n < commands.len() {
        assert(commands.take(n + 1).drop_last() =~= commands.take(n));
        lemma_stream_staging_error(tables, commands, n + 1);
    } else {
        assert(commands.take(n) =~= commands);
    }
}

proof fn lemma_graph_staging_error(tables: RecordTables, commands: Seq<GraphCommand>, n: int)
    requires
        0 <= n <= commands.len(),
        graph_staging(tables, commands.take(n)) is Err,
    ensures
        graph_staging(tables, commands) == graph_staging(tables, commands.take(n)),
    decreases commands.len() - n,
{
    if n < commands.len() {
        assert(commands.take(n + 1).drop_last() =~= commands.take(n));
        lemma_graph_staging_error(tables, commands, n + 1);
    } else {
        assert(commands.take(n) =~= commands);
    }
}

/// Plans the uploads to stage before a command stream is recorded.
pub fn upload_prepass(tables: &RecordTables, commands: &Vec<GpuCommand>) -> (result: Result<
    Vec<StagingStep>,
    PrepassError,
>)
    ensures
        match stream_staging(*tables, commands@) {
            Ok(steps) => result matches Ok(v) && v@ == steps,
            Err(e) => result == Err::<Vec<StagingStep>, PrepassError>(e),
        },
{
    let mut steps: Vec<StagingStep> = Vec::new();
    let mut i: usize = 0;
    while i < commands.len()
        invariant
            i <= commands.len(),
            stream_staging(*tables, commands@.take(i as int)) matches Ok(s) && s == steps@,
        decreases commands.len() - i,
    {
        assert(commands@.take(i + 1).drop_last() =~= commands@.take(i as int));
        match staging_step_of(tables, &commands[i], i) {
            Ok(Some(step)) => {
                steps.push(step);
            },
            Ok(None) => {},
            Err(e) => {
                proof {
                    lemma_stream_staging_error(*tables, commands@, i + 1);
                }
                return Err(e);
            },
        }
        i += 1;
    }
    assert(commands@.take(i as int) =~= commands@);
    Ok(steps)
}

/// Plans the uploads to stage before a graph is recorded.
pub fn upload_prepass_graph(tables: &RecordTables, commands: &Vec<GraphCommand>) -> (result: Result<
    Vec<StagingStep>,
    PrepassError,
>)
    ensures
        match graph_staging(*tables, commands@) {
            Ok(steps) => result matches Ok(v) && v@ == steps,
            Err(e) => result == Err::<Vec<StagingStep>, PrepassError>(e),
        },
{
    let mut steps: Vec<StagingStep> = Vec::new();
    let mut i: usize = 0;
    while i < commands.len()
        invariant
            i <= commands.len(),
            graph_staging(*tables, commands@.take(i as int)) matches Ok(s) && s == steps@,
        decreases commands.len() - i,
    {
        assert(commands@.take(i + 1).drop_last() =~= commands@.take(i as int));
        match &commands[i] {
            GraphCommand::Compute(cmd) => match staging_step_of(tables, cmd, i) {
                Ok(Some(step)) => {
                    steps.push(step);
                },
                Ok(None) => {},
                Err(e) => {
                    proof {
                        lemma_graph_staging_error(*tables, commands@, i + 1);
                    }
                    return Err(e);
                },
            },
            GraphCommand::Render { .. } => {},
        }
        i += 1;
    }
    assert(commands@.take(i as int) =~= commands@);
    Ok(steps)
}

} // verus!
