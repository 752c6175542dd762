//! The submission worker: what one submission does before, in and after its body.

use std::collections::HashMap;
use vstd::prelude::*;

use super::execute::{in_range, ExecEnv, ExecError, SyncPoint};
use super::ops::{
    collect_pins, has_indirect, launches_known, ops_contain_indirect, pinned_buffers,
    CudaLaunchSegment, CudaOp, CudaOpSegment, LaunchArg, LaunchRecord,
};

verus! {

broadcast use vstd::std_specs::hash::group_hash_axioms;

/// A write of the host that was put off to the submission that needs it.
#[derive(Clone, Copy, Debug, PartialEq, Eq, Structural)]
pub struct DeferredHostWrite {
    pub buffer: u64,
    pub offset: u64,
    /// Names the bytes.
    pub payload: usize,
    pub len: u64,
}

/// Where a buffer lies: its memory, and its first byte in it.
#[derive(Clone, Copy, Debug, PartialEq, Eq, Structural)]
pub struct BufferPlace {
    pub memory: u64,
    pub base_offset: u64,
}

/// A deferred write with its place in memory.
#[derive(Clone, Copy, Debug, PartialEq, Eq, Structural)]
pub struct MaterializedHostWrite {
    pub memory: u64,
    pub abs_offset: u64,
    pub payload: usize,
    pub len: u64,
}

/// A deferred write names a buffer that does not exist.
#[derive(Clone, Copy, Debug, PartialEq, Eq, Structural)]
pub struct UnknownBuffer {
    pub buffer: u64,
}

/// A deferred write at its place.
pub open spec fn placed(places: Map<u64, BufferPlace>, write: DeferredHostWrite) -> MaterializedHostWrite {
    MaterializedHostWrite {
        memory: places[write.buffer].memory,
        abs_offset: (places[write.buffer].base_offset + write.offset) as u64,
        payload: write.payload,
        len: write.len,
    }
}

/// Resolves the buffers of deferred writes. The first write whose buffer does not
/// exist fails.
pub fn materialize_deferred_writes(
    writes: &Vec<DeferredHostWrite>,
    places: &HashMap<u64, BufferPlace>,
) -> (result: Result<Vec<MaterializedHostWrite>, UnknownBuffer>)
    requires
        forall|i: int|
            0 <= i < writes@.len() && places@.contains_key((#[trigger] writes@[i]).buffer)
                ==> places@[writes@[i].buffer].base_offset + writes@[i].offset <= u64::MAX,
    ensures
        match result {
            Ok(out) => {
                &&& forall|i: int|
                    0 <= i < writes@.len() ==> places@.contains_key((#[trigger] writes@[i]).buffer)
                &&& out@ == writes@.map_values(|w: DeferredHostWrite| placed(places@, w))
            },
            Err(e) => exists|i: int|
                {
                    &&& 0 <= i < writes@.len()
                    &&& (#[trigger] writes@[i]).buffer == e.buffer
                    &&& !places@.contains_key(e.buffer)
                    &&& forall|j: int|
                        0 <= j < i ==> places@.contains_key((#[trigger] writes@[j]).buffer)
                },
        },
{
    let mut out: Vec<MaterializedHostWrite> = Vec::new();
    let mut i: usize = 0;
    while i < writes.len()
        invariant
            i <= writes.len(),
            forall|i: int|
                0 <= i < writes@.len() && places@.contains_key((#[trigger] writes@[i]).buffer)
                    ==> places@[writes@[i].buffer].base_offset + writes@[i].offset <= u64::MAX,
            forall|j: int| 0 <= j < i ==> places@.contains_key((#[trigger] writes@[j]).buffer),
            out@.len() == i,
            forall|j: int| 0 <= j < i ==> #[trigger] out@[j] == placed(places@, writes@[j]),
        decreases writes.len() - i,
    {
        let write = writes[i];
        match places.get(&write.buffer) {
            Some(place) => {
                out.push(
                    MaterializedHostWrite {
                        memory: place.memory,
                        abs_offset: place.base_offset + write.offset,
                        payload: write.payload,
                        len: write.len,
                    },
                );
            },
            None => {
                return Err(UnknownBuffer { buffer: write.buffer });
            },
        }
        i += 1;
    }
    assert(out@ =~= writes@.map_values(|w: DeferredHostWrite| placed(places@, w)));
    Ok(out)
}

/// The kernel argument for a range of a buffer: its address, and how many elements
/// of `element_stride` bytes it holds. `None` where the range leaves the
/// allocation.
pub fn buffer_device_arg(
    base: u64,
    allocation_len: u64,
    offset: u64,
    size: u64,
    element_stride: Option<u32>,
) -> (arg: Option<LaunchArg>)
    requires
        offset + size <= u64::MAX,
        base + allocation_len <= u64::MAX,
    ensures
        arg == (if offset + size > allocation_len {
            None
        } else {
            let stride: int = if element_stride is Some && element_stride->Some_0 > 1 {
                element_stride->Some_0 as int
            } else {
                1
            };
            Some(
                LaunchArg::Buffer {
                    data: (base + offset) as u64,
                    count: (size as int / stride) as u64,
                },
            )
        }),
{
    if offset + size > allocation_len {
        return None;
    }
    let stride: u64 = match element_stride {
        Some(stride) => if stride > 1 {
            stride as u64
        } else {
            1
        },
        None => 1,
    };
    let count: u64 = if size == 0 {
        0
    } else {
        size / stride
    };
    Some(LaunchArg::Buffer { data: base + offset, count })
}

/// One step of a submission.
#[derive(Clone, Copy, Debug, PartialEq, Eq, Structural)]
pub enum WorkerStep {
    /// Waits on the host for an event.
    HostWait { event: u64 },
    /// Uploads the bytes of a deferred write.
    Upload { write: MaterializedHostWrite },
    /// Lets the stream wait for an event.
    StreamWait { event: u64 },
    /// Lets the stream wait for an external fence.
    FenceWait { value: u64 },
    /// Fails with an error.
    Fail { error: ExecError },
    /// Executes the operations of a segment on the stream.
    ExecuteOps { segment: usize },
    /// Lets the stream wait for the memory that the operations of a segment touch.
    Prime { segment: usize },
    /// Captures the operations of a segment into a graph.
    Capture { segment: usize },
    CountCapture,
    /// Uploads the captured graph to the device.
    UploadGraph,
    LaunchCaptured,
    CountLaunch,
    Validate { point: SyncPoint },
    /// Keeps the captured graph with what the operations of the segment pin.
    KeepIsland { segment: usize },
    /// Puts the kept islands into the registry.
    CommitProgram,
    /// Launches a retained island.
    LaunchIsland { island: usize },
}

/// Waits for events on the host.
pub open spec fn host_waits(events: Seq<u64>) -> Seq<WorkerStep> {
    events.map_values(|event: u64| WorkerStep::HostWait { event })
}

/// Waits of the stream for events.
pub open spec fn stream_waits(events: Seq<u64>) -> Seq<WorkerStep> {
    events.map_values(|event: u64| WorkerStep::StreamWait { event })
}

/// Waits of the stream for values of the external fence.
pub open spec fn fence_waits(values: Seq<u64>) -> Seq<WorkerStep> {
    values.map_values(|value: u64| WorkerStep::FenceWait { value })
}

/// A deferred write stays in its allocation.
pub open spec fn write_fits(env: ExecEnv, write: MaterializedHostWrite) -> bool {
    in_range(env, write.memory, write.abs_offset, write.len)
}

/// The uploads of deferred writes, up to the first that leaves its allocation.
pub open spec fn uploads(env: ExecEnv, writes: Seq<MaterializedHostWrite>) -> Seq<WorkerStep>
    decreases writes.len(),
{
    if writes.len() == 0 {
        Seq::empty()
    } else {
        let before = uploads(env, writes.drop_last());
        if !all_fit(env, writes.drop_last()) {
            before
        } else if !write_fits(env, writes.last()) {
            before.push(WorkerStep::Fail { error: ExecError::DeferredWriteOutOfBounds })
        } else {
            before.push(WorkerStep::Upload { write: writes.last() }).push(
                WorkerStep::Validate { point: SyncPoint::DeferredHostWrite },
            )
        }
    }
}

/// Every deferred write stays in its allocation.
pub open spec fn all_fit(env: ExecEnv, writes: Seq<MaterializedHostWrite>) -> bool {
    forall|i: int| 0 <= i < writes.len() ==> write_fits(env, #[trigger] writes[i])
}

/// What a submission waits for and writes before its body.
pub struct Prefix {
    pub host_waits: Vec<u64>,
    pub deferred_writes: Vec<MaterializedHostWrite>,
    pub stream_waits: Vec<u64>,
    pub fence_waits: Vec<u64>,
}

/// The steps before the body: host waits, deferred writes, stream waits, fence
/// waits. A write that leaves its allocation fails and ends them.
pub open spec fn prefix_steps(env: ExecEnv, prefix: Prefix) -> Seq<WorkerStep> {
    let start = host_waits(prefix.host_waits@) + uploads(env, prefix.deferred_writes@);
    if all_fit(env, prefix.deferred_writes@) {
        start + stream_waits(prefix.stream_waits@) + fence_waits(prefix.fence_waits@)
    } else {
        start
    }
}

fn push_uploads(
    env: &ExecEnv,
    writes: &Vec<MaterializedHostWrite>,
    steps: &mut Vec<WorkerStep>,
) -> (fit: bool)
    requires
        forall|i: int|
            0 <= i < writes@.len() ==> env.memory@.contains_key((#[trigger] writes@[i]).memory)
                && writes@[i].abs_offset + writes@[i].len <= u64::MAX,
    ensures
        final(steps)@ == old(steps)@ + uploads(*env, writes@),
        fit == all_fit(*env, writes@),
{
    let mut i: usize = 0;
    assert(steps@ =~= old(steps)@ + uploads(*env, writes@.take(0)));
    while i < writes.len()
        invariant
            i <= writes.len(),
            forall|i: int|
                0 <= i < writes@.len() ==> env.memory@.contains_key((#[trigger] writes@[i]).memory)
                    && writes@[i].abs_offset + writes@[i].len <= u64::MAX,
            steps@ == old(steps)@ + uploads(*env, writes@.take(i as int)),
            all_fit(*env, writes@.take(i as int)),
        decreases writes.len() - i,
    {
        let write = writes[i];
        let ghost mid = steps@;
        assert(writes@.take(i + 1).drop_last() =~= writes@.take(i as int));
        assert(writes@.take(i + 1).last() == write);
        let len: u64 = match env.memory.get(&write.memory) {
            Some(m) => m.len,
            None => 0,
        };
        if write.abs_offset + write.len > len {
            steps.push(WorkerStep::Fail { error: ExecError::DeferredWriteOutOfBounds });
            proof {
                assert(!write_fits(*env, writes@[i as int]));
                lemma_uploads_stop(*env, writes@, i + 1);
                assert(steps@ =~= old(steps)@ + uploads(*env, writes@.take(i + 1)));
            }
            return false;
        }
        steps.push(WorkerStep::Upload { write });
        steps.push(WorkerStep::Validate { point: SyncPoint::DeferredHostWrite });
        proof {
            assert(steps@ =~= old(steps)@ + uploads(*env, writes@.take(i + 1)));
            assert forall|j: int| 0 <= j < i + 1 implies write_fits(
                *env,
                #[trigger] writes@.take(i + 1)[j],
            ) by {
                if j < i {
                    assert(write_fits(*env, writes@.take(i as int)[j]));
                }
            }
        }
        i += 1;
    }
    assert(writes@.take(i as int) =~= writes@);
    true
}

proof fn lemma_uploads_stop(env: ExecEnv, writes: Seq<MaterializedHostWrite>, n: int)
    requires
        0 < n <= writes.len(),
        !write_fits(env, writes[n - 1]),
    ensures
        uploads(env, writes) == uploads(env, writes.take(n)),
        !all_fit(env, writes),
    decreases writes.len(),
{
    if n < writes.len() {
        assert(writes.drop_last().take(n) =~= writes.take(n));
        assert(!write_fits(env, writes.drop_last()[n - 1]));
        lemma_uploads_stop(env, writes.drop_last(), n);
    } else {
        assert(writes.take(n) =~= writes);
    }
}

/// Plans the steps before the body of a submission.
pub fn run_dynamic_prefix(env: &ExecEnv, prefix: &Prefix) -> (steps: Vec<WorkerStep>)
    requires
        forall|i: int|
            0 <= i < prefix.deferred_writes@.len() ==> env.memory@.contains_key(
                (#[trigger] prefix.deferred_writes@[i]).memory,
            ) && prefix.deferred_writes@[i].abs_offset + prefix.deferred_writes@[i].len
                <= u64::MAX,
    ensures
        steps@ == prefix_steps(*env, *prefix),
{
    let mut steps: Vec<WorkerStep> = Vec::new();
    let mut i: usize = 0;
    while i < prefix.host_waits.len()
        invariant
            i <= prefix.host_waits.len(),
            steps@ == host_waits(prefix.host_waits@.take(i as int)),
        decreases prefix.host_waits.len() - i,
    {
        steps.push(WorkerStep::HostWait { event: prefix.host_waits[i] });
        assert(steps@ =~= host_waits(prefix.host_waits@.take(i + 1)));
        i += 1;
    }
    assert(prefix.host_waits@.take(i as int) =~= prefix.host_waits@);
    if !push_uploads(env, &prefix.deferred_writes, &mut steps) {
        return steps;
    }
    let ghost start = steps@;
    i = 0;
    while i < prefix.stream_waits.len()
        invariant
            i <= prefix.stream_waits.len(),
            steps@ == start + stream_waits(prefix.stream_waits@.take(i as int)),
        decreases prefix.stream_waits.len() - i,
    {
        steps.push(WorkerStep::StreamWait { event: prefix.stream_waits[i] });
        assert(steps@ =~= start + stream_waits(prefix.stream_waits@.take(i + 1)));
        i += 1;
    }
    assert(prefix.stream_waits@.take(i as int) =~= prefix.stream_waits@);
    let ghost start2 = steps@;
    i = 0;
    while i < prefix.fence_waits.len()
        invariant
            i <= prefix.fence_waits.len(),
            steps@ == start2 + fence_waits(prefix.fence_waits@.take(i as int)),
        decreases prefix.fence_waits.len() - i,
    {
        steps.push(WorkerStep::FenceWait { value: prefix.fence_waits[i] });
        assert(steps@ =~= start2 + fence_waits(prefix.fence_waits@.take(i + 1)));
        i += 1;
    }
    assert(prefix.fence_waits@.take(i as int) =~= prefix.fence_waits@);
    steps
}

/// The events after which memories can be used, in order. A memory without one can be
/// used at once.
pub open spec fn ready_events(ready: Map<u64, u64>, memories: Seq<u64>) -> Seq<u64>
    decreases memories.len(),
{
    if memories.len() == 0 {
        Seq::empty()
    } else {
        let before = ready_events(ready, memories.drop_last());
        if ready.contains_key(memories.last()) {
            before.push(ready[memories.last()])
        } else {
            before
        }
    }
}

/// The events that the stream waits for before operations are captured: those of each
/// memory that they touch. A wait for them during the capture would spoil the graph.
pub fn prime_submit_waits_for_ops(
    launches: &Vec<LaunchRecord>,
    ops: &Vec<CudaOp>,
    ready: &HashMap<u64, u64>,
) -> (events: Vec<u64>)
    requires
        launches_known(launches@, ops@),
    ensures
        events@ == ready_events(ready@, pinned_buffers(launches@, ops@)),
{
    let pins = collect_pins(launches, ops);
    let mut events: Vec<u64> = Vec::new();
    let mut i: usize = 0;
    while i < pins.buffers.len()
        invariant
            i <= pins.buffers.len(),
            events@ == ready_events(ready@, pins.buffers@.take(i as int)),
        decreases pins.buffers.len() - i,
    {
        assert(pins.buffers@.take(i + 1).drop_last() =~= pins.buffers@.take(i as int));
        if let Some(event) = ready.get(&pins.buffers[i]) {
            events.push(*event);
        }
        i += 1;
    }
    assert(pins.buffers@.take(i as int) =~= pins.buffers@);
    events
}

/// The steps of one segment of a submission that captures.
pub open spec fn capture_segment(segment: CudaOpSegment, index: usize) -> Seq<WorkerStep> {
    match segment {
        CudaOpSegment::Graph(ops) => {
            let captured = seq![
                WorkerStep::Prime { segment: index },
                WorkerStep::Capture { segment: index },
                WorkerStep::CountCapture,
            ];
            let uploaded = if has_indirect(ops@) {
                captured.push(WorkerStep::UploadGraph)
            } else {
                captured
            };
            uploaded + seq![
                WorkerStep::LaunchCaptured,
                WorkerStep::CountLaunch,
                WorkerStep::Validate { point: SyncPoint::GraphLaunchAfterCapture },
                WorkerStep::KeepIsland { segment: index },
            ]
        },
        CudaOpSegment::Stream(ops) => if ops@.len() == 0 {
            Seq::empty()
        } else {
            seq![WorkerStep::ExecuteOps { segment: index }]
        },
    }
}

/// The steps of the segments of a submission that captures.
pub open spec fn capture_segments(segments: Seq<CudaOpSegment>) -> Seq<WorkerStep>
    decreases segments.len(),
{
    if segments.len() == 0 {
        Seq::empty()
    } else {
        capture_segments(segments.drop_last()) + capture_segment(
            segments.last(),
            (segments.len() - 1) as usize,
        )
    }
}

/// Plans a submission that captures its graph islands, launches each once and keeps
/// them.
pub fn plan_capture_and_launch(segments: &Vec<CudaOpSegment>) -> (steps: Vec<WorkerStep>)
    ensures
        steps@ == capture_segments(segments@).push(WorkerStep::CommitProgram),
{
    let mut steps: Vec<WorkerStep> = Vec::new();
    let mut i: usize = 0;
    while i < segments.len()
        invariant
            i <= segments.len(),
            steps@ == capture_segments(segments@.take(i as int)),
        decreases segments.len() - i,
    {
        let ghost start = steps@;
        assert(segments@.take(i + 1).drop_last() =~= segments@.take(i as int));
        match &segments[i] {
            CudaOpSegment::Graph(ops) => {
                steps.push(WorkerStep::Prime { segment: i });
                steps.push(WorkerStep::Capture { segment: i });
                steps.push(WorkerStep::CountCapture);
                if ops_contain_indirect(ops) {
                    steps.push(WorkerStep::UploadGraph);
                }
                steps.push(WorkerStep::LaunchCaptured);
                steps.push(WorkerStep::CountLaunch);
                steps.push(WorkerStep::Validate { point: SyncPoint::GraphLaunchAfterCapture });
                steps.push(WorkerStep::KeepIsland { segment: i });
            },
            CudaOpSegment::Stream(ops) => {
                if ops.len() > 0 {
                    steps.push(WorkerStep::ExecuteOps { segment: i });
                }
            },
        }
        assert(steps@ =~= start + capture_segment(segments@[i as int], i));
        i += 1;
    }
    assert(segments@.take(i as int) =~= segments@);
    steps.push(WorkerStep::CommitProgram);
    steps
}

/// Graph islands of a relaunch.
pub open spec fn islands_before(segments: Seq<CudaLaunchSegment>) -> nat
    decreases segments.len(),
{
    if segments.len() == 0 {
        0
    } else {
        islands_before(segments.drop_last()) + if segments.last() is Graph {
            1nat
        } else {
            0nat
        }
    }
}

/// The steps of one segment of a relaunch, with `island` islands before it.
pub open spec fn relaunch_segment(segment: CudaLaunchSegment, index: usize, island: usize) -> Seq<
    WorkerStep,
> {
    match segment {
        CudaLaunchSegment::Graph => seq![
            WorkerStep::LaunchIsland { island },
            WorkerStep::CountLaunch,
            WorkerStep::Validate { point: SyncPoint::RetainedGraphLaunch },
        ],
        CudaLaunchSegment::Stream(ops) => if ops@.len() == 0 {
            Seq::empty()
        } else {
            seq![WorkerStep::ExecuteOps { segment: index }]
        },
    }
}

/// The steps of the segments of a relaunch.
pub open spec fn relaunch_segments(segments: Seq<CudaLaunchSegment>) -> Seq<WorkerStep>
    decreases segments.len(),
{
    if segments.len() == 0 {
        Seq::empty()
    } else {
        relaunch_segments(segments.drop_last()) + relaunch_segment(
            segments.last(),
            (segments.len() - 1) as usize,
            islands_before(segments.drop_last()) as usize,
        )
    }
}

/// Plans a submission that launches retained islands.
pub fn plan_launch_retained(segments: &Vec<CudaLaunchSegment>) -> (steps: Vec<WorkerStep>)
    ensures
        steps@ == relaunch_segments(segments@),
{
    let mut steps: Vec<WorkerStep> = Vec::new();
    let mut i: usize = 0;
    let mut island: usize = 0;
    while i < segments.len()
        invariant
            island <= i <= segments.len(),
            island == islands_before(segments@.take(i as int)),
            steps@ == relaunch_segments(segments@.take(i as int)),
        decreases segments.len() - i,
    {
        let ghost start = steps@;
        let ghost before = island;
        assert(segments@.take(i + 1).drop_last() =~= segments@.take(i as int));
        match &segments[i] {
            CudaLaunchSegment::Graph => {
                steps.push(WorkerStep::LaunchIsland { island });
                steps.push(WorkerStep::CountLaunch);
                steps.push(WorkerStep::Validate { point: SyncPoint::RetainedGraphLaunch });
                island += 1;
            },
            CudaLaunchSegment::Stream(ops) => {
                if ops.len() > 0 {
                    steps.push(WorkerStep::ExecuteOps { segment: i });
                }
            },
        }
        assert(steps@ =~= start + relaunch_segment(segments@[i as int], i, before));
        i += 1;
    }
    assert(segments@.take(i as int) =~= segments@);
    steps
}

/// What follows the recording of a capture.
#[derive(Clone, Copy, Debug, PartialEq, Eq, Structural)]
pub enum CaptureNext {
    /// The recording failed: wait for the stream, then fail.
    RecordingFailed,
    EndFailed,
    EmptyGraph,
    /// Make the kernel nodes of indirect launches updatable, then instantiate. Where
    /// that fails the graph is destroyed.
    FinalizeIndirect { graph: u64 },
    Instantiate { graph: u64 },
}

/// Decides what follows the recording of a capture. `ended` is the graph that ending
/// the capture gave, zero for none; a failed recording counts before a failed end.
pub fn after_capture(recorded: bool, ended: Option<u64>, ops: &Vec<CudaOp>) -> (next: CaptureNext)
    ensures
        next == (if !recorded {
            CaptureNext::RecordingFailed
        } else if ended is None {
            CaptureNext::EndFailed
        } else if ended->Some_0 == 0 {
            CaptureNext::EmptyGraph
        } else if has_indirect(ops@) {
            CaptureNext::FinalizeIndirect { graph: ended->Some_0 }
        } else {
            CaptureNext::Instantiate { graph: ended->Some_0 }
        }),
{
    if !recorded {
        return CaptureNext::RecordingFailed;
    }
    match ended {
        None => CaptureNext::EndFailed,
        Some(graph) => if graph == 0 {
            CaptureNext::EmptyGraph
        } else if ops_contain_indirect(ops) {
            CaptureNext::FinalizeIndirect { graph }
        } else {
            CaptureNext::Instantiate { graph }
        },
    }
}

/// What the worker does next.
#[derive(Clone, Copy, Debug, PartialEq, Eq, Structural)]
pub enum WorkerAction {
    Step { step: WorkerStep },
    /// Records the completion event on the stream.
    RecordCompletion,
    /// Marks the submission as recorded in the ledger and polls for retired events.
    Publish,
    /// The submission is over. It fails with the error of the action at a position, if
    /// there is one: a step, or the recording of the completion event behind the steps.
    Done { failure: Option<usize> },
}

/// Where a submission stands.
#[derive(Clone, Copy, Debug, PartialEq, Eq, Structural)]
pub enum WorkerPhase {
    /// The step at a position comes next.
    Body { next: usize },
    Record,
    Publish,
    Over,
}

/// A submission in progress. A failed step ends the body, but the completion event
/// is recorded all the same.
pub struct SubmitRun {
    pub steps: Vec<WorkerStep>,
    pub phase: WorkerPhase,
    /// The position of the first action that failed.
    pub failure: Option<usize>,
}

/// The position of the first failure once an action came out well or badly. The error of
/// a step comes before that of the completion event, which stands behind the steps.
pub open spec fn first_failure(
    steps: Seq<WorkerStep>,
    phase: WorkerPhase,
    failure: Option<usize>,
    ok: bool,
) -> Option<usize> {
    if failure is Some || ok {
        failure
    } else {
        match phase {
            WorkerPhase::Body { next } => Some(next),
            WorkerPhase::Record => Some(steps.len() as usize),
            _ => None,
        }
    }
}

/// The phase at a position of the body.
pub open spec fn body_phase(steps: Seq<WorkerStep>, next: int) -> WorkerPhase {
    if next < steps.len() {
        WorkerPhase::Body { next: next as usize }
    } else {
        WorkerPhase::Record
    }
}

/// The phase after an action came out well or badly.
pub open spec fn next_phase(steps: Seq<WorkerStep>, phase: WorkerPhase, ok: bool) -> WorkerPhase {
    match phase {
        WorkerPhase::Body { next } => if ok {
            body_phase(steps, next + 1)
        } else {
            WorkerPhase::Record
        },
        WorkerPhase::Record => if ok {
            WorkerPhase::Publish
        } else {
            WorkerPhase::Over
        },
        WorkerPhase::Publish => WorkerPhase::Over,
        WorkerPhase::Over => WorkerPhase::Over,
    }
}

impl SubmitRun {
    /// The body position, if any, is one of a step.
    pub open spec fn wf(self) -> bool {
        self.phase matches WorkerPhase::Body { next } ==> next < self.steps@.len()
    }

    /// A submission with its prefix and body planned.
    pub fn new(prefix: Vec<WorkerStep>, body: Vec<WorkerStep>) -> (run: Self)
        ensures
            run.wf(),
            run.steps@ == prefix@ + body@,
            run.phase == body_phase(prefix@ + body@, 0),
            run.failure is None,
    {
        let mut steps = prefix;
        let mut rest = body;
        steps.append(&mut rest);
        let phase = if steps.len() > 0 {
            WorkerPhase::Body { next: 0 }
        } else {
            WorkerPhase::Record
        };
        SubmitRun { steps, phase, failure: None }
    }

    /// What comes next.
    pub fn action(&self) -> (action: WorkerAction)
        requires
            self.wf(),
        ensures
            action == (match self.phase {
                WorkerPhase::Body { next } => WorkerAction::Step { step: self.steps@[next as int] },
                WorkerPhase::Record => WorkerAction::RecordCompletion,
                WorkerPhase::Publish => WorkerAction::Publish,
                WorkerPhase::Over => WorkerAction::Done { failure: self.failure },
            }),
    {
        match self.phase {
            WorkerPhase::Body { next } => WorkerAction::Step { step: self.steps[next] },
            WorkerPhase::Record => WorkerAction::RecordCompletion,
            WorkerPhase::Publish => WorkerAction::Publish,
            WorkerPhase::Over => WorkerAction::Done { failure: self.failure },
        }
    }

    /// Takes in how the action came out.
    pub fn report(&mut self, ok: bool)
        requires
            old(self).wf(),
        ensures
            final(self).wf(),
            final(self).steps@ == old(self).steps@,
            final(self).phase == next_phase(old(self).steps@, old(self).phase, ok),
            final(self).failure == first_failure(
                old(self).steps@,
                old(self).phase,
                old(self).failure,
                ok,
            ),
    {
        let count: usize = self.steps.len();
        match self.phase {
            WorkerPhase::Body { next } => {
                if !ok {
                    if self.failure.is_none() {
                        self.failure = Some(next);
                    }
                    self.phase = WorkerPhase::Record;
                } else if next < count - 1 {
                    self.phase = WorkerPhase::Body { next: next + 1 };
                } else {
                    self.phase = WorkerPhase::Record;
                }
            },
            WorkerPhase::Record => {
                if ok {
                    self.phase = WorkerPhase::Publish;
                } else {
                    if self.failure.is_none() {
                        self.failure = Some(count);
                    }
                    self.phase = WorkerPhase::Over;
                }
            },
            WorkerPhase::Publish => {
                self.phase = WorkerPhase::Over;
            },
            WorkerPhase::Over => {},
        }
    }
}

/// The phase after `n` actions whose outcomes are given.
pub open spec fn phase_after(
    steps: Seq<WorkerStep>,
    outcomes: spec_fn(int) -> bool,
    n: nat,
) -> WorkerPhase
    decreases n,
{
    if n == 0 {
        body_phase(steps, 0)
    } else {
        let before = phase_after(steps, outcomes, (n - 1) as nat);
        next_phase(steps, before, outcomes(n - 1))
    }
}

/// Whatever comes of the steps, the completion event gets recorded, after at most
/// as many actions as there are steps; so a waiter never waits for an event that no
/// one will record.
pub proof fn completion_is_always_recorded(steps: Seq<WorkerStep>, outcomes: spec_fn(int) -> bool)
    requires
        steps.len() <= usize::MAX,
    ensures
        exists|n: nat|
            n <= steps.len() && #[trigger] phase_after(steps, outcomes, n) == WorkerPhase::Record,
{
    lemma_record_from(steps, outcomes, 0);
}

proof fn lemma_record_from(steps: Seq<WorkerStep>, outcomes: spec_fn(int) -> bool, n: nat)
    requires
        n <= steps.len() <= usize::MAX,
        phase_after(steps, outcomes, n) == body_phase(steps, n as int),
    ensures
        exists|m: nat|
            m <= steps.len() && #[trigger] phase_after(steps, outcomes, m) == WorkerPhase::Record,
    decreases steps.len() - n,
{
    if n == steps.len() {
        assert(phase_after(steps, outcomes, n) == WorkerPhase::Record);
    } else {
        let next = phase_after(steps, outcomes, n + 1);
        if outcomes(n as int) {
            lemma_record_from(steps, outcomes, n + 1);
        } else {
            assert(next == WorkerPhase::Record);
        }
    }
}

/// Every step of a submission before a failed one has come out well, and none after
/// it is performed: in the body, the position counts the actions so far.
pub proof fn steps_run_in_order(steps: Seq<WorkerStep>, outcomes: spec_fn(int) -> bool, n: nat)
    requires
        steps.len() <= usize::MAX,
    ensures
        phase_after(steps, outcomes, n) matches WorkerPhase::Body { next } ==> next == n && forall|
            i: int,
        |
            0 <= i < n ==> #[trigger] outcomes(i),
    decreases n,
{
    if n > 0 {
        steps_run_in_order(steps, outcomes, (n - 1) as nat);
    }
}

/// The first failure after `n` actions whose outcomes are given.
pub open spec fn failure_after(
    steps: Seq<WorkerStep>,
    outcomes: spec_fn(int) -> bool,
    n: nat,
) -> Option<usize>
    decreases n,
{
    if n == 0 {
        None
    } else {
        first_failure(
            steps,
            phase_after(steps, outcomes, (n - 1) as nat),
            failure_after(steps, outcomes, (n - 1) as nat),
            outcomes(n - 1),
        )
    }
}

/// A submission fails with the error of its first step that failed, whatever comes of
/// the completion event.
pub proof fn first_failed_step_is_reported(
    steps: Seq<WorkerStep>,
    outcomes: spec_fn(int) -> bool,
    i: int,
    n: nat,
)
    requires
        steps.len() <= usize::MAX,
        0 <= i < steps.len(),
        !outcomes(i),
        forall|j: int| 0 <= j < i ==> #[trigger] outcomes(j),
        i < n,
    ensures
        failure_after(steps, outcomes, n) == Some(i as usize),
    decreases n,
{
    if n == i + 1 {
        lemma_no_failure(steps, outcomes, i as nat);
    } else {
        first_failed_step_is_reported(steps, outcomes, i, (n - 1) as nat);
    }
}

proof fn lemma_no_failure(steps: Seq<WorkerStep>, outcomes: spec_fn(int) -> bool, n: nat)
    requires
        n < steps.len() <= usize::MAX,
        forall|j: int| 0 <= j < n ==> #[trigger] outcomes(j),
    ensures
        failure_after(steps, outcomes, n) is None,
        phase_after(steps, outcomes, n) == (WorkerPhase::Body { next: n as usize }),
    decreases n,
{
    if n > 0 {
        lemma_no_failure(steps, outcomes, (n - 1) as nat);
        assert(outcomes(n - 1));
    }
}

/// The stream waits for the memory of a segment right before the segment is captured,
/// so the capture itself has to wait for nothing.
pub proof fn captures_are_primed(segments: Seq<CudaOpSegment>, i: int)
    requires
        0 <= i < capture_segments(segments).len(),
    ensures
        capture_segments(segments)[i] matches WorkerStep::Capture { segment } ==> i > 0
            && capture_segments(segments)[i - 1] == (WorkerStep::Prime { segment }),
    decreases segments.len(),
{
    let before = capture_segments(segments.drop_last());
    if i < before.len() {
        captures_are_primed(segments.drop_last(), i);
    }
}

} // verus!
