//! Operations of a CUDA submission and their split into captured graph islands and
//! operations replayed on the stream.

use vstd::prelude::*;

use super::texture::{CudaTexture, Region};

verus! {

/// Blocks of a kernel launch in each dimension.
#[derive(Clone, Copy, Debug, PartialEq, Eq, Structural)]
pub struct Grid {
    pub x: u32,
    pub y: u32,
    pub z: u32,
}

/// An argument of a kernel.
#[derive(Clone, Copy, Debug, PartialEq, Eq, Structural)]
pub enum LaunchArg {
    Buffer { data: u64, count: u64 },
    Handle(u64),
    Scalar(u32),
}

/// A kernel launch as it was recorded.
pub struct LaunchRecord {
    pub label: Option<&'static str>,
    pub function: u64,
    pub module: u64,
    /// Threads of a block in each dimension.
    pub workgroup_size: Grid,
    pub args: Vec<LaunchArg>,
    pub keep_alive_buffers: Vec<u64>,
    pub keep_alive_textures: Vec<CudaTexture>,
    /// The kernel may be captured into a graph.
    pub graph_capture_ok: bool,
}

/// What a launch whose grid is in device memory needs besides its kernel.
#[derive(Clone, Copy, Debug, PartialEq, Eq, Structural)]
pub struct IndirectShape {
    /// Memory that holds the grid, and where in it.
    pub memory: u64,
    pub abs_offset: u64,
    /// Device address of the grid.
    pub shape_ptr: u64,
    /// Memory that receives the device handle of the captured kernel node.
    pub node_slot: u64,
    pub node_slot_ptr: u64,
    pub status_ptr: u64,
    pub updater: u64,
    pub updater_module: u64,
    pub max_grid: Grid,
    pub max_threads_per_block: u32,
}

/// One operation of a submission. Memory, host staging and launches are named by
/// identifiers; `payload` names the bytes of an inline write.
#[derive(Clone, Copy, Debug, PartialEq, Eq, Structural)]
pub enum CudaOp {
    Launch { launch: usize, grid: Grid },
    LaunchIndirect { launch: usize, shape: IndirectShape },
    Clear { memory: u64, abs_offset: u64, size: u64, device_ptr: u64 },
    Write { memory: u64, abs_offset: u64, payload: usize, len: u64 },
    WriteFromHost { memory: u64, abs_offset: u64, device_ptr: u64, host: u64, host_offset: u64, len: u64 },
    Copy { src: u64, src_abs: u64, src_ptr: u64, dst: u64, dst_abs: u64, dst_ptr: u64, size: u64 },
    WriteTexture { texture: CudaTexture, region: Region, payload: usize, len: u64, src_row_pitch: u32 },
    WriteTextureFromHost {
        texture: CudaTexture,
        region: Region,
        host: u64,
        host_offset: u64,
        len: u64,
        src_row_pitch: u32,
    },
    CopyBufferToTexture {
        src: u64,
        src_abs: u64,
        src_ptr: u64,
        src_row_pitch: u32,
        texture: CudaTexture,
        region: Region,
    },
    CopyTexture { from: CudaTexture, to: CudaTexture },
    WaitExternalFence { value: u64 },
    SignalExternalFence { value: u64 },
    CopyTextureToBuffer {
        texture: CudaTexture,
        region: Region,
        dst: u64,
        dst_abs: u64,
        dst_ptr: u64,
        dst_row_pitch: u32,
    },
}

/// A run of operations of one kind.
pub enum CudaOpSegment {
    /// Operations captured into a graph island.
    Graph(Vec<CudaOp>),
    /// Operations replayed on the stream.
    Stream(Vec<CudaOp>),
}

/// A segment of a retained relaunch: a graph island is only a marker.
pub enum CudaLaunchSegment {
    Graph,
    Stream(Vec<CudaOp>),
}

/// Some texture of a launch belongs to imported memory.
pub open spec fn touches_imported(launch: LaunchRecord) -> bool {
    exists|i: int|
        0 <= i < launch.keep_alive_textures@.len()
            && (#[trigger] launch.keep_alive_textures@[i]).imported
}

/// The operation can be captured into a graph: it touches only memory that CUDA
/// owns, and reads nothing whose address or value changes from run to run.
pub open spec fn graph_safe(launches: Seq<LaunchRecord>, op: CudaOp) -> bool {
    match op {
        CudaOp::Launch { launch, grid } => launches[launch as int].graph_capture_ok
            && !touches_imported(launches[launch as int]),
        CudaOp::LaunchIndirect { launch, shape } => launches[launch as int].graph_capture_ok
            && !touches_imported(launches[launch as int]),
        CudaOp::Clear { .. } => true,
        CudaOp::WriteFromHost { .. } => true,
        CudaOp::Copy { src, src_abs, src_ptr, dst, dst_abs, dst_ptr, size } => src != dst,
        CudaOp::WriteTextureFromHost { texture, region, host, host_offset, len, src_row_pitch } => !texture.imported,
        CudaOp::CopyBufferToTexture { src, src_abs, src_ptr, src_row_pitch, texture, region } => !texture.imported,
        CudaOp::CopyTexture { from, to } => !from.imported && !to.imported,
        _ => false,
    }
}

/// The launches that the operations name are recorded.
pub open spec fn launches_known(launches: Seq<LaunchRecord>, ops: Seq<CudaOp>) -> bool {
    forall|i: int| 0 <= i < ops.len() ==> launch_known(launches, #[trigger] ops[i])
}

/// The launch that the operation names, if it names one, is recorded.
pub open spec fn launch_known(launches: Seq<LaunchRecord>, op: CudaOp) -> bool {
    match op {
        CudaOp::Launch { launch, grid } => launch < launches.len(),
        CudaOp::LaunchIndirect { launch, shape } => launch < launches.len(),
        _ => true,
    }
}

/// Whether every launch that operations name is recorded.
pub fn check_launches(launches: &Vec<LaunchRecord>, ops: &Vec<CudaOp>) -> (known: bool)
    ensures
        known == launches_known(launches@, ops@),
{
    let mut i: usize = 0;
    while i < ops.len()
        invariant
            i <= ops.len(),
            forall|j: int| 0 <= j < i ==> launch_known(launches@, #[trigger] ops@[j]),
        decreases ops.len() - i,
    {
        let known: bool = match &ops[i] {
            CudaOp::Launch { launch, .. } => *launch < launches.len(),
            CudaOp::LaunchIndirect { launch, .. } => *launch < launches.len(),
            _ => true,
        };
        if !known {
            assert(!launch_known(launches@, ops@[i as int]));
            return false;
        }
        i += 1;
    }
    true
}

fn launch_is_capturable(launch: &LaunchRecord) -> (capturable: bool)
    ensures
        capturable == (launch.graph_capture_ok && !touches_imported(*launch)),
{
    if !launch.graph_capture_ok {
        return false;
    }
    let mut i: usize = 0;
    while i < launch.keep_alive_textures.len()
        invariant
            i <= launch.keep_alive_textures.len(),
            forall|j: int| 0 <= j < i ==> !(#[trigger] launch.keep_alive_textures@[j]).imported,
        decreases launch.keep_alive_textures.len() - i,
    {
        if launch.keep_alive_textures[i].imported {
            assert(launch.keep_alive_textures@[i as int].imported);
            return false;
        }
        i += 1;
    }
    true
}

/// Whether the operation can be captured into a graph.
pub fn op_is_graph_safe(launches: &Vec<LaunchRecord>, op: &CudaOp) -> (safe: bool)
    requires
        launch_known(launches@, *op),
    ensures
        safe == graph_safe(launches@, *op),
{
    match op {
        CudaOp::Launch { launch, .. } => launch_is_capturable(&launches[*launch]),
        CudaOp::LaunchIndirect { launch, .. } => launch_is_capturable(&launches[*launch]),
        CudaOp::Clear { .. } => true,
        CudaOp::WriteFromHost { .. } => true,
        CudaOp::Copy { src, dst, .. } => *src != *dst,
        CudaOp::WriteTextureFromHost { texture, .. } => !texture.imported,
        CudaOp::CopyBufferToTexture { texture, .. } => !texture.imported,
        CudaOp::CopyTexture { from, to } => !from.imported && !to.imported,
        _ => false,
    }
}

/// Whether the operations can be captured into one graph: there is at least one,
/// and each can be.
pub fn ops_are_graph_safe(launches: &Vec<LaunchRecord>, ops: &Vec<CudaOp>) -> (safe: bool)
    requires
        launches_known(launches@, ops@),
    ensures
        safe == (ops@.len() > 0 && forall|i: int|
            0 <= i < ops@.len() ==> graph_safe(launches@, #[trigger] ops@[i])),
{
    if ops.len() == 0 {
        return false;
    }
    let mut i: usize = 0;
    while i < ops.len()
        invariant
            i <= ops.len(),
            launches_known(launches@, ops@),
            forall|j: int| 0 <= j < i ==> graph_safe(launches@, #[trigger] ops@[j]),
        decreases ops.len() - i,
    {
        if !op_is_graph_safe(launches, &ops[i]) {
            assert(!graph_safe(launches@, ops@[i as int]));
            return false;
        }
        i += 1;
    }
    true
}

impl CudaOpSegment {
    /// The operations of a segment.
    pub open spec fn operations(self) -> Seq<CudaOp> {
        match self {
            CudaOpSegment::Graph(ops) => ops@,
            CudaOpSegment::Stream(ops) => ops@,
        }
    }

    /// Whether the segment is a graph island.
    pub fn is_graph(&self) -> (graph: bool)
        ensures
            graph == (*self is Graph),
    {
        match self {
            CudaOpSegment::Graph(_) => true,
            CudaOpSegment::Stream(_) => false,
        }
    }

    /// The operations of the segment.
    pub fn ops(&self) -> (ops: &Vec<CudaOp>)
        ensures
            ops@ == self.operations(),
    {
        match self {
            CudaOpSegment::Graph(ops) => ops,
            CudaOpSegment::Stream(ops) => ops,
        }
    }
}

/// The operations of all segments, in order.
pub open spec fn flattened(segments: Seq<CudaOpSegment>) -> Seq<CudaOp>
    decreases segments.len(),
{
    if segments.len() == 0 {
        Seq::empty()
    } else {
        flattened(segments.drop_last()) + segments.last().operations()
    }
}

/// The operations of the stream segments, in order.
pub open spec fn stream_part(segments: Seq<CudaOpSegment>) -> Seq<CudaOp>
    decreases segments.len(),
{
    if segments.len() == 0 {
        Seq::empty()
    } else if segments.last() is Stream {
        stream_part(segments.drop_last()) + segments.last().operations()
    } else {
        stream_part(segments.drop_last())
    }
}

/// How many segments are graph islands.
pub open spec fn island_count(segments: Seq<CudaOpSegment>) -> int
    decreases segments.len(),
{
    if segments.len() == 0 {
        0
    } else {
        island_count(segments.drop_last()) + if segments.last() is Graph {
            1int
        } else {
            0
        }
    }
}

/// The segments are the maximal runs of operations: none is empty, those of a graph
/// island can all be captured, those of a stream segment cannot, and no two
/// neighbours are of one kind.
pub open spec fn maximal_runs(launches: Seq<LaunchRecord>, segments: Seq<CudaOpSegment>) -> bool {
    &&& forall|i: int| 0 <= i < segments.len() ==> uniform_run(launches, #[trigger] segments[i])
    &&& forall|i: int, j: int|
        0 <= i && j == i + 1 && j < segments.len() ==> (#[trigger] segments[i] is Graph) != (
        #[trigger] segments[j] is Graph)
}

/// The segment is not empty, and its operations can be captured exactly where it is
/// a graph island.
pub open spec fn uniform_run(launches: Seq<LaunchRecord>, segment: CudaOpSegment) -> bool {
    &&& segment.operations().len() > 0
    &&& forall|k: int|
        0 <= k < segment.operations().len() ==> graph_safe(
            launches,
            #[trigger] segment.operations()[k],
        ) == (segment is Graph)
}

fn close_run(segments: &mut Vec<CudaOpSegment>, safe: bool, run: Vec<CudaOp>)
    ensures
        final(segments)@ == old(segments)@.push(
            if safe {
                CudaOpSegment::Graph(run)
            } else {
                CudaOpSegment::Stream(run)
            },
        ),
{
    if safe {
        segments.push(CudaOpSegment::Graph(run));
    } else {
        segments.push(CudaOpSegment::Stream(run));
    }
}

/// Splits operations into maximal alternating runs: those that can be captured, and
/// those that are replayed on the stream. Nothing yields nothing.
pub fn partition_ops_into_segments(launches: &Vec<LaunchRecord>, ops: &Vec<CudaOp>) -> (segments: Vec<
    CudaOpSegment,
>)
    requires
        launches_known(launches@, ops@),
    ensures
        flattened(segments@) == ops@,
        maximal_runs(launches@, segments@),
{
    let mut segments: Vec<CudaOpSegment> = Vec::new();
    if ops.len() == 0 {
        return segments;
    }
    let mut run: Vec<CudaOp> = Vec::new();
    run.push(ops[0]);
    let mut run_safe = op_is_graph_safe(launches, &ops[0]);
    let mut i: usize = 1;
    assert(flattened(segments@) + run@ =~= ops@.take(1));
    while i < ops.len()
        invariant
            1 <= i <= ops.len(),
            launches_known(launches@, ops@),
            flattened(segments@) + run@ == ops@.take(i as int),
            maximal_runs(launches@, segments@),
            run@.len() > 0,
            forall|k: int|
                0 <= k < run@.len() ==> graph_safe(launches@, #[trigger] run@[k]) == run_safe,
            segments@.len() > 0 ==> (segments@.last() is Graph) != run_safe,
        decreases ops.len() - i,
    {
        let op = ops[i];
        let safe = op_is_graph_safe(launches, &op);
        let ghost before = segments@;
        let ghost run0 = run@;
        if safe == run_safe {
            run.push(op);
            assert(flattened(segments@) + run@ =~= ops@.take(i + 1));
        } else {
            let mut next: Vec<CudaOp> = Vec::new();
            next.push(op);
            let ghost closed = if run_safe {
                CudaOpSegment::Graph(run)
            } else {
                CudaOpSegment::Stream(run)
            };
            assert(uniform_run(launches@, closed));
            close_run(&mut segments, run_safe, run);
            assert(segments@.drop_last() =~= before);
            assert(flattened(segments@) == flattened(before) + run0);
            assert(maximal_runs(launches@, segments@));
            run = next;
            run_safe = safe;
            assert(flattened(segments@) + run@ =~= ops@.take(i + 1));
        }
        i += 1;
    }
    let ghost before = segments@;
    let ghost run0 = run@;
    let ghost closed = if run_safe {
        CudaOpSegment::Graph(run)
    } else {
        CudaOpSegment::Stream(run)
    };
    assert(uniform_run(launches@, closed));
    close_run(&mut segments, run_safe, run);
    assert(segments@.drop_last() =~= before);
    assert(ops@.take(i as int) =~= ops@);
    segments
}

/// Collects the operations of the stream segments.
pub fn collect_stream_ops(segments: &Vec<CudaOpSegment>) -> (ops: Vec<CudaOp>)
    ensures
        ops@ == stream_part(segments@),
{
    let mut ops: Vec<CudaOp> = Vec::new();
    let mut i: usize = 0;
    while i < segments.len()
        invariant
            i <= segments.len(),
            ops@ == stream_part(segments@.take(i as int)),
        decreases segments.len() - i,
    {
        assert(segments@.take(i + 1).drop_last() =~= segments@.take(i as int));
        match &segments[i] {
            CudaOpSegment::Stream(more) => {
                append_ops(&mut ops, more);
            },
            CudaOpSegment::Graph(_) => {},
        }
        i += 1;
    }
    assert(segments@.take(i as int) =~= segments@);
    ops
}

fn append_ops(ops: &mut Vec<CudaOp>, more: &Vec<CudaOp>)
    ensures
        final(ops)@ == old(ops)@ + more@,
{
    let ghost start = ops@;
    let mut i: usize = 0;
    while i < more.len()
        invariant
            i <= more.len(),
            ops@ == start + more@.take(i as int),
        decreases more.len() - i,
    {
        ops.push(more[i]);
        i += 1;
    }
    assert(more@.take(i as int) =~= more@);
}

/// A segment and its place in a relaunch: an island is a marker, a stream segment
/// keeps its operations.
pub open spec fn relaunches(launch: CudaLaunchSegment, segment: CudaOpSegment) -> bool {
    match segment {
        CudaOpSegment::Graph(_) => launch is Graph,
        CudaOpSegment::Stream(ops) => launch matches CudaLaunchSegment::Stream(l) && l@ == ops@,
    }
}

/// Builds the relaunch of segments.
pub fn to_launch_segments(segments: &Vec<CudaOpSegment>) -> (launch: Vec<CudaLaunchSegment>)
    ensures
        launch@.len() == segments@.len(),
        forall|i: int|
            0 <= i < segments@.len() ==> relaunches(#[trigger] launch@[i], segments@[i]),
{
    let mut launch: Vec<CudaLaunchSegment> = Vec::new();
    let mut i: usize = 0;
    while i < segments.len()
        invariant
            i <= segments.len(),
            launch@.len() == i,
            forall|j: int| 0 <= j < i ==> relaunches(#[trigger] launch@[j], segments@[j]),
        decreases segments.len() - i,
    {
        match &segments[i] {
            CudaOpSegment::Graph(_) => {
                launch.push(CudaLaunchSegment::Graph);
            },
            CudaOpSegment::Stream(ops) => {
                let mut copy: Vec<CudaOp> = Vec::new();
                append_ops(&mut copy, ops);
                assert(copy@ =~= ops@);
                launch.push(CudaLaunchSegment::Stream(copy));
            },
        }
        i += 1;
    }
    launch
}

/// Collects the operations of all segments.
pub fn flatten_segment_ops(segments: &Vec<CudaOpSegment>) -> (ops: Vec<CudaOp>)
    ensures
        ops@ == flattened(segments@),
{
    let mut ops: Vec<CudaOp> = Vec::new();
    let mut i: usize = 0;
    while i < segments.len()
        invariant
            i <= segments.len(),
            ops@ == flattened(segments@.take(i as int)),
        decreases segments.len() - i,
    {
        assert(segments@.take(i + 1).drop_last() =~= segments@.take(i as int));
        append_ops(&mut ops, segments[i].ops());
        i += 1;
    }
    assert(segments@.take(i as int) =~= segments@);
    ops
}

/// How many segments are graph islands.
pub fn graph_island_count(segments: &Vec<CudaOpSegment>) -> (count: usize)
    ensures
        count == island_count(segments@),
{
    let mut count: usize = 0;
    let mut i: usize = 0;
    while i < segments.len()
        invariant
            i <= segments.len(),
            count <= i,
            count == island_count(segments@.take(i as int)),
        decreases segments.len() - i,
    {
        assert(segments@.take(i + 1).drop_last() =~= segments@.take(i as int));
        if segments[i].is_graph() {
            count += 1;
        }
        i += 1;
    }
    assert(segments@.take(i as int) =~= segments@);
    count
}

/// No two neighbours are both stream segments.
pub open spec fn streams_apart(segments: Seq<CudaOpSegment>) -> bool {
    forall|i: int, j: int|
        0 <= i && j == i + 1 && j < segments.len() ==> !(#[trigger] segments[i] is Stream
            && #[trigger] segments[j] is Stream)
}

/// The graph islands, in order.
pub open spec fn islands(segments: Seq<CudaOpSegment>) -> Seq<CudaOpSegment>
    decreases segments.len(),
{
    if segments.len() == 0 {
        Seq::empty()
    } else if segments.last() is Graph {
        islands(segments.drop_last()).push(segments.last())
    } else {
        islands(segments.drop_last())
    }
}

/// The operations of a segment, and the way they run.
#[verifier::ext_equal]
pub enum SegmentView {
    Graph(Seq<CudaOp>),
    Stream(Seq<CudaOp>),
}

impl View for CudaOpSegment {
    type V = SegmentView;

    open spec fn view(&self) -> SegmentView {
        match *self {
            CudaOpSegment::Graph(ops) => SegmentView::Graph(ops@),
            CudaOpSegment::Stream(ops) => SegmentView::Stream(ops@),
        }
    }
}

/// The operations of segments, and the ways they run.
pub open spec fn segment_views(segments: Seq<CudaOpSegment>) -> Seq<SegmentView> {
    segments.map_values(|s: CudaOpSegment| s@)
}

/// Segments followed by one more: a stream segment joins a stream segment before it.
pub open spec fn joined(before: Seq<SegmentView>, next: SegmentView) -> Seq<SegmentView> {
    if before.len() > 0 && before.last() is Stream && next is Stream {
        before.drop_last().push(SegmentView::Stream(before.last()->Stream_0 + next->Stream_0))
    } else {
        before.push(next)
    }
}

/// Segments with each run of stream segments merged into one.
pub open spec fn coalesced(segments: Seq<SegmentView>) -> Seq<SegmentView>
    decreases segments.len(),
{
    if segments.len() == 0 {
        Seq::empty()
    } else {
        joined(coalesced(segments.drop_last()), segments.last())
    }
}

/// No two neighbours are both stream segments.
pub open spec fn views_apart(segments: Seq<SegmentView>) -> bool {
    forall|i: int, j: int|
        0 <= i && j == i + 1 && j < segments.len() ==> !(#[trigger] segments[i] is Stream
            && #[trigger] segments[j] is Stream)
}

proof fn lemma_coalesced_apart(segments: Seq<SegmentView>)
    ensures
        views_apart(coalesced(segments)),
    decreases segments.len(),
{
    if segments.len() > 0 {
        let before = coalesced(segments.drop_last());
        let after = coalesced(segments);
        lemma_coalesced_apart(segments.drop_last());
        assert forall|i: int, j: int| 0 <= i && j == i + 1 && j < after.len() implies !(
        #[trigger] after[i] is Stream && #[trigger] after[j] is Stream) by {
            if j < before.len() {
                assert(before[i] is Stream == after[i] is Stream);
                assert(before[j] is Stream == after[j] is Stream);
            }
        }
    }
}

proof fn lemma_apart_stays(segments: Seq<SegmentView>)
    requires
        views_apart(segments),
    ensures
        coalesced(segments) == segments,
    decreases segments.len(),
{
    if segments.len() == 0 {
        assert(coalesced(segments) =~= segments);
    } else {
        let before = segments.drop_last();
        assert(views_apart(before)) by {
            assert forall|i: int, j: int| 0 <= i && j == i + 1 && j < before.len() implies !(
            #[trigger] before[i] is Stream && #[trigger] before[j] is Stream) by {
                assert(before[i] == segments[i] && before[j] == segments[j]);
            }
        }
        lemma_apart_stays(before);
        if before.len() > 0 {
            assert(before.last() == segments[segments.len() - 2]);
            assert(!(segments[segments.len() - 2] is Stream && segments[segments.len() - 1] is Stream));
        }
        assert(before.push(segments.last()) =~= segments);
    }
}

/// Merging stream segments once merges all there is to merge.
pub proof fn coalescing_is_idempotent(segments: Seq<SegmentView>)
    ensures
        coalesced(coalesced(segments)) == coalesced(segments),
{
    lemma_coalesced_apart(segments);
    lemma_apart_stays(coalesced(segments));
}

/// Merges stream segments that follow one another. Graph islands stay as they are,
/// and no operation moves past another.
pub fn coalesce_adjacent_stream_segments(segments: Vec<CudaOpSegment>) -> (merged: Vec<CudaOpSegment>)
    ensures
        segment_views(merged@) == coalesced(segment_views(segments@)),
        flattened(merged@) == flattened(segments@),
        islands(merged@) == islands(segments@),
        streams_apart(merged@),
{
    let ghost all = segments@;
    let mut out: Vec<CudaOpSegment> = Vec::new();
    for segment in iter: segments
        invariant
            iter.seq() == all,
            segment_views(out@) == coalesced(segment_views(all.take(iter.index()))),
            flattened(out@) == flattened(all.take(iter.index())),
            islands(out@) == islands(all.take(iter.index())),
            streams_apart(out@),
    {
        assert(all.take(iter.index() + 1).drop_last() =~= all.take(iter.index()));
        let ghost before = out@;
        let ghost views = segment_views(all.take(iter.index() + 1));
        assert(views.drop_last() =~= segment_views(all.take(iter.index())));
        assert(views.last() == segment@);
        match segment {
            CudaOpSegment::Graph(ops) => {
                out.push(CudaOpSegment::Graph(ops));
                assert(out@.drop_last() =~= before);
                assert(streams_apart(out@));
            },
            CudaOpSegment::Stream(next) => {
                match out.pop() {
                    Some(CudaOpSegment::Stream(prev)) => {
                        let mut prev = prev;
                        let ghost prev0 = prev@;
                        append_ops(&mut prev, &next);
                        out.push(CudaOpSegment::Stream(prev));
                        assert(out@.drop_last() =~= before.drop_last());
                        assert(flattened(out@) =~= flattened(before) + next@);
                        assert(streams_apart(out@)) by {
                            assert forall|i: int, j: int|
                                0 <= i && j == i + 1 && j < out@.len() implies !(
                            #[trigger] out@[i] is Stream && #[trigger] out@[j] is Stream) by {
                                assert(before[i] is Stream == out@[i] is Stream);
                                assert(before[j] is Stream == out@[j] is Stream);
                            }
                        }
                    },
                    Some(last) => {
                        out.push(last);
                        assert(out@ =~= before);
                        out.push(CudaOpSegment::Stream(next));
                        assert(out@.drop_last() =~= before);
                        assert(streams_apart(out@));
                    },
                    None => {
                        assert(out@ =~= before);
                        out.push(CudaOpSegment::Stream(next));
                        assert(out@.drop_last() =~= before);
                        assert(streams_apart(out@));
                    },
                }
            },
        }
        assert(segment_views(out@) =~= joined(segment_views(before), views.last()));
    }
    assert(all.take(all.len() as int) =~= all);
    out
}

/// The last stream segment, at the end of the program; an empty one is appended
/// where the program ends on a graph island.
pub fn last_stream_segment_mut(segments: &mut Vec<CudaOpSegment>) -> (ops: &mut Vec<CudaOp>)
    ensures
        ({
            let ends_on_stream = old(segments)@.len() > 0 && old(segments)@.last() is Stream;
            &&& ends_on_stream ==> *ops == old(segments)@.last()->Stream_0 && final(segments)@
                == old(segments)@.drop_last().push(CudaOpSegment::Stream(*final(ops)))
            &&& !ends_on_stream ==> ops@ == Seq::<CudaOp>::empty() && final(segments)@
                == old(segments)@.push(CudaOpSegment::Stream(*final(ops)))
        }),
{
    let ends_on_stream = if segments.len() > 0 {
        !segments[segments.len() - 1].is_graph()
    } else {
        false
    };
    if !ends_on_stream {
        segments.push(CudaOpSegment::Stream(Vec::new()));
    }
    let n: usize = segments.len();
    match &mut segments[n - 1] {
        CudaOpSegment::Stream(ops) => ops,
        CudaOpSegment::Graph(ops) => ops,
    }
}

/// The same of a relaunch.
pub fn last_launch_stream_segment_mut(segments: &mut Vec<CudaLaunchSegment>) -> (ops: &mut Vec<
    CudaOp,
>)
    ensures
        ({
            let ends_on_stream = old(segments)@.len() > 0 && old(segments)@.last() is Stream;
            &&& ends_on_stream ==> *ops == old(segments)@.last()->Stream_0 && final(segments)@
                == old(segments)@.drop_last().push(CudaLaunchSegment::Stream(*final(ops)))
            &&& !ends_on_stream ==> ops@ == Seq::<CudaOp>::empty() && final(segments)@
                == old(segments)@.push(CudaLaunchSegment::Stream(*final(ops)))
        }),
{
    let ends_on_stream = if segments.len() > 0 {
        match &segments[segments.len() - 1] {
            CudaLaunchSegment::Stream(_) => true,
            CudaLaunchSegment::Graph => false,
        }
    } else {
        false
    };
    if !ends_on_stream {
        segments.push(CudaLaunchSegment::Stream(Vec::new()));
    }
    let n: usize = segments.len();
    match &mut segments[n - 1] {
        CudaLaunchSegment::Stream(ops) => ops,
        CudaLaunchSegment::Graph => vstd::pervasive::unreached(),
    }
}

/// The operation waits for or signals a fence of another API.
pub open spec fn is_fence_op(op: CudaOp) -> bool {
    op is WaitExternalFence || op is SignalExternalFence
}

/// The operations without those on fences of another API.
pub open spec fn without_fences(ops: Seq<CudaOp>) -> Seq<CudaOp>
    decreases ops.len(),
{
    if ops.len() == 0 {
        Seq::empty()
    } else if is_fence_op(ops.last()) {
        without_fences(ops.drop_last())
    } else {
        without_fences(ops.drop_last()).push(ops.last())
    }
}

/// Drops the operations on fences of another API: they belong to one frame and are
/// not replayed.
pub fn strip_external_fence_ops(ops: &Vec<CudaOp>) -> (kept: Vec<CudaOp>)
    ensures
        kept@ == without_fences(ops@),
{
    let mut kept: Vec<CudaOp> = Vec::new();
    let mut i: usize = 0;
    while i < ops.len()
        invariant
            i <= ops.len(),
            kept@ == without_fences(ops@.take(i as int)),
        decreases ops.len() - i,
    {
        assert(ops@.take(i + 1).drop_last() =~= ops@.take(i as int));
        match ops[i] {
            CudaOp::WaitExternalFence { .. } => {},
            CudaOp::SignalExternalFence { .. } => {},
            op => {
                kept.push(op);
            },
        }
        i += 1;
    }
    assert(ops@.take(i as int) =~= ops@);
    kept
}

/// Some operation is an indirect launch.
pub open spec fn has_indirect(ops: Seq<CudaOp>) -> bool {
    exists|i: int| 0 <= i < ops.len() && #[trigger] ops[i] is LaunchIndirect
}

/// Whether some operation is an indirect launch.
pub fn ops_contain_indirect(ops: &Vec<CudaOp>) -> (indirect: bool)
    ensures
        indirect == has_indirect(ops@),
{
    let mut i: usize = 0;
    while i < ops.len()
        invariant
            i <= ops.len(),
            forall|j: int| 0 <= j < i ==> !(#[trigger] ops@[j] is LaunchIndirect),
        decreases ops.len() - i,
    {
        match ops[i] {
            CudaOp::LaunchIndirect { .. } => {
                assert(ops@[i as int] is LaunchIndirect);
                return true;
            },
            _ => {},
        }
        i += 1;
    }
    false
}

/// What has to be kept alive for operations, in the order of the operations.
pub struct Pins {
    pub buffers: Vec<u64>,
    pub modules: Vec<u64>,
    pub textures: Vec<u64>,
    pub hosts: Vec<u64>,
}

/// The textures' identifiers.
pub open spec fn texture_ids(textures: Seq<CudaTexture>) -> Seq<u64> {
    textures.map_values(|t: CudaTexture| t.id)
}

/// Memory that an operation touches.
pub open spec fn op_buffers(launches: Seq<LaunchRecord>, op: CudaOp) -> Seq<u64> {
    match op {
        CudaOp::Launch { launch, grid } => launches[launch as int].keep_alive_buffers@,
        CudaOp::LaunchIndirect { launch, shape } => launches[launch as int].keep_alive_buffers@.push(
            shape.memory,
        ),
        CudaOp::Clear { memory, abs_offset, size, device_ptr } => seq![memory],
        CudaOp::Write { memory, abs_offset, payload, len } => seq![memory],
        CudaOp::WriteFromHost { memory, abs_offset, device_ptr, host, host_offset, len } => seq![memory],
        CudaOp::Copy { src, src_abs, src_ptr, dst, dst_abs, dst_ptr, size } => seq![src, dst],
        CudaOp::CopyBufferToTexture { src, src_abs, src_ptr, src_row_pitch, texture, region } => seq![src],
        CudaOp::CopyTextureToBuffer { texture, region, dst, dst_abs, dst_ptr, dst_row_pitch } => seq![dst],
        _ => Seq::empty(),
    }
}

/// Modules that an operation runs code of.
pub open spec fn op_modules(launches: Seq<LaunchRecord>, op: CudaOp) -> Seq<u64> {
    match op {
        CudaOp::Launch { launch, grid } => seq![launches[launch as int].module],
        CudaOp::LaunchIndirect { launch, shape } => seq![
            launches[launch as int].module,
            shape.updater_module,
        ],
        _ => Seq::empty(),
    }
}

/// Textures that an operation touches.
pub open spec fn op_textures(launches: Seq<LaunchRecord>, op: CudaOp) -> Seq<u64> {
    match op {
        CudaOp::Launch { launch, grid } => texture_ids(
            launches[launch as int].keep_alive_textures@,
        ),
        CudaOp::LaunchIndirect { launch, shape } => texture_ids(
            launches[launch as int].keep_alive_textures@,
        ),
        CudaOp::WriteTexture { texture, region, payload, len, src_row_pitch } => seq![texture.id],
        CudaOp::WriteTextureFromHost { texture, region, host, host_offset, len, src_row_pitch } => seq![texture.id],
        CudaOp::CopyBufferToTexture { src, src_abs, src_ptr, src_row_pitch, texture, region } => seq![texture.id],
        CudaOp::CopyTexture { from, to } => seq![from.id, to.id],
        CudaOp::CopyTextureToBuffer { texture, region, dst, dst_abs, dst_ptr, dst_row_pitch } => seq![texture.id],
        _ => Seq::empty(),
    }
}

/// Host staging that an operation reads.
pub open spec fn op_hosts(op: CudaOp) -> Seq<u64> {
    match op {
        CudaOp::WriteFromHost { memory, abs_offset, device_ptr, host, host_offset, len } => seq![host],
        CudaOp::WriteTextureFromHost { texture, region, host, host_offset, len, src_row_pitch } => seq![host],
        _ => Seq::empty(),
    }
}

/// Memory that operations touch, in order.
pub open spec fn pinned_buffers(launches: Seq<LaunchRecord>, ops: Seq<CudaOp>) -> Seq<u64>
    decreases ops.len(),
{
    if ops.len() == 0 {
        Seq::empty()
    } else {
        pinned_buffers(launches, ops.drop_last()) + op_buffers(launches, ops.last())
    }
}

/// Modules that operations run code of, in order.
pub open spec fn pinned_modules(launches: Seq<LaunchRecord>, ops: Seq<CudaOp>) -> Seq<u64>
    decreases ops.len(),
{
    if ops.len() == 0 {
        Seq::empty()
    } else {
        pinned_modules(launches, ops.drop_last()) + op_modules(launches, ops.last())
    }
}

/// Textures that operations touch, in order.
pub open spec fn pinned_textures(launches: Seq<LaunchRecord>, ops: Seq<CudaOp>) -> Seq<u64>
    decreases ops.len(),
{
    if ops.len() == 0 {
        Seq::empty()
    } else {
        pinned_textures(launches, ops.drop_last()) + op_textures(launches, ops.last())
    }
}

/// Host staging that operations read, in order.
pub open spec fn pinned_hosts(ops: Seq<CudaOp>) -> Seq<u64>
    decreases ops.len(),
{
    if ops.len() == 0 {
        Seq::empty()
    } else {
        pinned_hosts(ops.drop_last()) + op_hosts(ops.last())
    }
}

impl Pins {
    /// The pins are those of the operations.
    pub open spec fn of(self, launches: Seq<LaunchRecord>, ops: Seq<CudaOp>) -> bool {
        &&& self.buffers@ == pinned_buffers(launches, ops)
        &&& self.modules@ == pinned_modules(launches, ops)
        &&& self.textures@ == pinned_textures(launches, ops)
        &&& self.hosts@ == pinned_hosts(ops)
    }
}

fn append_ids(ids: &mut Vec<u64>, more: &Vec<u64>)
    ensures
        final(ids)@ == old(ids)@ + more@,
{
    let ghost start = ids@;
    let mut i: usize = 0;
    while i < more.len()
        invariant
            i <= more.len(),
            ids@ == start + more@.take(i as int),
        decreases more.len() - i,
    {
        ids.push(more[i]);
        i += 1;
    }
    assert(more@.take(i as int) =~= more@);
}

fn append_texture_ids(ids: &mut Vec<u64>, more: &Vec<CudaTexture>)
    ensures
        final(ids)@ == old(ids)@ + texture_ids(more@),
{
    let ghost start = ids@;
    let mut i: usize = 0;
    while i < more.len()
        invariant
            i <= more.len(),
            ids@ == start + texture_ids(more@.take(i as int)),
        decreases more.len() - i,
    {
        ids.push(more[i].id);
        assert(ids@ =~= start + texture_ids(more@.take(i + 1)));
        i += 1;
    }
    assert(more@.take(i as int) =~= more@);
}

/// Collects what has to be kept alive for operations.
pub fn collect_pins(launches: &Vec<LaunchRecord>, ops: &Vec<CudaOp>) -> (pins: Pins)
    requires
        launches_known(launches@, ops@),
    ensures
        pins.of(launches@, ops@),
{
    let mut pins = Pins {
        buffers: Vec::new(),
        modules: Vec::new(),
        textures: Vec::new(),
        hosts: Vec::new(),
    };
    let mut i: usize = 0;
    while i < ops.len()
        invariant
            i <= ops.len(),
            launches_known(launches@, ops@),
            pins.of(launches@, ops@.take(i as int)),
        decreases ops.len() - i,
    {
        assert(ops@.take(i + 1).drop_last() =~= ops@.take(i as int));
        assert(launch_known(launches@, ops@[i as int]));
        let ghost before = pins;
        match ops[i] {
            CudaOp::Launch { launch, .. } => {
                let record = &launches[launch];
                pins.modules.push(record.module);
                append_ids(&mut pins.buffers, &record.keep_alive_buffers);
                append_texture_ids(&mut pins.textures, &record.keep_alive_textures);
            },
            CudaOp::LaunchIndirect { launch, shape } => {
                let record = &launches[launch];
                pins.modules.push(record.module);
                pins.modules.push(shape.updater_module);
                append_ids(&mut pins.buffers, &record.keep_alive_buffers);
                pins.buffers.push(shape.memory);
                append_texture_ids(&mut pins.textures, &record.keep_alive_textures);
            },
            CudaOp::Clear { memory, .. } => {
                pins.buffers.push(memory);
            },
            CudaOp::Write { memory, .. } => {
                pins.buffers.push(memory);
            },
            CudaOp::WriteFromHost { memory, host, .. } => {
                pins.buffers.push(memory);
                pins.hosts.push(host);
            },
            CudaOp::Copy { src, dst, .. } => {
                pins.buffers.push(src);
                pins.buffers.push(dst);
            },
            CudaOp::WriteTexture { texture, .. } => {
                pins.textures.push(texture.id);
            },
            CudaOp::WriteTextureFromHost { texture, host, .. } => {
                pins.textures.push(texture.id);
                pins.hosts.push(host);
            },
            CudaOp::CopyBufferToTexture { src, texture, .. } => {
                pins.buffers.push(src);
                pins.textures.push(texture.id);
            },
            CudaOp::CopyTexture { from, to } => {
                pins.textures.push(from.id);
                pins.textures.push(to.id);
            },
            CudaOp::WaitExternalFence { .. } => {},
            CudaOp::SignalExternalFence { .. } => {},
            CudaOp::CopyTextureToBuffer { texture, dst, .. } => {
                pins.textures.push(texture.id);
                pins.buffers.push(dst);
            },
        }
        let ghost op = ops@[i as int];
        assert(pins.buffers@ =~= before.buffers@ + op_buffers(launches@, op));
        assert(pins.modules@ =~= before.modules@ + op_modules(launches@, op));
        assert(pins.textures@ =~= before.textures@ + op_textures(launches@, op));
        assert(pins.hosts@ =~= before.hosts@ + op_hosts(op));
        i += 1;
    }
    assert(ops@.take(i as int) =~= ops@);
    pins
}

/// Kernel nodes that capturing an operation makes: an indirect launch makes two, of
/// which the second is the kernel itself.
pub open spec fn kernel_nodes(ops: Seq<CudaOp>) -> int
    decreases ops.len(),
{
    if ops.len() == 0 {
        0
    } else {
        kernel_nodes(ops.drop_last()) + match ops.last() {
            CudaOp::Launch { .. } => 1int,
            CudaOp::LaunchIndirect { .. } => 2,
            _ => 0,
        }
    }
}

/// A captured kernel node whose grid the device updates, and where its handle goes.
#[derive(Clone, Copy, Debug, PartialEq, Eq, Structural)]
pub struct UpdatableNode {
    pub ordinal: usize,
    pub node_slot: u64,
}

/// The updatable nodes of captured operations, in order.
pub open spec fn updatable_nodes(ops: Seq<CudaOp>) -> Seq<UpdatableNode>
    decreases ops.len(),
{
    if ops.len() == 0 {
        Seq::empty()
    } else {
        let rest = updatable_nodes(ops.drop_last());
        match ops.last() {
            CudaOp::LaunchIndirect { launch, shape } => rest.push(
                UpdatableNode {
                    ordinal: (kernel_nodes(ops.drop_last()) + 1) as usize,
                    node_slot: shape.node_slot,
                },
            ),
            _ => rest,
        }
    }
}

/// Finds the kernel nodes of captured operations that the device updates: for each
/// indirect launch the node after its updater, among all kernel nodes.
pub fn finalize_indirect_capture(ops: &Vec<CudaOp>) -> (nodes: Vec<UpdatableNode>)
    requires
        2 * ops@.len() <= usize::MAX,
    ensures
        nodes@ == updatable_nodes(ops@),
{
    let mut nodes: Vec<UpdatableNode> = Vec::new();
    let mut ordinal: usize = 0;
    let mut i: usize = 0;
    while i < ops.len()
        invariant
            i <= ops.len(),
            2 * ops@.len() <= usize::MAX,
            ordinal <= 2 * i,
            ordinal == kernel_nodes(ops@.take(i as int)),
            nodes@ == updatable_nodes(ops@.take(i as int)),
        decreases ops.len() - i,
    {
        assert(ops@.take(i + 1).drop_last() =~= ops@.take(i as int));
        match ops[i] {
            CudaOp::Launch { .. } => {
                ordinal += 1;
            },
            CudaOp::LaunchIndirect { shape, .. } => {
                nodes.push(UpdatableNode { ordinal: ordinal + 1, node_slot: shape.node_slot });
                ordinal += 2;
            },
            _ => {},
        }
        i += 1;
    }
    assert(ops@.take(i as int) =~= ops@);
    nodes
}

/// Dropping fence operations twice is dropping them once, and none is left.
pub proof fn stripping_fences_is_idempotent(ops: Seq<CudaOp>)
    ensures
        without_fences(without_fences(ops)) == without_fences(ops),
        forall|i: int|
            0 <= i < without_fences(ops).len() ==> !is_fence_op(#[trigger] without_fences(ops)[i]),
    decreases ops.len(),
{
    if ops.len() > 0 {
        stripping_fences_is_idempotent(ops.drop_last());
        let rest = without_fences(ops.drop_last());
        if !is_fence_op(ops.last()) {
            assert(rest.push(ops.last()).drop_last() =~= rest);
        }
    }
}

/// A relaunch has the graph islands of the segments it was made from.
pub proof fn relaunch_keeps_islands(
    segments: Seq<CudaOpSegment>,
    launch: Seq<CudaLaunchSegment>,
)
    requires
        launch.len() == segments.len(),
        forall|i: int| 0 <= i < segments.len() ==> relaunches(#[trigger] launch[i], segments[i]),
    ensures
        island_count(segments) == launch_island_count(launch),
    decreases segments.len(),
{
    if segments.len() > 0 {
        relaunch_keeps_islands(segments.drop_last(), launch.drop_last());
        assert(relaunches(launch[launch.len() - 1], segments[segments.len() - 1]));
    }
}

/// How many segments of a relaunch are graph islands.
pub open spec fn launch_island_count(launch: Seq<CudaLaunchSegment>) -> int
    decreases launch.len(),
{
    if launch.len() == 0 {
        0
    } else {
        launch_island_count(launch.drop_last()) + if launch.last() is Graph {
            1int
        } else {
            0
        }
    }
}

/// There is one way to split operations into maximal runs: two splits of the same
/// operations have the same segments.
pub proof fn partition_is_unique(
    launches: Seq<LaunchRecord>,
    a: Seq<CudaOpSegment>,
    b: Seq<CudaOpSegment>,
)
    requires
        maximal_runs(launches, a),
        maximal_runs(launches, b),
        flattened(a) == flattened(b),
    ensures
        a.len() == b.len(),
        forall|i: int|
            0 <= i < a.len() ==> (#[trigger] a[i] is Graph) == (b[i] is Graph) && a[i].operations()
                == b[i].operations(),
    decreases a.len() + b.len(),
{
    let f = flattened(a);
    if a.len() == 0 {
        if b.len() > 0 {
            assert(uniform_run(launches, b.last()));
            assert(f.len() > 0);
        }
    } else if b.len() == 0 {
        assert(uniform_run(launches, a.last()));
        assert(f.len() > 0);
    } else {
        let x = a.last().operations();
        let y = b.last().operations();
        let fa = flattened(a.drop_last());
        let fb = flattened(b.drop_last());
        assert(uniform_run(launches, a[a.len() - 1]));
        assert(uniform_run(launches, b[b.len() - 1]));
        assert(f =~= fa + x);
        assert(f =~= fb + y);
        assert(f[f.len() - 1] == x[x.len() - 1]);
        assert(f[f.len() - 1] == y[y.len() - 1]);
        assert((a.last() is Graph) == (b.last() is Graph));
        lemma_run_cannot_extend(launches, a, y, fb);
        lemma_run_cannot_extend(launches, b, x, fa);
        assert(fa =~= f.take(f.len() - x.len()));
        assert(fb =~= f.take(f.len() - y.len()));
        assert(x =~= f.skip(f.len() - x.len()));
        assert(y =~= f.skip(f.len() - y.len()));
        lemma_runs_of_prefix(launches, a);
        lemma_runs_of_prefix(launches, b);
        partition_is_unique(launches, a.drop_last(), b.drop_last());
        assert forall|i: int| 0 <= i < a.len() implies (#[trigger] a[i] is Graph) == (b[i] is Graph)
            && a[i].operations() == b[i].operations() by {
            if i < a.len() - 1 {
                assert(a.drop_last()[i] == a[i]);
                assert(b.drop_last()[i] == b[i]);
            }
        }
    }
}

proof fn lemma_runs_of_prefix(launches: Seq<LaunchRecord>, a: Seq<CudaOpSegment>)
    requires
        maximal_runs(launches, a),
        a.len() > 0,
    ensures
        maximal_runs(launches, a.drop_last()),
{
    let p = a.drop_last();
    assert forall|i: int| 0 <= i < p.len() implies uniform_run(launches, #[trigger] p[i]) by {
        assert(p[i] == a[i]);
    }
    assert forall|i: int, j: int| 0 <= i && j == i + 1 && j < p.len() implies (#[trigger] p[i] is Graph)
        != (#[trigger] p[j] is Graph) by {
        assert(p[i] == a[i] && p[j] == a[j]);
    }
}

/// A run of one kind at the end of the operations is no longer than the last
/// maximal run of that kind.
proof fn lemma_run_cannot_extend(
    launches: Seq<LaunchRecord>,
    a: Seq<CudaOpSegment>,
    run: Seq<CudaOp>,
    rest: Seq<CudaOp>,
)
    requires
        maximal_runs(launches, a),
        a.len() > 0,
        flattened(a) == rest + run,
        forall|k: int|
            0 <= k < run.len() ==> graph_safe(launches, #[trigger] run[k]) == (a.last() is Graph),
    ensures
        run.len() <= a.last().operations().len(),
{
    let f = flattened(a);
    let x = a.last().operations();
    let fa = flattened(a.drop_last());
    assert(f =~= fa + x);
    if x.len() < run.len() {
        assert(fa.len() > 0);
        assert(a.len() > 1) by {
            if a.len() == 1 {
                assert(a.drop_last() =~= Seq::<CudaOpSegment>::empty());
            }
        }
        let prev = a[a.len() - 2];
        assert(uniform_run(launches, prev));
        assert((a[a.len() - 2] is Graph) != (a[a.len() - 1] is Graph));
        assert(a.drop_last().last() == prev);
        let y = prev.operations();
        let op = y[y.len() - 1];
        assert(fa =~= flattened(a.drop_last().drop_last()) + y);
        assert(fa[fa.len() - 1] == op);
        assert(f[fa.len() - 1] == op);
        let k = run.len() - x.len() - 1;
        assert(f[fa.len() - 1] == run[k]);
        assert(graph_safe(launches, run[k]) == (a.last() is Graph));
        assert(graph_safe(launches, y[y.len() - 1]) == (prev is Graph));
    }
}

} // verus!
