use goldy::cuda::ops::{
    coalesce_adjacent_stream_segments, collect_pins, collect_stream_ops, finalize_indirect_capture,
    flatten_segment_ops, graph_island_count, last_launch_stream_segment_mut, last_stream_segment_mut,
    ops_are_graph_safe, ops_contain_indirect, partition_ops_into_segments, strip_external_fence_ops,
    to_launch_segments, CudaLaunchSegment, CudaOp, CudaOpSegment, Grid, IndirectShape, LaunchRecord,
};

fn clear(memory: u64) -> CudaOp {
    CudaOp::Clear { memory, abs_offset: 0, size: 16, device_ptr: 0 }
}

fn copy(src: u64, dst: u64) -> CudaOp {
    CudaOp::Copy { src, src_abs: 0, src_ptr: 0, dst, dst_abs: 0, dst_ptr: 0, size: 16 }
}

fn grid() -> Grid {
    Grid { x: 1, y: 1, z: 1 }
}

fn record(module: u64, capture: bool) -> LaunchRecord {
    LaunchRecord {
        label: Some("kernel"),
        function: 7,
        module,
        workgroup_size: grid(),
        args: Vec::new(),
        keep_alive_buffers: vec![11, 12],
        keep_alive_textures: Vec::new(),
        graph_capture_ok: capture,
    }
}

fn shape(memory: u64) -> IndirectShape {
    IndirectShape {
        memory,
        abs_offset: 0,
        shape_ptr: 0,
        node_slot: 90,
        node_slot_ptr: 0,
        status_ptr: 0,
        updater: 1,
        updater_module: 2,
        max_grid: Grid { x: 10, y: 10, z: 10 },
        max_threads_per_block: 1024,
    }
}

#[test]
fn empty_ops_are_not_graph_safe() {
    assert!(!ops_are_graph_safe(&Vec::new(), &Vec::new()));
}

#[test]
fn clear_ops_are_graph_safe() {
    assert!(ops_are_graph_safe(&Vec::new(), &vec![clear(1)]));
}

#[test]
fn partition_empty_yields_empty() {
    assert!(partition_ops_into_segments(&Vec::new(), &Vec::new()).is_empty());
}

#[test]
fn partition_clears_form_one_graph_island() {
    let segments = partition_ops_into_segments(&Vec::new(), &vec![clear(1), clear(2)]);
    assert_eq!(segments.len(), 1);
    assert!(matches!(&segments[0], CudaOpSegment::Graph(ops) if ops.len() == 2));
}

#[test]
fn partition_clear_and_copy_form_one_graph_island() {
    let segments = partition_ops_into_segments(&Vec::new(), &vec![clear(1), copy(1, 2)]);
    assert_eq!(segments.len(), 1, "adjacent graph-safe ops must coalesce into one island");
    assert!(matches!(&segments[0], CudaOpSegment::Graph(ops) if ops.len() == 2));
}

#[test]
fn last_stream_segment_mut_appends_when_ending_on_graph() {
    let mut segments = vec![CudaOpSegment::Graph(Vec::new())];
    let stream = last_stream_segment_mut(&mut segments);
    assert!(stream.is_empty());
    assert_eq!(segments.len(), 2);
    assert!(matches!(segments[1], CudaOpSegment::Stream(_)));
}

#[test]
fn overlapping_copy_splits_the_island() {
    let ops = vec![clear(1), copy(3, 3), clear(2)];
    let segments = partition_ops_into_segments(&Vec::new(), &ops);
    assert_eq!(segments.len(), 3);
    assert!(segments[0].is_graph());
    assert!(!segments[1].is_graph());
    assert!(segments[2].is_graph());
    assert_eq!(graph_island_count(&segments), 2);
    assert_eq!(flatten_segment_ops(&segments), ops);
    assert_eq!(collect_stream_ops(&segments), vec![copy(3, 3)]);
    let launch = to_launch_segments(&segments);
    assert!(matches!(launch[0], CudaLaunchSegment::Graph));
    assert!(matches!(&launch[1], CudaLaunchSegment::Stream(ops) if ops.len() == 1));
}

#[test]
fn kernels_that_cannot_be_captured_go_to_the_stream() {
    let launches = vec![record(1, true), record(2, false)];
    let ops = vec![
        CudaOp::Launch { launch: 0, grid: grid() },
        CudaOp::Launch { launch: 1, grid: grid() },
    ];
    let segments = partition_ops_into_segments(&launches, &ops);
    assert_eq!(segments.len(), 2);
    assert!(segments[0].is_graph());
    assert!(!segments[1].is_graph());
}

#[test]
fn adjacent_stream_segments_are_merged() {
    let merged = coalesce_adjacent_stream_segments(vec![
        CudaOpSegment::Stream(vec![clear(1)]),
        CudaOpSegment::Stream(vec![clear(2)]),
        CudaOpSegment::Graph(vec![clear(3)]),
        CudaOpSegment::Stream(vec![clear(4)]),
    ]);
    assert_eq!(merged.len(), 3);
    assert_eq!(merged[0].ops().len(), 2);
    let empties = coalesce_adjacent_stream_segments(vec![
        CudaOpSegment::Stream(vec![]),
        CudaOpSegment::Graph(vec![clear(3)]),
        CudaOpSegment::Stream(vec![]),
        CudaOpSegment::Stream(vec![clear(4)]),
    ]);
    let shape: Vec<(bool, usize)> =
        empties.iter().map(|s| (s.is_graph(), s.ops().len())).collect();
    assert_eq!(shape, vec![(false, 0), (true, 1), (false, 1)]);
    let again = coalesce_adjacent_stream_segments(empties);
    let shape: Vec<(bool, usize)> = again.iter().map(|s| (s.is_graph(), s.ops().len())).collect();
    assert_eq!(shape, vec![(false, 0), (true, 1), (false, 1)]);
}

#[test]
fn fences_are_stripped_once_and_for_all() {
    let ops = vec![
        CudaOp::WaitExternalFence { value: 3 },
        clear(1),
        CudaOp::SignalExternalFence { value: 4 },
    ];
    let kept = strip_external_fence_ops(&ops);
    assert_eq!(kept, vec![clear(1)]);
    assert_eq!(strip_external_fence_ops(&kept), kept);
}

#[test]
fn pins_name_what_launches_keep_alive() {
    let launches = vec![record(5, true)];
    let ops = vec![clear(1), CudaOp::Launch { launch: 0, grid: grid() }, copy(2, 3)];
    let pins = collect_pins(&launches, &ops);
    assert_eq!(pins.buffers, vec![1, 11, 12, 2, 3]);
    assert_eq!(pins.modules, vec![5]);
    assert!(pins.textures.is_empty());
    assert!(pins.hosts.is_empty());
}

#[test]
fn indirect_consumers_follow_their_updaters() {
    let ops = vec![
        CudaOp::Launch { launch: 0, grid: grid() },
        CudaOp::LaunchIndirect { launch: 0, shape: shape(4) },
        clear(1),
        CudaOp::LaunchIndirect { launch: 0, shape: shape(5) },
    ];
    assert!(ops_contain_indirect(&ops));
    assert!(!ops_contain_indirect(&vec![clear(1)]));
    let nodes = finalize_indirect_capture(&ops);
    assert_eq!(nodes.len(), 2);
    assert_eq!(nodes[0].ordinal, 2);
    assert_eq!(nodes[1].ordinal, 4);
}

#[test]
fn relaunch_segments_get_a_stream_tail() {
    let mut segments = vec![CudaLaunchSegment::Graph];
    last_launch_stream_segment_mut(&mut segments).push(clear(1));
    assert_eq!(segments.len(), 2);
    last_launch_stream_segment_mut(&mut segments).push(clear(2));
    assert_eq!(segments.len(), 2);
}
