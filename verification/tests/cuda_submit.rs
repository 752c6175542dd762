use std::collections::HashMap;

use goldy::cuda::execute::{
    execute_ops, launch_indirect_fallback, resolved_calls, CudaCall, ExecEnv, ExecError, HostBytes,
    IndirectLaunch, MemoryInfo, SyncPoint,
};
use goldy::cuda::ops::{
    check_launches, CudaLaunchSegment, CudaOp, CudaOpSegment, Grid, IndirectShape, LaunchArg, Pins,
};
use goldy::cuda::pinned_host::{CudaPinnedHost, READBACK_FLAGS, UPLOAD_FLAGS};
use goldy::cuda::retained_graph::{
    cuda_launch_blocking_active, CudaGraphStats, CudaRetainedPartition, CudaRetainedProgram,
    GraphRegistry, RelaunchError,
};
use goldy::cuda::runtime_module::{
    cuda_include_candidates, cuda_include_path, nvrtc_arch, required_header,
};
use goldy::cuda::submit::{
    after_capture, buffer_device_arg, materialize_deferred_writes, plan_capture_and_launch,
    plan_launch_retained, prime_submit_waits_for_ops, run_dynamic_prefix, BufferPlace, CaptureNext,
    DeferredHostWrite, MaterializedHostWrite, Prefix, SubmitRun, UnknownBuffer, WorkerAction, WorkerStep,
};

fn env() -> ExecEnv {
    let mut memory = HashMap::new();
    memory.insert(1, MemoryInfo { len: 100, base: 0x1000 });
    memory.insert(2, MemoryInfo { len: 50, base: 0x2000 });
    let mut hosts = HashMap::new();
    hosts.insert(9, 64);
    ExecEnv { memory, hosts }
}

fn clear(start: u64, size: u64) -> CudaOp {
    CudaOp::Clear { memory: 1, abs_offset: start, size, device_ptr: 0x1000 + start }
}

fn clear_of(memory: u64) -> CudaOp {
    CudaOp::Clear { memory, abs_offset: 0, size: 1, device_ptr: 0 }
}

fn copy(src: u64, src_abs: u64, dst: u64, dst_abs: u64, size: u64) -> CudaOp {
    CudaOp::Copy { src, src_abs, src_ptr: 7, dst, dst_abs, dst_ptr: 8, size }
}

fn from_host(offset: u64, host_offset: u64, len: u64) -> CudaOp {
    CudaOp::WriteFromHost { memory: 1, abs_offset: offset, device_ptr: 5, host: 9, host_offset, len }
}

fn indirect(start: u64) -> CudaOp {
    let grid = Grid { x: 4, y: 4, z: 4 };
    CudaOp::LaunchIndirect {
        launch: 3,
        shape: IndirectShape {
            memory: 1,
            abs_offset: start,
            shape_ptr: 0,
            node_slot: 0,
            node_slot_ptr: 0,
            status_ptr: 0,
            updater: 0,
            updater_module: 0,
            max_grid: grid,
            max_threads_per_block: 64,
        },
    }
}

#[test]
fn clears_are_validated_outside_capture() {
    let plan = execute_ops(&env(), &vec![clear(10, 20)], true);
    assert_eq!(plan.error, None);
    assert_eq!(
        plan.calls,
        vec![
            CudaCall::MemsetRange { memory: 1, start: 10, len: 20 },
            CudaCall::Validate { point: SyncPoint::ClearBuffer },
        ]
    );
    let captured = execute_ops(&env(), &vec![clear(10, 20), clear(0, 0)], false);
    assert_eq!(captured.calls, vec![CudaCall::MemsetPtr { ptr: 0x100a, size: 20 }]);
}

#[test]
fn the_first_error_ends_the_run() {
    let plan = execute_ops(&env(), &vec![clear(0, 10), clear(95, 10), clear(0, 10)], true);
    assert_eq!(plan.error, Some(ExecError::ClearOutOfBounds));
    assert_eq!(plan.calls.len(), 2);
}

#[test]
fn every_range_is_checked() {
    let failing = |op: CudaOp| execute_ops(&env(), &vec![op], true).error;
    assert_eq!(failing(copy(1, 90, 2, 0, 20)), Some(ExecError::CopySourceOutOfBounds));
    assert_eq!(failing(copy(1, 0, 2, 40, 20)), Some(ExecError::CopyDestinationOutOfBounds));
    assert_eq!(failing(copy(1, 0, 2, 0, 20)), None);
    assert_eq!(failing(from_host(0, 60, 5)), Some(ExecError::WriteFromHostExceedsStaging));
    assert_eq!(failing(from_host(98, 0, 5)), Some(ExecError::WriteFromHostOutOfBounds));
    assert_eq!(failing(indirect(90)), Some(ExecError::IndirectShapeOutOfBounds));
    assert_eq!(
        failing(CudaOp::Write { memory: 2, abs_offset: 49, payload: 0, len: 2 }),
        Some(ExecError::WriteOutOfBounds)
    );
}

#[test]
fn captured_operations_use_recorded_addresses() {
    let plan = execute_ops(&env(), &vec![copy(1, 0, 2, 0, 20), from_host(0, 4, 5), indirect(0)], false);
    assert_eq!(plan.error, None);
    assert_eq!(plan.calls[0], CudaCall::CopyPtr { src_ptr: 7, dst_ptr: 8, size: 20 });
    assert_eq!(
        plan.calls[1],
        CudaCall::UploadPtr { ptr: 5, len: 5, bytes: HostBytes::Staging { host: 9, offset: 4, len: 5 } }
    );
    assert!(matches!(plan.calls[2], CudaCall::LaunchUpdater { .. }));
    assert_eq!(plan.calls[3], CudaCall::LaunchKernel { launch: 3, grid: Grid { x: 1, y: 1, z: 1 } });
    assert!(plan.calls.iter().all(|call| !matches!(
        call,
        CudaCall::Validate { .. } | CudaCall::ReadShape { .. } | CudaCall::CopyViaScratch { .. }
    )));
}

#[test]
fn copies_within_memory_go_through_scratch() {
    let plan = execute_ops(&env(), &vec![copy(1, 0, 1, 30, 20)], true);
    assert_eq!(
        plan.calls[0],
        CudaCall::CopyViaScratch { memory: 1, src_start: 0, dst_start: 30, len: 20 }
    );
}

#[test]
fn grids_are_read_and_bounded() {
    let max = Grid { x: 4, y: 4, z: 4 };
    let bytes = |x: u8, y: u8, z: u8| vec![x, 0, 0, 0, y, 0, 0, 0, z, 0, 0, 0];
    assert_eq!(
        launch_indirect_fallback(&bytes(1, 2, 3), &max),
        IndirectLaunch::Launch { grid: Grid { x: 1, y: 2, z: 3 } }
    );
    assert_eq!(launch_indirect_fallback(&bytes(1, 0, 3), &max), IndirectLaunch::Nothing);
    assert!(matches!(
        launch_indirect_fallback(&bytes(1, 2, 5), &max),
        IndirectLaunch::TooLarge { .. }
    ));
    let wide = vec![0, 1, 0, 0, 1, 0, 0, 0, 1, 0, 0, 0];
    assert!(matches!(
        launch_indirect_fallback(&wide, &max),
        IndirectLaunch::TooLarge { grid: Grid { x: 256, y: 1, z: 1 }, .. }
    ));
}

#[test]
fn resolved_launches_are_validated() {
    let grid = Grid { x: 1, y: 2, z: 3 };
    let max_grid = Grid { x: 4, y: 4, z: 2 };
    assert!(resolved_calls(3, &IndirectLaunch::Nothing).unwrap().is_empty());
    assert_eq!(
        resolved_calls(3, &IndirectLaunch::Launch { grid }).unwrap(),
        execute_ops(&env(), &vec![CudaOp::Launch { launch: 3, grid }], true).calls
    );
    assert_eq!(
        resolved_calls(3, &IndirectLaunch::Launch { grid }).unwrap(),
        vec![
            CudaCall::LaunchKernel { launch: 3, grid },
            CudaCall::Validate { point: SyncPoint::Dispatch { launch: 3 } },
        ]
    );
    assert_eq!(
        resolved_calls(3, &IndirectLaunch::TooLarge { grid, max_grid }),
        Err(ExecError::IndirectGridTooLarge { grid, max_grid })
    );
}

/// Allocations of a device, as bytes.
fn copied(calls: &[CudaCall], mut memory: HashMap<u64, Vec<u8>>) -> HashMap<u64, Vec<u8>> {
    for call in calls {
        let (src, from, dst, to, len) = match call {
            CudaCall::CopyRange { src, src_start, dst, dst_start, len } => {
                (*src, *src_start, *dst, *dst_start, *len)
            }
            CudaCall::CopyViaScratch { memory, src_start, dst_start, len } => {
                (*memory, *src_start, *memory, *dst_start, *len)
            }
            CudaCall::Validate { .. } => continue,
            _ => panic!("a copy makes no other call"),
        };
        let bytes = memory[&src][from as usize..(from + len) as usize].to_vec();
        memory.get_mut(&dst).unwrap()[to as usize..(to + len) as usize].copy_from_slice(&bytes);
    }
    memory
}

#[test]
fn copies_move_the_source_bytes() {
    let bytes = || {
        let mut memory = HashMap::new();
        memory.insert(1, (0..100).collect::<Vec<u8>>());
        memory.insert(2, vec![200; 50]);
        memory
    };
    let run = |op: CudaOp| {
        let plan = execute_ops(&env(), &vec![op], true);
        assert!(plan.error.is_none());
        copied(&plan.calls, bytes())
    };
    let between = run(copy(1, 10, 2, 5, 20));
    assert_eq!(between[&1], bytes()[&1]);
    assert_eq!(between[&2][5..25], bytes()[&1][10..30]);
    assert!(between[&2][..5].iter().chain(&between[&2][25..]).all(|b| *b == 200));
    let overlapping = run(copy(1, 0, 1, 10, 20));
    assert_eq!(overlapping[&1][10..30], bytes()[&1][..20]);
    assert_eq!(overlapping[&1][30..], bytes()[&1][30..]);
    assert_eq!(overlapping[&2], bytes()[&2]);
    assert_eq!(run(copy(1, 0, 2, 10, 0)), bytes());
}

#[test]
fn deferred_writes_find_their_memory() {
    let mut places = HashMap::new();
    places.insert(4, BufferPlace { memory: 1, base_offset: 16 });
    let write = DeferredHostWrite { buffer: 4, offset: 8, payload: 2, len: 4 };
    assert_eq!(
        materialize_deferred_writes(&vec![write], &places),
        Ok(vec![MaterializedHostWrite { memory: 1, abs_offset: 24, payload: 2, len: 4 }])
    );
    let lost = DeferredHostWrite { buffer: 5, ..write };
    assert_eq!(
        materialize_deferred_writes(&vec![write, lost], &places),
        Err(UnknownBuffer { buffer: 5 })
    );
}

#[test]
fn arguments_count_elements() {
    assert_eq!(
        buffer_device_arg(1000, 64, 16, 32, Some(8)),
        Some(LaunchArg::Buffer { data: 1016, count: 4 })
    );
    assert_eq!(
        buffer_device_arg(1000, 64, 16, 32, None),
        Some(LaunchArg::Buffer { data: 1016, count: 32 })
    );
    assert_eq!(
        buffer_device_arg(1000, 64, 16, 32, Some(0)),
        Some(LaunchArg::Buffer { data: 1016, count: 32 })
    );
    assert_eq!(buffer_device_arg(1000, 64, 40, 32, None), None);
}

#[test]
fn prefixes_write_before_they_wait() {
    let write = MaterializedHostWrite { memory: 1, abs_offset: 0, payload: 0, len: 8 };
    let prefix = Prefix {
        host_waits: vec![1],
        deferred_writes: vec![write],
        stream_waits: vec![2],
        fence_waits: vec![3],
    };
    assert_eq!(
        run_dynamic_prefix(&env(), &prefix),
        vec![
            WorkerStep::HostWait { event: 1 },
            WorkerStep::Upload { write },
            WorkerStep::Validate { point: SyncPoint::DeferredHostWrite },
            WorkerStep::StreamWait { event: 2 },
            WorkerStep::FenceWait { value: 3 },
        ]
    );
    let too_long = MaterializedHostWrite { len: 101, ..write };
    let steps = run_dynamic_prefix(&env(), &Prefix { deferred_writes: vec![too_long], ..prefix });
    assert_eq!(
        steps,
        vec![
            WorkerStep::HostWait { event: 1 },
            WorkerStep::Fail { error: ExecError::DeferredWriteOutOfBounds },
        ]
    );
}

#[test]
fn captured_islands_are_kept() {
    let segments = vec![
        CudaOpSegment::Graph(vec![clear(0, 1)]),
        CudaOpSegment::Stream(vec![clear(0, 1)]),
    ];
    let steps = plan_capture_and_launch(&segments);
    assert_eq!(steps[0], WorkerStep::Prime { segment: 0 });
    assert_eq!(steps[1], WorkerStep::Capture { segment: 0 });
    assert!(steps.contains(&WorkerStep::KeepIsland { segment: 0 }));
    assert!(steps.contains(&WorkerStep::ExecuteOps { segment: 1 }));
    assert_eq!(steps.last(), Some(&WorkerStep::CommitProgram));
    let again = plan_launch_retained(&vec![
        CudaLaunchSegment::Graph,
        CudaLaunchSegment::Stream(vec![clear(0, 1)]),
        CudaLaunchSegment::Graph,
    ]);
    assert!(again.contains(&WorkerStep::LaunchIsland { island: 0 }));
    assert!(again.contains(&WorkerStep::LaunchIsland { island: 1 }));
    assert!(again.contains(&WorkerStep::ExecuteOps { segment: 1 }));
}

#[test]
fn captures_wait_for_the_memory_they_touch() {
    let ready = HashMap::from([(3u64, 30u64), (5, 50)]);
    let ops = vec![clear_of(3), clear_of(4), clear_of(5), clear_of(3)];
    assert_eq!(prime_submit_waits_for_ops(&vec![], &ops, &ready), vec![30, 50, 30]);
    assert!(prime_submit_waits_for_ops(&vec![], &vec![], &ready).is_empty());
}

#[test]
fn captures_end_in_a_graph_or_an_error() {
    assert_eq!(after_capture(false, Some(4), &vec![clear(0, 1)]), CaptureNext::RecordingFailed);
    assert_eq!(after_capture(true, None, &vec![clear(0, 1)]), CaptureNext::EndFailed);
    assert_eq!(after_capture(true, Some(0), &vec![clear(0, 1)]), CaptureNext::EmptyGraph);
    assert_eq!(
        after_capture(true, Some(4), &vec![clear(0, 1)]),
        CaptureNext::Instantiate { graph: 4 }
    );
    assert_eq!(
        after_capture(true, Some(4), &vec![indirect(0)]),
        CaptureNext::FinalizeIndirect { graph: 4 }
    );
}

#[test]
fn completion_is_recorded_after_failure() {
    let steps = vec![WorkerStep::CountCapture, WorkerStep::CountLaunch];
    let mut run = SubmitRun::new(vec![WorkerStep::HostWait { event: 1 }], steps);
    assert_eq!(run.action(), WorkerAction::Step { step: WorkerStep::HostWait { event: 1 } });
    run.report(true);
    assert_eq!(run.action(), WorkerAction::Step { step: WorkerStep::CountCapture });
    run.report(false);
    assert_eq!(run.action(), WorkerAction::RecordCompletion);
    run.report(true);
    assert_eq!(run.action(), WorkerAction::Publish);
    run.report(true);
    assert_eq!(run.action(), WorkerAction::Done { failure: Some(1) });
    let mut twice = SubmitRun::new(vec![], vec![WorkerStep::CountCapture]);
    twice.report(false);
    twice.report(false);
    assert_eq!(twice.action(), WorkerAction::Done { failure: Some(0) });
    let mut late = SubmitRun::new(vec![], vec![WorkerStep::CountCapture]);
    late.report(true);
    late.report(false);
    assert_eq!(late.action(), WorkerAction::Done { failure: Some(1) });
    let mut well = SubmitRun::new(vec![], vec![]);
    well.report(true);
    well.report(true);
    assert_eq!(well.action(), WorkerAction::Done { failure: None });
}

fn program(graph: u64, last: u64) -> CudaRetainedProgram {
    CudaRetainedProgram {
        islands: vec![CudaRetainedPartition {
            graph,
            pins: Pins {
                buffers: Vec::new(),
                modules: Vec::new(),
                textures: Vec::new(),
                hosts: Vec::new(),
            },
            last_launch_tv: last,
        }],
        last_launch_tv: last,
    }
}

#[test]
fn evicted_programs_wait_for_their_launches() {
    let mut registry = GraphRegistry::new();
    let mut stats = CudaGraphStats::default();
    registry.insert(1, 7, program(70, 5));
    registry.insert(1, 8, program(80, 9));
    registry.insert(2, 7, program(90, 1));
    assert!(registry.evict_retained(&mut stats, 1, 7, 0, 3).is_empty());
    assert!(registry.get(1, 7).is_none());
    assert_eq!(stats.snapshot().evictions, 1);
    assert!(registry.drain_retired(4).is_empty());
    let dropped = registry.drain_retired(5);
    assert_eq!(dropped.len(), 1);
    assert_eq!(dropped[0].program.islands[0].graph, 70);
    registry.evict_context_graphs(&mut stats, 1, 0, 12);
    assert!(registry.get(1, 8).is_none());
    assert!(registry.get(2, 7).is_some());
    assert_eq!(registry.drain_retired(11).len(), 0);
    assert_eq!(registry.drain_retired(12).len(), 1);
    stats.reset();
    assert_eq!(stats, CudaGraphStats::default());
}

#[test]
fn islands_are_launched_by_number() {
    let mut registry = GraphRegistry::new();
    registry.insert(1, 7, program(70, 0));
    assert_eq!(registry.island_to_launch(1, 7, 0), Ok(70));
    assert_eq!(
        registry.island_to_launch(1, 7, 1),
        Err(RelaunchError::MissingIsland { ctx: 1, key: 7, island: 1 })
    );
    assert_eq!(
        registry.island_to_launch(1, 6, 0),
        Err(RelaunchError::MissingProgram { ctx: 1, key: 6 })
    );
    registry.mark_launched(1, 7, 0, 44);
    assert_eq!(registry.get(1, 7).unwrap().last_launch_tv, 44);
    assert_eq!(registry.get(1, 7).unwrap().islands[0].last_launch_tv, 44);
    registry.replace(1, 7, 0, 50, program(71, 0));
    assert_eq!(registry.island_to_launch(1, 7, 0), Ok(71));
    assert_eq!(registry.drain_retired(50).len(), 1);
}

#[test]
fn counters_count() {
    let mut stats = CudaGraphStats::default();
    stats.count_capture();
    stats.count_launch();
    stats.count_launch();
    let snapshot = stats.snapshot();
    assert_eq!((snapshot.captures, snapshot.launches, snapshot.fallbacks), (1, 2, 0));
}

#[test]
fn launch_blocking_is_read_from_its_setting() {
    assert!(!cuda_launch_blocking_active(&None));
    assert!(cuda_launch_blocking_active(&Some(String::from("1"))));
    assert!(!cuda_launch_blocking_active(&Some(String::from("0"))));
}

#[test]
fn architectures_and_headers_are_named() {
    assert_eq!(nvrtc_arch(8, 9), "sm_89");
    assert_eq!(nvrtc_arch(12, 0), "sm_120");
    assert!(!required_header().is_empty());
    let paths = cuda_include_candidates(&Some(String::from("/x/include")));
    assert_eq!(paths[0], "/x/include");
    let defaults = cuda_include_candidates(&None);
    assert_eq!(defaults.len() + 1, paths.len());
    assert_eq!(cuda_include_path(&vec![false, true, true]), Some(1));
    assert_eq!(cuda_include_path(&vec![false]), None);
}

#[test]
fn pinned_memory_keeps_its_bytes() {
    let mut host = CudaPinnedHost::alloc_upload(4, Some(0x40));
    assert_eq!((host.len(), host.flags, host.device_ptr), (4, UPLOAD_FLAGS, Some(0x40)));
    host.bytes[0] = 9;
    host.resize(6, true, Some(0x80));
    assert_eq!(host.bytes, vec![9, 0, 0, 0, 0, 0]);
    assert_eq!(host.device_ptr, Some(0x80));
    host.resize(2, false, None);
    assert_eq!(host.bytes, vec![0, 0]);
    let readback = CudaPinnedHost::alloc_readback(3);
    assert_eq!((readback.len(), readback.flags, readback.device_ptr), (3, READBACK_FLAGS, None));
}

#[test]
fn operations_are_checked_before_they_run() {
    let env = env();
    let end = u64::MAX;
    assert!(env.can_execute(&vec![clear(0, 400), copy(1, 0, 2, 0, 4), from_host(0, 0, 4), indirect(0)]));
    assert!(!env.can_execute(&vec![clear(0, 4), clear_of(8)]));
    assert!(!env.can_execute(&vec![clear(end, 1)]));
    assert!(env.can_execute(&vec![clear(end, 0)]));
    assert!(!env.can_execute(&vec![copy(1, end, 2, 0, 4)]));
    assert!(!env.can_execute(&vec![from_host(0, end, 4)]));
    assert!(!env.can_execute(&vec![indirect(end - 11)]));
    assert!(env.can_execute(&vec![indirect(end - 12)]));
    assert!(check_launches(&Vec::new(), &vec![clear(0, 4)]));
    assert!(!check_launches(&Vec::new(), &vec![clear(0, 4), indirect(0)]));
}

#[test]
fn waits_are_named() {
    assert_eq!(SyncPoint::CopyBuffer.name(), Some("CopyBuffer"));
    assert_eq!(SyncPoint::DeferredHostWrite.name(), Some("deferred host write"));
    assert_eq!(SyncPoint::Dispatch { launch: 3 }.name(), None);
}
