use std::collections::HashMap;

use goldy::dx12::barriers::{
    buffer_barrier_full, texture_barrier_full, texture_subresource_all, Barrier, GlobalBarrier,
    ACCESS_COMMON, ACCESS_COPY_DEST, ACCESS_COPY_SOURCE, ACCESS_INDIRECT_ARGUMENT,
    ACCESS_UNORDERED_ACCESS, BUFFER_BARRIER_FULL_SIZE, LAYOUT_COMMON, LAYOUT_COPY_DEST,
    LAYOUT_DIRECT_QUEUE_SHADER_RESOURCE, LAYOUT_DIRECT_QUEUE_UNORDERED_ACCESS, SYNC_ALL,
    SYNC_COMPUTE_SHADING, SYNC_COPY, SYNC_EXECUTE_INDIRECT,
};
use goldy::dx12::command_list::{
    barrier_buffers, barrier_globals, barrier_group, barrier_textures, Call,
};
use goldy::dx12::commands::{
    is_upload, GpuCommand, GraphCommand, PushLayoutInfo, RenderBinding, ResourceCategory,
    TypedHandle,
};
use goldy::dx12::context::{AllocatorSlot, DeferredSlot};
use goldy::dx12::lowering::{BarrierUsage, NodeAccess, SlotUsageSet, UsageKindFlags};
use goldy::dx12::record::{
    clear_size, emit_zero_fill, warp_full_global_barrier, BeltSlice, RecordError, RecordInputs,
    Recorder, StagedTextureUpload, ZERO_BUFFER_SIZE,
};
use goldy::dx12::staging::{graph_has_upload, split_staged, stream_has_upload, Staged};
use goldy::dx12::stream::{
    can_record_graph, can_record_stream, mark_rendered, submit_graph_with_scope, submit_with_scope,
};
use goldy::dx12::submit::{
    adopt_allocator_slot, choose_allocator_slot, collect_bindless_slots_from_gpu_commands,
    collect_bindless_slots_from_graph_commands, dx12_collect_dispatch_labels,
    dx12_collect_dispatch_labels_graph, dx12_readback_gpu_profile, plan_gpu_profile, span_ticks,
    upload_prepass, upload_prepass_graph, PrepassError, SlotWork, StagingStep,
};
use goldy::dx12::types::{
    BufferFlags, BufferState, DeviceRecordInfo, RecordTables, RenderTargetState, TextureState,
};

fn layout() -> PushLayoutInfo {
    PushLayoutInfo { size: 16, bindless_offset: 4, bindless_count: 2, stride: 32 }
}

fn buffer(resource: u64, is_storage: bool) -> BufferState {
    BufferState {
        device_handle: 1,
        resource,
        size: 256,
        allocation_size: 256,
        bindless_offset: Some(40),
        bindless_srv_offset: Some(41),
        is_storage,
        upload_buffer: None,
        upload_width: 0,
        element_stride: Some(4),
        is_view: false,
        coherent_readback: None,
        coherent_readback_mapped: false,
        flags: BufferFlags { cpu_readable: false, cpu_writable: false },
        transient_placed: false,
        parent_for_view: None,
        view_byte_offset: None,
        is_reserved: false,
        tile_byte_size: 0,
        reserved_tiles: Vec::new(),
    }
}

fn tables() -> RecordTables {
    let mut buffers = HashMap::new();
    buffers.insert(2, buffer(200, true));
    buffers.insert(3, buffer(300, false));
    let mut devices = HashMap::new();
    devices.insert(
        1,
        DeviceRecordInfo {
            zero_buffer: 999,
            has_dispatch_indirect_signature: true,
            has_batch_dispatch_signature: false,
        },
    );
    let mut compute_pipelines = HashMap::new();
    compute_pipelines.insert(5, 0);
    let mut render_targets = HashMap::new();
    render_targets.insert(
        8,
        RenderTargetState { device_handle: 1, texture: 800, depth_texture: None, has_rendered: false },
    );
    RecordTables { buffers, compute_pipelines, render_targets, devices }
}

fn inputs(global: bool, profiling: bool) -> RecordInputs {
    RecordInputs {
        device_handle: 1,
        use_global_buffer_barriers: global,
        profiling,
        push_layout: layout(),
        belt_slices: vec![BeltSlice { resource: 600, offset: 64 }],
        staged_texture_uploads: vec![StagedTextureUpload {
            texture: 9,
            layout_after: LAYOUT_COPY_DEST,
            pooled_entry: None,
        }],
    }
}

fn textures() -> HashMap<u64, TextureState> {
    let mut textures = HashMap::new();
    for (handle, is_storage) in [(9, true), (10, false)] {
        textures.insert(
            handle,
            TextureState {
                device_handle: 1,
                resource: handle * 100,
                is_storage,
                last_layout: LAYOUT_COMMON,
            },
        );
    }
    textures
}

fn record(global: bool, commands: Vec<GpuCommand>) -> Result<Vec<Call>, RecordError> {
    let mut recorder = Recorder::new();
    let mut all = textures();
    for command in &commands {
        recorder.record_gpu_command(&tables(), &inputs(global, false), &mut all, command)?;
    }
    Ok(recorder.calls)
}

fn dispatch(label: Option<&'static str>) -> GpuCommand {
    GpuCommand::Dispatch { label, workgroups_x: 1, workgroups_y: 2, workgroups_z: 3 }
}

/// Two dispatches, each with its bindless indices after the first word and its
/// workgroup counts after the constants.
fn batch() -> GpuCommand {
    let mut arg_data = vec![0u8; 64];
    for i in 0..2 {
        let base = i * 32;
        arg_data[base + 4] = 10 + i as u8;
        arg_data[base + 5] = 1;
        arg_data[base + 6] = 20;
        arg_data[base + 16] = 5 + i as u8;
        arg_data[base + 20] = 6;
        arg_data[base + 24] = 7;
    }
    GpuCommand::DispatchBatch { label: Some("batch"), arg_data, count: 2 }
}

#[test]
fn barriers_cover_the_whole_resource() {
    let b = buffer_barrier_full(7, SYNC_ALL, SYNC_COPY, ACCESS_COMMON, ACCESS_COPY_DEST);
    assert_eq!((b.offset, b.size, b.resource), (0, BUFFER_BARRIER_FULL_SIZE, 7));
    let t = texture_barrier_full(
        7,
        SYNC_ALL,
        SYNC_COPY,
        ACCESS_COMMON,
        ACCESS_COPY_DEST,
        LAYOUT_COMMON,
        LAYOUT_COPY_DEST,
    );
    assert_eq!(t.subresources, texture_subresource_all());
    let mut calls = Vec::new();
    barrier_buffers(&mut calls, &[b]);
    barrier_textures(&mut calls, &[t]);
    barrier_globals(&mut calls, &[warp_full_global_barrier()]);
    assert_eq!(calls.len(), 6);
    assert!(matches!(calls[1], Call::IssueBarriers));
    barrier_group(&mut calls, &[]);
    assert_eq!(calls.len(), 6);
}

#[test]
fn indirect_dispatches_borrow_their_buffer() {
    let calls = record(
        false,
        vec![GpuCommand::DispatchIndirect { label: None, buffer: 2, offset: 12 }],
    )
    .unwrap();
    assert!(matches!(
        calls[0],
        Call::QueueBarrier(Barrier::Buffer(b)) if b.resource == 200
            && b.sync_before == SYNC_COMPUTE_SHADING && b.sync_after == SYNC_EXECUTE_INDIRECT
            && b.access_after == ACCESS_INDIRECT_ARGUMENT
    ));
    assert!(calls.iter().any(|c| matches!(c, Call::ExecuteIndirect { count: 1, offset: 12, .. })));
    assert!(matches!(
        calls[calls.len() - 2],
        Call::QueueBarrier(Barrier::Buffer(b)) if b.access_after == ACCESS_UNORDERED_ACCESS
    ));
    assert_eq!(
        record(false, vec![GpuCommand::DispatchIndirect { label: None, buffer: 77, offset: 0 }]),
        Err(RecordError::DispatchIndirectInvalidBuffer)
    );
}

#[test]
fn clears_copy_zeros() {
    let calls = record(false, vec![GpuCommand::ClearBuffer { buffer: 2, offset: 6, size: 0 }]).unwrap();
    assert!(calls.iter().any(|c| matches!(
        c,
        Call::CopyBufferRegion { dst: 200, dst_offset: 6, src: 999, src_offset: 0, size: 250 }
    )));
    let mapped = record(false, vec![GpuCommand::ClearBuffer { buffer: 3, offset: 0, size: 8 }]).unwrap();
    assert!(matches!(mapped[0], Call::ZeroMapped { resource: 300, offset: 0, size: 8 }));
    assert!(record(false, vec![GpuCommand::ClearBuffer { buffer: 2, offset: 256, size: 0 }])
        .unwrap()
        .is_empty());
    assert_eq!(
        record(false, vec![GpuCommand::ClearBuffer { buffer: 77, offset: 0, size: 8 }]),
        Err(RecordError::ClearBufferInvalidBuffer)
    );
    assert_eq!(clear_size(100, 30, 0), 70);
    assert_eq!(clear_size(100, 30, 5), 5);
    assert_eq!(clear_size(100, 130, 0), 0);
}

#[test]
fn long_fills_are_cut_in_chunks() {
    let mut calls = Vec::new();
    emit_zero_fill(&mut calls, 1, 10, 2, ZERO_BUFFER_SIZE + 3);
    assert_eq!(calls.len(), 2);
    assert!(matches!(
        calls[1],
        Call::CopyBufferRegion { dst_offset, size: 3, .. } if dst_offset == 10 + ZERO_BUFFER_SIZE
    ));
}

#[test]
fn copies_stay_in_bounds() {
    let copy = |src: u64, src_offset: u64, dst: u64, size: u64| {
        record(
            false,
            vec![GpuCommand::CopyBuffer { src, src_offset, dst, dst_offset: 0, size }],
        )
    };
    assert_eq!(copy(2, 250, 2, 7), Err(RecordError::CopyBufferOutOfBounds));
    assert_eq!(copy(77, 0, 2, 7), Err(RecordError::CopyBufferInvalidSrc));
    assert_eq!(copy(2, 0, 77, 7), Err(RecordError::CopyBufferInvalidDst));
    assert!(copy(2, 0, 2, 7).unwrap().iter().any(|c| matches!(
        c,
        Call::CopyBufferRegion { dst: 200, src: 200, size: 7, .. }
    )));
}

#[test]
fn writes_take_belt_slices_in_turn() {
    let write = |buffer: u64| GpuCommand::WriteBuffer { buffer, offset: 16, data: vec![1, 2, 3] };
    let calls = record(false, vec![write(2)]).unwrap();
    assert!(calls.iter().any(|c| matches!(
        c,
        Call::CopyBufferRegion { dst: 200, dst_offset: 16, src: 600, src_offset: 64, size: 3 }
    )));
    assert_eq!(
        record(false, vec![write(2), write(2)]),
        Err(RecordError::WriteBufferBeltSliceMissing)
    );
    assert_eq!(record(false, vec![write(77)]), Err(RecordError::WriteBufferInvalidBuffer));
    let upload = || GpuCommand::WriteTexture { texture: 9, data: vec![0; 4], width: 1, height: 1 };
    assert_eq!(
        record(false, vec![upload(), upload()]),
        Err(RecordError::WriteTextureStagedUploadMissing)
    );
    assert!(is_upload(&upload()));
    assert!(!is_upload(&dispatch(None)));
}

#[test]
fn copied_textures_go_back_to_shaders() {
    let mut recorder = Recorder::new();
    let mut all = textures();
    recorder
        .record_gpu_command(
            &tables(),
            &inputs(false, false),
            &mut all,
            &GpuCommand::CopyTexture { src: 9, dst: 10 },
        )
        .unwrap();
    assert!(recorder.calls.iter().any(|c| matches!(c, Call::CopyResource { dst: 1000, src: 900 })));
    assert_eq!(all[&9].last_layout, LAYOUT_DIRECT_QUEUE_UNORDERED_ACCESS);
    assert_eq!(all[&10].last_layout, LAYOUT_DIRECT_QUEUE_SHADER_RESOURCE);
    assert_eq!(
        record(false, vec![GpuCommand::CopyTexture { src: 77, dst: 10 }]),
        Err(RecordError::CopyTextureSrcNotFound)
    );
    assert_eq!(
        record(false, vec![GpuCommand::CopyTexture { src: 9, dst: 77 }]),
        Err(RecordError::CopyTextureDstNotFound)
    );
    assert_eq!(
        record(false, vec![GpuCommand::CopyRenderTarget { src: 77, dst: 10 }]),
        Err(RecordError::CopyRenderTargetSrcNotFound)
    );
    assert_eq!(
        record(false, vec![GpuCommand::BindResourcesTyped { handles: Vec::new() }]),
        Err(RecordError::TypedBindingsNotLowered)
    );
}

fn usage() -> BarrierUsage {
    let mut src = SlotUsageSet::new();
    src.merge(NodeAccess::Write, UsageKindFlags::compute());
    let mut dst = SlotUsageSet::new();
    dst.merge(NodeAccess::Read, UsageKindFlags::transfer());
    BarrierUsage { src, dst }
}

#[test]
fn resource_barriers_are_grouped() {
    let command = || GpuCommand::ResourceBarrier {
        buffers: vec![(2, usage()), (77, usage())],
        textures: vec![(9, usage())],
    };
    let calls = record(false, vec![command()]).unwrap();
    assert_eq!(calls.len(), 3);
    assert!(matches!(
        calls[0],
        Call::QueueBarrier(Barrier::Buffer(b)) if b.access_after == ACCESS_COPY_SOURCE
    ));
    assert!(matches!(calls[1], Call::QueueBarrier(Barrier::Texture(_))));
    assert!(matches!(calls[2], Call::IssueBarriers));
    let global = record(true, vec![command()]).unwrap();
    assert!(matches!(
        global[0],
        Call::QueueBarrier(Barrier::Global(GlobalBarrier {
            sync_before: SYNC_ALL,
            access_before: ACCESS_COMMON,
            ..
        }))
    ));
}

#[test]
fn batches_unroll_without_a_signature() {
    let calls = record(false, vec![batch()]).unwrap();
    let dispatches: Vec<&Call> =
        calls.iter().filter(|c| matches!(c, Call::Dispatch { .. })).collect();
    assert_eq!(dispatches.len(), 2);
    assert!(matches!(dispatches[0], Call::Dispatch { x: 5, y: 6, z: 7 }));
    assert!(matches!(dispatches[1], Call::Dispatch { x: 6, y: 6, z: 7 }));
}

#[test]
fn bindless_slots_are_read_from_argument_bytes() {
    let slots = collect_bindless_slots_from_gpu_commands(&layout(), &vec![batch()]);
    assert!(slots.contains(&DeferredSlot::CbvSrvUav(10 + 256)));
    assert!(slots.contains(&DeferredSlot::CbvSrvUav(11 + 256)));
    assert!(slots.contains(&DeferredSlot::CbvSrvUav(20)));
}

#[test]
fn bindless_slots_of_graphs_are_collected() {
    let graph = vec![
        GraphCommand::Compute(GpuCommand::BindResourcesRaw {
            indices: vec![3],
            user: Vec::new(),
            frame_table_base: 0,
        }),
        GraphCommand::Render {
            target: 8,
            commands: vec![
                RenderBinding::BindResources { buffers: vec![2] },
                RenderBinding::BindResourcesTyped {
                    handles: vec![TypedHandle { category: ResourceCategory::Sampler, index: 6 }],
                },
                RenderBinding::Other,
            ],
            stages_frame_table: false,
        },
    ];
    let slots = collect_bindless_slots_from_graph_commands(&layout(), &tables().buffers, &graph);
    assert!(slots.contains(&DeferredSlot::CbvSrvUav(3)));
    assert!(slots.contains(&DeferredSlot::CbvSrvUav(40)));
    assert!(slots.contains(&DeferredSlot::CbvSrvUav(6)));
}

#[test]
fn dispatches_are_labelled_and_timed() {
    let commands = vec![dispatch(Some("a")), GpuCommand::Barrier, dispatch(None), batch()];
    let labels = dx12_collect_dispatch_labels(&commands);
    assert_eq!(labels[0], Some("a"));
    assert_eq!(labels[1], None);
    let plan = plan_gpu_profile(labels.len());
    assert_eq!(plan.query_count, 2 + 2 * labels.len() as u32);
    assert_eq!(plan.readback_width, 256);
    assert_eq!(plan_gpu_profile(40).readback_width, 768);
    let mut values = vec![0u64; 2 + 2 * labels.len()];
    values[2] = 100;
    values[3] = 140;
    let spans = dx12_readback_gpu_profile(&values, &labels);
    let a = spans.iter().find(|s| s.label == "a").unwrap();
    assert_eq!(span_ticks(a), 40);
    let graph: Vec<GraphCommand> = commands.into_iter().map(GraphCommand::Compute).collect();
    assert_eq!(dx12_collect_dispatch_labels_graph(&graph), labels);
    let mut all = textures();
    let list =
        submit_with_scope(&tables(), &inputs(false, true), &mut all, &vec![dispatch(None)], Some(4))
            .unwrap();
    assert!(list.recorder.calls.iter().any(|c| matches!(c, Call::EndQuery { index: 2 })));
    assert!(list.recorder.calls.iter().any(|c| matches!(c, Call::EndQuery { index: 3 })));
    assert!(list.recorder.calls.iter().any(|c| matches!(c, Call::ResolveQueries { count: 4 })));
}

#[test]
fn graphs_stage_their_table_once() {
    let commands = vec![
        GraphCommand::Compute(GpuCommand::FrameTableStaging { words: vec![1] }),
        GraphCommand::Render { target: 8, commands: Vec::new(), stages_frame_table: true },
        GraphCommand::Render { target: 8, commands: Vec::new(), stages_frame_table: true },
    ];
    let mut all = textures();
    let list =
        submit_graph_with_scope(&tables(), &inputs(false, false), &mut all, &commands, None).unwrap();
    assert_eq!(list.staging_command, Some(0));
    let passes: Vec<&Call> =
        list.recorder.calls.iter().filter(|c| matches!(c, Call::RenderPass { .. })).collect();
    assert_eq!(passes.len(), 2);
    assert!(matches!(passes[1], Call::RenderPass { prologue_done: true, .. }));
    let mut targets = tables().render_targets;
    mark_rendered(&mut targets, &list.rendered_targets);
    assert!(targets[&8].has_rendered);
}

#[test]
fn allocators_are_reused_once_retired() {
    let slot = |fence_value: u64, retained: bool, command_list: Option<u64>| AllocatorSlot {
        allocator: 1,
        command_list,
        fence_value,
        retained,
    };
    let pool = vec![slot(9, false, Some(5)), slot(3, true, Some(6)), slot(2, false, Some(7))];
    assert_eq!(choose_allocator_slot(&pool, 4), (2, SlotWork::Reset { command_list: 7 }));
    assert_eq!(choose_allocator_slot(&pool, 1), (3, SlotWork::CreateBoth));
    assert_eq!(choose_allocator_slot(&vec![slot(0, false, None)], 1), (0, SlotWork::CreateList));
    let mut grown = pool;
    adopt_allocator_slot(&mut grown, 3, 44, 45);
    assert_eq!(grown.len(), 4);
    assert_eq!((grown[3].allocator, grown[3].command_list), (44, Some(45)));
}

#[test]
fn uploads_are_staged_in_order() {
    let write = |buffer: u64| GpuCommand::WriteBuffer { buffer, offset: 0, data: vec![1] };
    let texture = || GpuCommand::WriteTexture { texture: 9, data: vec![0; 4], width: 1, height: 1 };
    let steps = upload_prepass(&tables(), &vec![dispatch(None), write(2), texture()]).unwrap();
    assert_eq!(
        steps,
        vec![
            StagingStep::BeltWrite { command: 1, device: 1 },
            StagingStep::TextureUpload { command: 2 },
        ]
    );
    assert_eq!(
        upload_prepass(&tables(), &vec![write(77)]),
        Err(PrepassError::WriteBufferInvalidHandle { command: 0 })
    );
    let mut lost = tables();
    lost.devices.clear();
    assert_eq!(
        upload_prepass_graph(&lost, &vec![GraphCommand::Compute(write(2))]),
        Err(PrepassError::WriteBufferDeviceMissing { command: 0 })
    );
}

#[test]
fn staged_uploads_reach_their_commands() {
    let commands = vec![
        GpuCommand::WriteTexture { texture: 9, data: vec![0; 4], width: 1, height: 1 },
        GpuCommand::WriteBuffer { buffer: 2, offset: 0, data: vec![1, 2] },
        GpuCommand::WriteBuffer { buffer: 3, offset: 8, data: vec![3] },
        GpuCommand::WriteBuffer { buffer: 2, offset: 4, data: vec![4, 5] },
    ];
    assert!(stream_has_upload(&commands));
    assert!(!stream_has_upload(&vec![dispatch(None)]));
    let steps = upload_prepass(&tables(), &commands).unwrap();
    let staged: Vec<Staged> = steps
        .iter()
        .map(|step| match step {
            StagingStep::BeltWrite { command, .. } => {
                Staged::Slice(BeltSlice { resource: 600, offset: 100 * *command as u64 })
            }
            StagingStep::TextureUpload { .. } => Staged::Upload(StagedTextureUpload {
                texture: 9,
                layout_after: LAYOUT_COPY_DEST,
                pooled_entry: Some(1),
            }),
        })
        .collect();
    let (belt_slices, staged_texture_uploads) = split_staged(&staged);
    assert_eq!(belt_slices.len(), 2);
    assert_eq!(staged_texture_uploads.len(), 1);
    let inputs = RecordInputs { belt_slices, staged_texture_uploads, ..inputs(false, false) };
    let mut all = textures();
    let list = submit_with_scope(&tables(), &inputs, &mut all, &commands, None).unwrap();
    assert_eq!(list.recorder.belt_idx, 2);
    assert_eq!(list.recorder.texture_upload_idx, 1);
    let calls = &list.recorder.calls;
    assert_eq!(calls[1], Call::Command { command: 0 });
    assert_eq!(calls[2], Call::StagedTextureUpload { upload: 0 });
    let third = calls.iter().position(|c| *c == Call::Command { command: 2 }).unwrap();
    assert_eq!(calls[third + 1], Call::WriteMapped { resource: 300, offset: 8, size: 1 });
    assert!(calls.iter().any(|c| matches!(
        c,
        Call::CopyBufferRegion { dst: 200, dst_offset: 4, src: 600, src_offset: 300, size: 2 }
    )));
    let graph: Vec<GraphCommand> = commands.into_iter().map(GraphCommand::Compute).collect();
    assert!(graph_has_upload(&graph));
    assert!(!graph_has_upload(&vec![GraphCommand::Render {
        target: 8,
        commands: Vec::new(),
        stages_frame_table: false,
    }]));
}

#[test]
fn limits_are_checked_before_recording() {
    let batch = |count: u32, bytes: usize| GpuCommand::DispatchBatch {
        label: None,
        arg_data: vec![0; bytes],
        count,
    };
    let stream = |commands: Vec<GpuCommand>, inputs: &RecordInputs| {
        let whole = can_record_stream(&tables(), inputs, &commands);
        let graph = commands.into_iter().map(GraphCommand::Compute).collect();
        assert_eq!(can_record_graph(&tables(), inputs, &graph), whole);
        whole
    };
    let own = inputs(false, false);
    assert!(stream(vec![batch(2, 60), batch(0, 0)], &own));
    assert!(!stream(vec![batch(2, 59)], &own));
    let elsewhere = RecordInputs { device_handle: 9, ..inputs(false, false) };
    assert!(stream(vec![batch(2, 59)], &elsewhere));
    let clear = |buffer: u64, offset: u64| GpuCommand::ClearBuffer { buffer, offset, size: 8 };
    assert!(stream(vec![clear(2, u64::MAX - 8), clear(77, u64::MAX)], &own));
    assert!(!stream(vec![clear(2, u64::MAX - 7)], &own));
    let odd = RecordInputs {
        push_layout: PushLayoutInfo { size: 18, ..layout() },
        ..inputs(false, false)
    };
    assert!(!stream(Vec::new(), &odd));
    assert!(layout().is_consistent());
    assert!(!PushLayoutInfo { bindless_count: usize::MAX, ..layout() }.is_consistent());
    assert!(!PushLayoutInfo { stride: 27, ..layout() }.is_consistent());
}
