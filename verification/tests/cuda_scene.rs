use std::collections::{HashMap, HashSet};

use goldy::cuda::ops::{CudaOp, CudaOpSegment};
use goldy::cuda::raster::{
    CudaGraphicsPipeline, CudaRenderTarget, IndexFormat, PrimitiveTopology, RasterError,
};
use goldy::cuda::raster_backing::{
    CudaPhysKind, RasterBuffer, Refresh, RefreshCall, SharedBacking,
};
use goldy::cuda::raster_pass::{raster_fingerprint, RasterScene, RenderCommand, TargetLoad};
use goldy::cuda::raster_record::{
    can_reuse, check_target, collect_requirements, finish_pass, graph_has_bindings,
    needed_buffers, needs_twin_sync, prepare_cuda_render_commands, record_pass,
    staged_indices, Lowering, RasterCall, Requirement,
};
use goldy::cuda::retained_graph::GraphRegistry;
use goldy::cuda::surface::{CudaSurfaceState, PresentMode, SharedScratch, SurfaceError};
use goldy::cuda::surface_evict::{Doomed, RetainedEntry, RetainedTables, ScratchImage};
use goldy::cuda::surface_table::{
    sync_after_flush, wait_device_idle_for_surface, wait_surface_resources_idle, IdleState, IdleStep, SurfaceTables,
};
use goldy::cuda::texture::{
    memcpy_array_to_array, memcpy_array_to_device, memcpy_dtod_array, memcpy_dtoh_array,
    memcpy_htod_array, CopyEnd, CudaSamplerKey, CudaTexture, Region, TextureError, TextureFormat,
    TextureKind,
};
use goldy::dx12::commands::{GpuCommand, GraphCommand, ResourceCategory, TypedHandle};

fn texture(id: u64, width: u32, height: u32) -> CudaTexture {
    CudaTexture::create(
        id,
        width,
        height,
        TextureFormat::Rgba8Unorm,
        TextureKind::DirectInterpolated,
        false,
        Some(id as u32),
        Some(id as u32 + 100),
    )
    .unwrap()
    .0
}

fn backing() -> SharedBacking {
    SharedBacking {
        size: 64,
        gpu_va: 0x9000,
        device_ptr: 0x7000,
        last_cuda_fence: 5,
        last_dx12_ia_fence: 0,
        pending_host_sync: false,
    }
}

fn buffer(phys_kind: CudaPhysKind, shared: Option<SharedBacking>) -> RasterBuffer {
    RasterBuffer {
        phys_kind,
        offset: 16,
        size: 48,
        capacity: 64,
        content_epoch: 2,
        shared_epoch: 1,
        shared,
        memory_base: 0x1000,
        memory_len: 64,
        slot: Some(31),
    }
}

fn target() -> CudaRenderTarget {
    CudaRenderTarget {
        device: 1,
        width: 32,
        height: 16,
        format: TextureFormat::Rgba32Float,
        cuda_texture: texture(70, 32, 16),
        resource: 700,
        rtv_offset: 2,
        last_dx12_fence: 0,
    }
}

fn scene() -> RasterScene {
    let mut pipelines = HashMap::new();
    pipelines.insert(
        1,
        CudaGraphicsPipeline {
            device: 1,
            pipeline_state: 50,
            root_signature: 51,
            vertex_stride: 20,
            topology: PrimitiveTopology::TriangleList,
            slot_kinds: 0,
        },
    );
    let mut buffers = HashMap::new();
    buffers.insert(3, buffer(CudaPhysKind::Shared, Some(backing())));
    buffers.insert(4, buffer(CudaPhysKind::NativeAndTwin, Some(backing())));
    buffers.insert(5, RasterBuffer { slot: None, ..buffer(CudaPhysKind::Native, None) });
    let mut buffer_slots = HashMap::new();
    buffer_slots.insert(31, 4);
    let mut render_targets = HashMap::new();
    render_targets.insert(7, target());
    RasterScene { pipelines, buffers, buffer_slots, render_targets, list_cache: HashMap::new() }
}

fn pass() -> Vec<RenderCommand> {
    vec![
        RenderCommand::SetPipeline { pipeline: 1 },
        RenderCommand::SetVertexBuffer { slot: 0, buffer: 3, offset: 8 },
        RenderCommand::SetIndexBuffer { buffer: 4, offset: 0, format: IndexFormat::Uint16 },
        RenderCommand::Draw { vertex_count: 3, instance_count: 1, first_vertex: 0, first_instance: 0 },
    ]
}

#[test]
fn twins_are_copied_when_they_lag() {
    let mut b = buffer(CudaPhysKind::NativeAndTwin, Some(backing()));
    let refresh = b.plan_refresh().unwrap();
    assert_eq!(
        refresh,
        Refresh::Copy { dst_ptr: 0x7000, src_ptr: 0x1010, size: 48 }
    );
    assert_eq!(
        refresh.calls(),
        vec![
            RefreshCall::CopyDeviceToDevice { dst_ptr: 0x7000, src_ptr: 0x1010, size: 48 },
            RefreshCall::SignalFence,
        ]
    );
    assert_eq!(b.finish_refresh(&refresh, 9), 9);
    assert_eq!(b.shared_epoch, 2);
    let again = b.plan_refresh().unwrap();
    assert_eq!(again, Refresh::Current { fence: 9, counts_as_bind: false });
    assert!(again.calls().is_empty());
}

#[test]
fn backings_are_made_when_missing_or_small() {
    let mut b = buffer(CudaPhysKind::NativeAndTwin, None);
    assert_eq!(b.missing_backing(), Some(64));
    b.install_backing(backing());
    assert_eq!(b.missing_backing(), None);
    b.capacity = 65;
    assert_eq!(b.missing_backing(), Some(65));
    let native = buffer(CudaPhysKind::Native, None);
    assert_eq!(native.missing_backing(), None);
    assert_eq!(native.plan_refresh(), Err(RasterError::UnexpectedPhysKind));
    let shared = buffer(CudaPhysKind::Shared, None);
    assert_eq!(shared.plan_refresh(), Err(RasterError::SharedBackingMissing));
    let mut outside = buffer(CudaPhysKind::NativeAndTwin, Some(backing()));
    outside.memory_len = 63;
    assert_eq!(outside.plan_refresh(), Err(RasterError::SourceOutOfRange));
}

#[test]
fn host_sync_is_taken_once() {
    let mut b = buffer(
        CudaPhysKind::Shared,
        Some(SharedBacking { pending_host_sync: true, ..backing() }),
    );
    assert!(b.take_host_sync());
    assert!(!b.take_host_sync());
}

#[test]
fn passes_are_recorded_between_two_transitions() {
    let load = TargetLoad::Clear { r: 1, g: 2, b: 3, a: 4 };
    let calls = record_pass(&scene(), &target(), load, false, &pass()).unwrap();
    assert_eq!(calls[0], RasterCall::SetDescriptorHeaps);
    assert_eq!(calls[1], RasterCall::Transition { resource: 700, before: 0, after: 4 });
    assert_eq!(
        calls.last(),
        Some(&RasterCall::Transition { resource: 700, before: 4, after: 0 })
    );
    assert!(calls.contains(&RasterCall::ClearTarget { r: 1, g: 2, b: 3, a: 4 }));
    assert!(calls.contains(&RasterCall::SetViewport { width: 32, height: 16 }));
    assert!(calls.iter().any(|c| matches!(
        c,
        RasterCall::SetVertexBuffer { slot: 0, stride: 20, .. }
    )));
    assert!(calls.iter().any(|c| matches!(c, RasterCall::SetIndexBuffer { dxgi_format: 57, .. })));
}

#[test]
fn passes_name_what_exists() {
    let scene = scene();
    let fail = |command: RenderCommand| {
        record_pass(&scene, &target(), TargetLoad::Load, false, &vec![command]).unwrap_err()
    };
    assert_eq!(fail(RenderCommand::SetPipeline { pipeline: 9 }), RasterError::InvalidPipeline);
    assert_eq!(
        fail(RenderCommand::SetVertexBuffer { slot: 0, buffer: 9, offset: 0 }),
        RasterError::InvalidVertexBuffer
    );
    assert_eq!(
        fail(RenderCommand::SetVertexBuffer { slot: 0, buffer: 5, offset: 0 }),
        RasterError::VertexBackingMissing
    );
    assert_eq!(
        fail(RenderCommand::SetIndexBuffer { buffer: 9, offset: 0, format: IndexFormat::Uint32 }),
        RasterError::InvalidIndexBuffer
    );
    assert_eq!(fail(RenderCommand::ClearDepth { depth: 0 }), RasterError::ClearDepthUnsupported);
    assert_eq!(
        fail(RenderCommand::BindResources { buffers: Vec::new() }),
        RasterError::BindNotLowered
    );
}

#[test]
fn binds_are_lowered_to_slots() {
    let scene = scene();
    let lowered = prepare_cuda_render_commands(
        &scene,
        &vec![RenderCommand::BindResources { buffers: vec![4] }, RenderCommand::SetPipeline { pipeline: 1 }],
    )
    .unwrap();
    assert!(matches!(&lowered[0], Lowering::Bind { indices } if *indices == vec![31]));
    assert!(matches!(lowered[1], Lowering::Forward));
    let failed =
        prepare_cuda_render_commands(&scene, &vec![RenderCommand::BindResources { buffers: vec![5] }]);
    assert!(matches!(failed, Err(RasterError::BufferWithoutSlot { buffer: 5 })));
    assert!(!graph_has_bindings(&pass(), &vec![0, 0]));
    assert!(graph_has_bindings(&pass(), &vec![0, 1]));
}

#[test]
fn requirements_list_each_buffer_once() {
    let scene = scene();
    let mut commands = pass();
    commands.push(RenderCommand::BindResourcesTyped {
        handles: vec![
            TypedHandle { category: ResourceCategory::Scattered, index: 31 },
            TypedHandle { category: ResourceCategory::Texture, index: 31 },
        ],
    });
    commands.extend(pass());
    let requirements = collect_requirements(&scene, &commands, &vec![31]);
    assert!(requirements.contains(&Requirement { buffer: 4, vertex: false }));
    let vertex = needed_buffers(&requirements, true);
    assert_eq!(vertex, vec![3, 4]);
    assert!(needs_twin_sync(&scene, &vec![4]));
    assert!(!needs_twin_sync(&scene, &vec![3]));
}

#[test]
fn targets_belong_to_a_device() {
    let scene = scene();
    assert!(check_target(&scene, 1, 7).is_ok());
    assert_eq!(check_target(&scene, 2, 7), Err(RasterError::TargetOnOtherDevice));
    assert_eq!(check_target(&scene, 1, 8), Err(RasterError::InvalidRenderTarget));
}

#[test]
fn equal_passes_are_replayed() {
    let mut scene = scene();
    let staging = vec![1, 2, 3];
    let first = raster_fingerprint(&scene, 7, TargetLoad::Load, &pass(), &staging, 8).unwrap();
    assert!(!can_reuse(&scene, 7, first));
    finish_pass(&mut scene, 7, &vec![3], 12, Some(first));
    assert_eq!(scene.render_targets[&7].last_dx12_fence, 12);
    assert_eq!(scene.buffers[&3].shared.unwrap().last_dx12_ia_fence, 12);
    let again = raster_fingerprint(&scene, 7, TargetLoad::Load, &pass(), &staging, 8).unwrap();
    assert_eq!(again, first);
    assert!(can_reuse(&scene, 7, again));
    let cleared = TargetLoad::Clear { r: 0, g: 0, b: 0, a: 0 };
    assert_ne!(raster_fingerprint(&scene, 7, cleared, &pass(), &staging, 8).unwrap(), first);
    let unknown = raster_fingerprint(&scene, 9, TargetLoad::Load, &pass(), &staging, 8);
    assert_eq!(unknown, Err(RasterError::InvalidRenderTarget));
}

#[test]
fn direct_indices_come_before_staged_rows() {
    assert_eq!(staged_indices(&vec![8, 9], 1, 2, &vec![7, 6, 5]), vec![8, 9]);
    assert_eq!(staged_indices(&Vec::new(), 1, 2, &vec![7, 6, 5]), vec![6, 5]);
    assert!(staged_indices(&Vec::new(), 2, 2, &vec![7, 6, 5]).is_empty());
}

#[test]
fn uploads_are_checked_row_by_row() {
    let t = texture(1, 8, 4);
    let region = Region { x: 2, y: 1, width: 4, height: 2 };
    let copy = memcpy_htod_array(&t, &region, 32, 0).unwrap();
    assert_eq!(copy.src, CopyEnd::Host { pitch: 16 });
    assert_eq!(copy.dst, CopyEnd::Array { texture: 1, x_bytes: 8, y: 1 });
    assert_eq!((copy.width_bytes, copy.height), (16, 2));
    // The last row needs no padding.
    assert!(memcpy_htod_array(&t, &region, 36, 20).is_ok());
    assert_eq!(
        memcpy_htod_array(&t, &region, 35, 20),
        Err(TextureError::UploadTooSmall { len: 35, needed: 36 })
    );
    assert_eq!(
        memcpy_htod_array(&t, &region, 99, 12),
        Err(TextureError::PitchTooSmall { pitch: 12, tight: 16 })
    );
    assert_eq!(
        memcpy_htod_array(&t, &Region { width: 7, ..region }, 99, 0),
        Err(TextureError::RegionOutOfBounds)
    );
    assert_eq!(
        memcpy_htod_array(&t, &Region { height: 0, ..region }, 99, 0),
        Err(TextureError::EmptyRegion)
    );
}

#[test]
fn downloads_want_tight_bytes() {
    let t = texture(1, 8, 4);
    let region = Region { x: 0, y: 0, width: 8, height: 4 };
    assert!(memcpy_dtoh_array(&t, &region, 128).is_ok());
    assert_eq!(
        memcpy_dtoh_array(&t, &region, 127),
        Err(TextureError::DownloadLength { len: 127, expected: 128 })
    );
    let to = memcpy_array_to_device(&t, &region, 500, 256).unwrap();
    assert_eq!(to.dst, CopyEnd::Device { ptr: 500, pitch: 256 });
    let from = memcpy_dtod_array(500, 256, &t, &region).unwrap();
    assert_eq!(from.src, CopyEnd::Device { ptr: 500, pitch: 256 });
}

#[test]
fn whole_textures_match() {
    let a = texture(1, 8, 4);
    assert!(memcpy_array_to_array(&a, &texture(2, 8, 4)).is_ok());
    assert_eq!(memcpy_array_to_array(&a, &texture(2, 8, 5)), Err(TextureError::SizeMismatch));
    let other = CudaTexture { format: TextureFormat::Rgba32Float, ..texture(2, 8, 4) };
    assert_eq!(memcpy_array_to_array(&a, &other), Err(TextureError::FormatMismatch));
    assert_eq!(a.byte_size(), 128);
}

#[test]
fn textures_that_cannot_be_made() {
    let make = |width: u32, format: TextureFormat, target: bool| {
        CudaTexture::create(1, width, 4, format, TextureKind::Interpolated, target, None, None)
    };
    assert_eq!(make(0, TextureFormat::R8Unorm, false), Err(TextureError::ZeroDimensions));
    assert_eq!(make(4, TextureFormat::R8Unorm, true), Err(TextureError::RenderTarget));
    assert_eq!(
        make(4, TextureFormat::Bgra8Unorm, false),
        Err(TextureError::UnsupportedFormat { format: TextureFormat::Bgra8Unorm })
    );
    let sampled = make(4, TextureFormat::R8Unorm, false).unwrap().0;
    assert_eq!(
        sampled.check_surface(),
        Err(TextureError::NoSurfaceView { kind: TextureKind::Interpolated })
    );
    assert_eq!(
        CudaTexture::from_imported_array(
            1,
            true,
            4,
            4,
            TextureFormat::R8Unorm,
            TextureKind::Direct,
            None,
            None
        ),
        Err(TextureError::NullArray)
    );
    let key = CudaSamplerKey::nearest_clamp();
    assert_eq!(key.address_u, key.address_v);
}

fn surface_with(handle: u64) -> CudaSurfaceState {
    let mut state = CudaSurfaceState::new(1, 64, 64, false, Some(3), vec![1, 2]);
    let shared = SharedScratch { id: 1, width: 64, height: 64, resource: 2, blit_target: 3 };
    state.install_scratch(1, shared, handle);
    state
}

fn surfaces() -> SurfaceTables {
    SurfaceTables {
        surfaces: HashMap::new(),
        textures: HashMap::new(),
        texture_slots: HashMap::new(),
        next_surface: 1,
        next_texture: 1,
    }
}

#[test]
fn surfaces_are_destroyed_with_their_scratch() {
    let mut tables = surfaces();
    let handle = tables.register_scratch_texture(8, CudaTexture { storage_slot: Some(8), ..texture(5, 4, 4) });
    let surface = tables.insert_surface(surface_with(handle));
    assert_eq!(tables.surface_size(surface), (64, 64));
    assert_eq!(tables.surface_format(surface), TextureFormat::Rgba32Float);
    assert_eq!(tables.scratch_slot_for_texture(handle), Some((surface, 1)));
    assert_eq!(tables.scratch_slot_for_texture(99), None);
    assert_eq!(tables.destroyed_slots(&vec![handle]), vec![8, 105]);
    assert_eq!(tables.surface_set_present_mode(surface, PresentMode::Mailbox), Ok(()));
    assert_eq!(
        tables.surface_set_present_mode(9, PresentMode::Mailbox),
        Err(SurfaceError::InvalidSurface)
    );
    let destroyed = tables.destroy_surface(surface).unwrap();
    assert_eq!(destroyed.dsv_offset, Some(3));
    assert_eq!(destroyed.slots.len(), 1);
    assert!(tables.destroy_surface(surface).is_none());
    assert!(tables.unregister_scratch_texture(handle).is_some());
    assert!(tables.textures.is_empty());
    assert!(tables.texture_slots.is_empty());
    assert_eq!(tables.surface_size(surface), (0, 0));
}

#[test]
fn idle_waits_take_the_companion_first() {
    let state = IdleState {
        companion: true,
        companion_high: 9,
        completed: 4,
        contexts: vec![21],
    };
    assert_eq!(
        wait_surface_resources_idle(&state, 6),
        vec![
            IdleStep::FlushWorker,
            IdleStep::CountFlush,
            IdleStep::WaitFence { value: 9 },
            IdleStep::ClearStickyError,
        ]
    );
    let steps = wait_device_idle_for_surface(&state, 10);
    assert_eq!(steps[0], IdleStep::SignalQueue { value: 10 });
    assert_eq!(steps.last(), Some(&IdleStep::SynchronizeAllocStream));
    let quiet = IdleState { companion: false, ..state };
    assert_eq!(
        wait_surface_resources_idle(&quiet, 6),
        vec![IdleStep::FlushWorker, IdleStep::CountFlush, IdleStep::ClearStickyError]
    );
    assert_eq!(
        sync_after_flush(true, true, &vec![21, 22]),
        vec![
            IdleStep::BindContext,
            IdleStep::SynchronizeContext { context: 21 },
            IdleStep::SynchronizeContext { context: 22 },
            IdleStep::SynchronizePresentStream,
        ]
    );
    assert_eq!(sync_after_flush(false, true, &vec![]), vec![IdleStep::BindContext]);
    assert!(sync_after_flush(true, false, &vec![21]).is_empty());
}

fn key(ctx: u64, key: u64) -> u128 {
    (ctx as u128) << 64 | key as u128
}

#[test]
fn work_on_doomed_scratch_is_evicted() {
    let mut retained = HashMap::new();
    let doomed_texture = texture(5, 4, 4);
    let op = CudaOp::CopyTexture { from: texture(6, 4, 4), to: doomed_texture };
    retained.insert(key(1, 1), RetainedEntry::Ops { launches: Vec::new(), ops: vec![op] });
    retained.insert(
        key(1, 2),
        RetainedEntry::Segmented {
            launches: Vec::new(),
            segments: vec![CudaOpSegment::Stream(Vec::new())],
            scratch_images: vec![ScratchImage { surface: 2, image: 1 }],
        },
    );
    retained.insert(
        key(1, 3),
        RetainedEntry::Render {
            commands: vec![GraphCommand::Compute(GpuCommand::CopyTexture { src: 77, dst: 2 })],
        },
    );
    retained.insert(key(1, 4), RetainedEntry::PresentRenderTarget);
    retained.insert(
        key(1, 5),
        RetainedEntry::Render {
            commands: vec![GraphCommand::Compute(GpuCommand::CopyTexture { src: 1, dst: 2 })],
        },
    );
    let mut all = HashMap::new();
    all.insert(2, surface_with(77));
    let mut contexts = HashMap::new();
    contexts.insert(1, 11);
    let mut registries = HashMap::new();
    registries.insert(1, GraphRegistry::new());
    let mut tables = RetainedTables { retained, surfaces: all, contexts, registries };
    let doomed = Doomed {
        handles: HashSet::from([77]),
        slots: HashSet::new(),
        textures: HashSet::from([5]),
    };
    let mut evicted = tables.evict_retained_touching_scratch(&doomed);
    evicted.sort();
    assert_eq!(evicted, vec![key(1, 1), key(1, 2), key(1, 3)]);
    let mut left: Vec<u128> = tables.retained.keys().copied().collect();
    left.sort();
    assert_eq!(left, vec![key(1, 4), key(1, 5)]);
}
