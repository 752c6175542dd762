use std::collections::HashMap;

use goldy::dx12::accel::{
    check_accel_device, dummy_triangle_geom, plan_accel, AccelBuildCommand, AccelError, AccelInstance, AccelTable, BlasBuildCommand,
    GpuAccelCreate, IndexFormat, PrebuildInfo,
};
use goldy::dx12::api_log::{
    log_context_create, log_context_destroy, log_device_create, log_device_destroy,
    log_device_removed, log_execute_command_lists, log_fence_wait_cpu, log_queue_signal,
    log_queue_wait, ApiLogConfig, Stamp,
};
use goldy::dx12::backend::{
    begin_frame, device_horizon, shared_backend, slot_access_from_push_constant_slot_kinds, BackendError,
    BindlessSlotKind, DeviceFence, DeviceWait, Dx12Backend, FenceWait, FrameToken,
    ResourceAccess, ShaderReflection, ShaderState, SurfaceState, SwapchainReturn, TimedWait,
};
use goldy::dx12::buffer::{plan_create, BufferTable, DataAccess};
use goldy::dx12::commands::ResourceCategory;
use goldy::dx12::context::{ContextFence, PendingDeletion};
use goldy::dx12::device::{
    adapter_name, check_features, drain_info_queue, fence_outcome, find_adapter,
    is_fence_complete, severity_name, DebugMessage, DeviceError, DeviceFeatures, DxgiAdapter,
    FenceOutcome, LogicalDevice, OwnedObject,
};
use goldy::dx12::pso_cache::{cache_file_name, compute_shader_name, CreateRetry, PsoCache};
use goldy::dx12::settings::{
    env_allow_warp, env_disable_reserved_buffers, env_enable_dred, env_enable_gbv, env_force_warp,
    exception_filter, first_touch_device_removed, is_debug_mode, module_path_fits, Environment,
    DEBUG_LAYER_EXCEPTION,
};
use goldy::dx12::types::BufferFlags;
use goldy::text::{eq_ignore_ascii_case, push_decimal, push_signed, push_truth, same_text};

fn set(value: &str) -> Option<String> {
    Some(String::from(value))
}

fn no_settings() -> Environment {
    Environment {
        force_warp: None,
        disable_reserved_buffers: None,
        no_debug: None,
        debug: None,
        gbv: None,
        no_dred: None,
        dred: None,
    }
}

fn stamp() -> Stamp {
    Stamp { t_us: String::from("12.5"), tid: String::from("ThreadId(1)") }
}

#[test]
fn numbers_are_written_out() {
    let mut text = String::new();
    push_decimal(&mut text, 0);
    push_decimal(&mut text, u64::MAX);
    push_signed(&mut text, -7);
    push_truth(&mut text, true);
    push_truth(&mut text, false);
    assert_eq!(text, "018446744073709551615-7truefalse");
    assert!(eq_ignore_ascii_case("TrUe", "true"));
    assert!(!eq_ignore_ascii_case("tru", "true"));
    assert!(same_text("a", "a") && !same_text("a", "A"));
}

#[test]
fn settings_are_read_as_written() {
    let on = Environment { force_warp: set("TRUE"), gbv: set("1"), ..no_settings() };
    assert!(env_force_warp(&on) && env_allow_warp(&on) && env_enable_gbv(&on));
    assert!(!env_force_warp(&no_settings()));
    let yes = Environment { disable_reserved_buffers: set("Yes"), ..no_settings() };
    assert!(env_disable_reserved_buffers(&yes));
    let no = Environment { disable_reserved_buffers: set("no"), ..no_settings() };
    assert!(!env_disable_reserved_buffers(&no));
    assert!(is_debug_mode(&no_settings(), true));
    assert!(!is_debug_mode(&no_settings(), false));
    let quiet = Environment { no_debug: set("1"), debug: set("1"), ..no_settings() };
    assert!(!is_debug_mode(&quiet, true));
    let shout = Environment { debug: set("TRUE"), ..no_settings() };
    assert!(!is_debug_mode(&shout, false));
    assert!(env_enable_dred(&no_settings(), true));
    let off = Environment { no_dred: set("true"), dred: set("1"), ..no_settings() };
    assert!(!env_enable_dred(&off, true));
    let asked = Environment { dred: set("1"), ..no_settings() };
    assert!(env_enable_dred(&asked, false));
}

#[test]
fn removed_devices_are_reported_once() {
    let mut removed = false;
    assert!(!first_touch_device_removed(&mut removed, 5));
    assert!(first_touch_device_removed(&mut removed, u64::MAX));
    assert!(!first_touch_device_removed(&mut removed, u64::MAX));
    assert!(removed);
    assert_eq!(exception_filter(DEBUG_LAYER_EXCEPTION), -1);
    assert_eq!(exception_filter(0), 0);
    assert!(module_path_fits(3, 4));
    assert!(!module_path_fits(4, 4));
    assert!(!module_path_fits(0, 4));
}

#[test]
fn trace_lines_are_json() {
    let start = "{\"t_us\":12.5,\"tid\":\"ThreadId(1)\",\"op\":\"";
    let line = |rest: &str| format!("{start}{rest}");
    assert_eq!(
        log_device_create(&stamp(), 2, 7),
        line("device_create\",\"adapter_id\":2,\"device\":7}")
    );
    assert_eq!(log_device_destroy(&stamp(), 7), line("device_destroy\",\"device\":7}"));
    assert_eq!(
        log_context_create(&stamp(), 7, 8, true),
        line("context_create\",\"device\":7,\"ctx\":8,\"is_warp\":true}")
    );
    assert_eq!(
        log_context_destroy(&stamp(), 7, 8),
        line("context_destroy\",\"device\":7,\"ctx\":8}")
    );
    assert_eq!(
        log_queue_wait(&stamp(), 1, 2, 3),
        line("queue_wait\",\"queue\":1,\"producer_fence\":2,\"value\":3}")
    );
    assert_eq!(
        log_execute_command_lists(&stamp(), 1, 2),
        line("execute_command_lists\",\"queue\":1,\"num_lists\":2}")
    );
    assert_eq!(
        log_queue_signal(&stamp(), 1, 2, 3),
        line("queue_signal\",\"queue\":1,\"ctx_fence\":2,\"value\":3}")
    );
    assert_eq!(
        log_fence_wait_cpu(&stamp(), "here", 3),
        line("fence_wait_cpu\",\"location\":\"here\",\"target_value\":3}")
    );
    assert_eq!(
        log_device_removed(&stamp(), 7, -2005270523),
        line("device_removed\",\"device\":7,\"hresult\":-2005270523}")
    );
}

#[test]
fn traces_need_a_path() {
    assert!(ApiLogConfig::from_env(None, None).is_none());
    assert!(ApiLogConfig::from_env(set(""), set("1")).is_none());
    let config = ApiLogConfig::from_env(set("/tmp/x"), set("1")).unwrap();
    assert_eq!((config.path.as_str(), config.sync), ("/tmp/x", true));
    assert!(!ApiLogConfig::from_env(set("/tmp/x"), set("true")).unwrap().sync);
}

#[test]
fn stale_pipelines_are_tried_once() {
    let mut cache = PsoCache { compute_blobs: HashMap::new(), dirty: false };
    cache.created(4, vec![1, 2]);
    assert!(cache.has(4) && cache.dirty);
    cache.dirty = false;
    cache.created(4, vec![1, 2]);
    assert!(!cache.dirty);
    assert_eq!(cache.create_failed(4, true), CreateRetry::WithoutCache);
    assert!(!cache.has(4) && cache.dirty);
    assert_eq!(cache.create_failed(4, false), CreateRetry::GiveUp);
    assert_eq!(cache_file_name(3), "dx12_pso_3.bin");
    assert_eq!(compute_shader_name(12), "compute_shader#12");
}

fn adapter(adapter_id: u32) -> DxgiAdapter {
    DxgiAdapter {
        adapter_id,
        description: vec![71, 0, 72, 0, 0],
        vendor_id: 0,
        flags: 0,
        ray_query: adapter_id == 0,
        ray_tracing_pipelines: false,
    }
}

#[test]
fn adapters_are_found_by_identifier() {
    let adapters = vec![adapter(0), adapter(5)];
    assert_eq!(adapter_name(&adapters[0]), vec![71, 0, 72]);
    assert_eq!(find_adapter(&adapters, 5), Ok(1));
    assert_eq!(find_adapter(&adapters, 6), Err(DeviceError::InvalidAdapterId { adapter_id: 6 }));
    let features = DeviceFeatures { enhanced_barriers: true, tiled_resources_tier: 1 };
    assert_eq!(check_features(&features), Ok(true));
    assert_eq!(check_features(&DeviceFeatures { tiled_resources_tier: 0, ..features }), Ok(false));
    assert_eq!(
        check_features(&DeviceFeatures { enhanced_barriers: false, ..features }),
        Err(DeviceError::EnhancedBarriersRequired)
    );
}

#[test]
fn debug_messages_become_lines() {
    assert!(drain_info_queue(&Vec::new()).is_none());
    let messages = vec![
        DebugMessage { severity: 1, id: 1332, text: String::from("bad") },
        DebugMessage { severity: 9, id: -1, text: String::from("odd") },
    ];
    assert_eq!(
        drain_info_queue(&messages).unwrap(),
        "  [D3D12 ERROR] id=1332 bad\n  [D3D12 ?] id=-1 odd\n"
    );
    assert_eq!(severity_name(0), "CORRUPTION");
    assert_eq!(fence_outcome(4), FenceOutcome::Reached { completed: 4 });
    assert_eq!(fence_outcome(u64::MAX), FenceOutcome::DeviceRemoved);
    assert!(is_fence_complete(Some(4), 4));
    assert!(!is_fence_complete(Some(3), 4));
    assert!(!is_fence_complete(None, 0));
}

fn backend() -> (Dx12Backend, u64, u64) {
    let mut backend = Dx12Backend::new(vec![adapter(0)], true);
    let device = backend.finish_create_device(0, true);
    let context = backend.contexts.next_id(&backend.devices, device).unwrap();
    backend.contexts.create(context, device, 77);
    (backend, device, context)
}

#[test]
fn devices_take_their_objects_along() {
    let (mut backend, device, context) = backend();
    let other = backend.finish_create_device(0, false);
    assert!(backend.is_device_valid(device));
    assert_eq!(backend.device_adapter(device), 0);
    backend.samplers.insert(1, OwnedObject { device_handle: device, object: 9 });
    backend.samplers.insert(2, OwnedObject { device_handle: other, object: 9 });
    assert_eq!(backend.contexts_to_destroy(device), vec![context]);
    let mut devices = backend.devices_to_destroy();
    devices.sort();
    assert_eq!(devices, vec![device, other]);
    assert!(backend.destroy_device_inner(device).is_some());
    assert!(!backend.is_device_valid(device));
    assert!(backend.is_device_valid(other));
    assert!(!backend.samplers.contains_key(&1));
    assert!(backend.samplers.contains_key(&2));
    assert!(backend.destroy_device_inner(device).is_none());
    assert!(shared_backend(Vec::new(), false).devices.is_empty());
}

#[test]
fn back_ends_do_not_see_each_other() {
    let adapters = || vec![adapter(0), adapter(5)];
    let mut first = shared_backend(adapters(), true);
    let mut second = shared_backend(adapters(), true);
    let names = |b: &Dx12Backend| b.adapters.iter().map(adapter_name).collect::<Vec<_>>();
    assert_eq!(names(&first), names(&second));
    assert_eq!(first.adapters[1].adapter_id, second.adapters[1].adapter_id);
    let device = first.finish_create_device(0, true);
    let context = first.contexts.next_id(&first.devices, device).unwrap();
    first.contexts.create(context, device, 77);
    first.samplers.insert(1, OwnedObject { device_handle: device, object: 9 });
    assert!(first.is_device_valid(device) && !second.is_device_valid(device));
    assert!(second.devices.is_empty() && second.samplers.is_empty());
    assert!(second.contexts.contexts.is_empty() && second.contexts.fences.is_empty());
    let own = second.finish_create_device(5, false);
    assert_eq!(own, device);
    assert_eq!((first.device_adapter(device), second.device_adapter(own)), (0, 5));
    assert!(first.destroy_device_inner(device).is_some());
    assert!(second.is_device_valid(own));
}

#[test]
fn waits_are_planned_from_progress() {
    let (mut backend, device, context) = backend();
    if let Some(fence) = backend.contexts.fences.get_mut(&context) {
        fence.completed = 4;
        fence.last_submitted_seq = 6;
    }
    if let Some(live) = backend.contexts.contexts.get_mut(&context) {
        live.last_submitted_seq = 6;
    }
    assert_eq!(backend.gpu_progress(context), 4);
    assert_eq!(backend.gpu_progress(99), 0);
    assert_eq!(backend.peek_oldest_in_flight(context), Some(5));
    assert_eq!(backend.take_timeline_blocking_wait(context, 4), Ok(None));
    assert_eq!(
        backend.take_timeline_blocking_wait(context, 5),
        Ok(Some(FenceWait { context, value: 5 }))
    );
    assert_eq!(
        backend.take_timeline_blocking_wait(99, 5),
        Err(BackendError::InvalidContext { context: 99 })
    );
    assert!(backend.take_timeline_submission_epoch_wait(context, 5, 6).is_some());
    assert!(backend.take_timeline_submission_epoch_wait(context, 7, 6).is_none());
    assert_eq!(backend.plan_device_wait(device, 3, 3, 9), None);
    assert_eq!(
        backend.plan_device_wait(device, 5, 3, 9),
        Some(DeviceWait { flush: true, wait_submitted: Some(5) })
    );
    assert_eq!(backend.device_wait_fence(device, 6, 3), DeviceFence::OfContext { context });
    assert_eq!(backend.device_wait_fence(device, 7, 3), DeviceFence::OfDevice);
    assert_eq!(backend.device_wait_fence(device, 7, 7), DeviceFence::Nothing);
    let live = backend.contexts.contexts.get_mut(&context).unwrap();
    for value in [4, 6, 8, 9] {
        live.deletion_queue.queue(value, PendingDeletion::StandaloneResource(value));
        live.pending_gpu_profiles.push(value);
    }
    let released = backend.flush_context(context);
    assert!(matches!(released[..], [PendingDeletion::StandaloneResource(4)]));
    let done = backend.finish_timeline_wait(context, 6, 7, 9).unwrap().unwrap();
    assert!(matches!(done.released[..], [PendingDeletion::StandaloneResource(6)]));
    assert_eq!((done.profiles, done.device_up_to), (vec![4, 6], 6));
    assert_eq!(
        backend.finish_timeline_wait(context, 6, u64::MAX, 9).err(),
        Some(BackendError::DeviceRemoved)
    );
    assert!(backend.device_removed);
    assert!(matches!(
        backend.wait_until_timeout(context, 6, false, true, 6, 9),
        Ok(TimedWait::TimedOut)
    ));
    assert!(matches!(
        backend.wait_until_timeout(context, 6, true, false, 5, 9),
        Ok(TimedWait::TimedOut)
    ));
    match backend.wait_until_timeout(context, 8, true, true, 8, 4) {
        Ok(TimedWait::Reached { release: Some(done) }) => {
            assert!(matches!(done.released[..], [PendingDeletion::StandaloneResource(8)]));
            assert_eq!((done.profiles, done.device_up_to), (vec![8], 4));
        }
        _ => panic!("the value was reached"),
    }
    assert_eq!(
        backend.wait_until_timeout(context, 6, true, true, u64::MAX, 4).err(),
        Some(BackendError::DeviceRemoved)
    );
    let found = backend.devices.remove(&device).unwrap();
    assert!(matches!(backend.finish_timeline_wait(context, 9, 9, 9), Ok(None)));
    backend.devices.insert(device, found);
    assert_eq!(backend.contexts.contexts[&context].deletion_queue.pending_len(), 1);
    assert_eq!(backend.deferred_deletion_pending_count(context), 0);
    assert_eq!(device_horizon(3, 8), 8);
    assert!(backend.contexts.detach_for_destroy(&HashMap::new(), context).is_none());
    assert_eq!(backend.gpu_progress(context), 0);
    assert_eq!(backend.peek_oldest_in_flight(context), None);
    assert!(backend.contexts_to_destroy(device).is_empty());
    assert_eq!(backend.device_wait_fence(device, 6, 3), DeviceFence::OfDevice);
}

#[test]
fn images_return_when_the_fence_passes() {
    let (mut backend, device, context) = backend();
    let returned = |return_fence: u64, image_index: u32| SwapchainReturn {
        return_fence,
        image_index,
        issue_token: Some(return_fence * 10),
    };
    backend.surfaces.insert(
        3,
        SurfaceState {
            device_handle: device,
            pending_swapchain_returns: vec![returned(7, 1), returned(5, 0)],
            pending_acquire_count: 2,
        },
    );
    assert_eq!(backend.pending_acquire_count(3), 2);
    assert_eq!(backend.peek_oldest_pending_swapchain_return(3), Some(5));
    let wait = backend.take_swapchain_return_blocking_wait(3, 5, 4).unwrap().unwrap();
    assert_eq!((wait.device, wait.issue_token), (device, Some(50)));
    assert_eq!(backend.take_swapchain_return_blocking_wait(3, 5, 5), Ok(None));
    assert_eq!(
        backend.take_swapchain_return_blocking_wait(4, 5, 5),
        Err(BackendError::InvalidSurface { surface: 4 })
    );
    assert_eq!(backend.poll_signals(context, 6, 0), vec![0]);
    assert_eq!(backend.surfaces[&3].pending_swapchain_returns.len(), 1);
    assert_eq!(backend.poll_signals(context, 0, 7), vec![1]);
    assert_eq!(backend.peek_oldest_pending_swapchain_return(3), None);
    backend.devices.remove(&device);
    assert_eq!(
        backend.take_swapchain_return_blocking_wait(3, 9, 0),
        Err(BackendError::SurfaceDeviceInvalid { device })
    );
}

#[test]
fn pipelines_know_their_slots() {
    let (mut backend, device, _) = backend();
    let kinds = vec![
        Some(BindlessSlotKind::StorageUav),
        Some(BindlessSlotKind::ReadOnlySrv),
        Some(BindlessSlotKind::UniformCbv),
        None,
    ];
    let access = slot_access_from_push_constant_slot_kinds(&kinds);
    assert_eq!(access[0], Some(ResourceAccess::ReadWrite));
    assert_eq!(access[1], Some(ResourceAccess::Read));
    assert_eq!(access[3], None);
    backend.shaders.insert(
        8,
        ShaderState {
            device_handle: device,
            reflection: Some(ShaderReflection {
                push_constant_categories: vec![Some(ResourceCategory::Scattered)],
                push_constant_slot_kinds: kinds,
                binding_element_strides: vec![Some(16)],
            }),
        },
    );
    let pipeline = backend.finish_compute_pipeline(device, 8, 1, 2);
    assert_eq!(backend.compute_pipeline_slot_access(pipeline), access);
    assert!(backend.render_pipeline_slot_access(pipeline).is_empty());
    let bare = backend.finish_compute_pipeline(device, 9, 1, 2);
    assert!(backend.compute_pipeline_slot_access(bare).is_empty());
    backend.destroy_compute_pipeline(pipeline);
    assert!(backend.compute_pipeline_slot_access(pipeline).is_empty());
}

fn sizes(result_size: u64, scratch_size: u64) -> PrebuildInfo {
    PrebuildInfo { result_size, scratch_size, update_scratch_size: 0 }
}

fn vertex_buffers() -> BufferTable {
    let mut buffers = BufferTable::new();
    let flags = BufferFlags { cpu_readable: false, cpu_writable: false };
    let plan = plan_create(true, 1, 4096, 4096, DataAccess::Scattered, Some(12), flags).unwrap();
    buffers.finish_create(plan, 500, None, 20, 21);
    buffers
}

#[test]
fn structures_are_sized_for_either_build() {
    let blas = GpuAccelCreate::BlasTriangles { max_triangles: 4, max_vertices: 12, vertex_stride: 12 };
    let plan = plan_accel(1, blas, sizes(10, 300), sizes(20, 5)).unwrap();
    assert_eq!((plan.result_width, plan.scratch_width), (20, 300));
    assert_eq!((plan.max_primitives, plan.max_vertices, plan.is_tlas), (4, 12, false));
    assert_eq!(
        plan_accel(1, blas, sizes(1, 1), sizes(0, 1)),
        Err(AccelError::ZeroPrebuildSize)
    );
    let indexed = dummy_triangle_geom(12, 4, 12, true);
    assert_eq!((indexed.index_format, indexed.index_count), (IndexFormat::R32Uint, 12));
    let huge = dummy_triangle_geom(12, u32::MAX, 12, true);
    assert_eq!(huge.index_count, u32::MAX);
    assert_eq!(dummy_triangle_geom(12, 4, 12, false).index_count, 0);
}

#[test]
fn structures_need_an_adapter_that_traces_rays() {
    let adapters = vec![adapter(5), adapter(0), adapter(0)];
    let devices = HashMap::from([
        (1u64, LogicalDevice::new(0, false)),
        (2, LogicalDevice::new(5, false)),
        (3, LogicalDevice::new(9, false)),
    ]);
    assert_eq!(check_accel_device(&devices, &adapters, 1), Ok(()));
    assert_eq!(check_accel_device(&devices, &adapters, 2), Err(AccelError::NoRayTracing));
    assert_eq!(check_accel_device(&devices, &adapters, 3), Err(AccelError::NoRayTracing));
    assert_eq!(check_accel_device(&devices, &adapters, 4), Err(AccelError::InvalidDevice));
    let mut pipelines = adapter(5);
    pipelines.ray_tracing_pipelines = true;
    assert_eq!(check_accel_device(&devices, &vec![pipelines], 2), Ok(()));
}

#[test]
fn builds_are_checked_against_their_structure() {
    let buffers = vertex_buffers();
    let mut table = AccelTable::new();
    let blas = GpuAccelCreate::BlasTriangles { max_triangles: 4, max_vertices: 12, vertex_stride: 12 };
    let plan = plan_accel(1, blas, sizes(10, 300), sizes(20, 5)).unwrap();
    let bottom = table.finish_create(plan, 900, 901, 30);
    let plan = plan_accel(1, GpuAccelCreate::Tlas { max_instances: 1 }, sizes(9, 9), sizes(0, 0));
    let top = table.finish_create(plan.unwrap(), 910, 911, 31);
    assert_eq!(table.bindless_index(top), Some(31));
    let build = BlasBuildCommand {
        dest: bottom,
        vertex_buffer: 1,
        vertex_offset: 0,
        vertex_count: 12,
        vertex_stride: 12,
        index_buffer: None,
        index_offset: 0,
        index_count: 0,
    };
    let recorded = table.record_build_blas(&buffers.entries, &build).unwrap();
    assert_eq!((recorded.dest, recorded.scratch), (900, 901));
    assert!(table.entries[&bottom].built);
    let mut fail = |command: BlasBuildCommand| {
        table.record_build_blas(&buffers.entries, &command).map(|_| ()).unwrap_err()
    };
    assert_eq!(fail(BlasBuildCommand { dest: 99, ..build }), AccelError::InvalidBlas);
    assert_eq!(fail(BlasBuildCommand { dest: top, ..build }), AccelError::DestinationIsTlas);
    assert_eq!(
        fail(BlasBuildCommand { vertex_count: 13, ..build }),
        AccelError::TooManyVertices { count: 13, max: 12 }
    );
    assert_eq!(
        fail(BlasBuildCommand { vertex_stride: 16, ..build }),
        AccelError::StrideMismatch { stride: 16, expected: 12 }
    );
    assert_eq!(fail(BlasBuildCommand { vertex_buffer: 99, ..build }), AccelError::InvalidVertexBuffer);
    assert_eq!(
        fail(BlasBuildCommand { index_buffer: Some(1), index_count: 4, ..build }),
        AccelError::IndexCountNotTriangles { count: 4 }
    );
    assert_eq!(
        fail(BlasBuildCommand { index_buffer: Some(1), index_count: 15, ..build }),
        AccelError::TooManyPrimitives { count: 5, max: 4 }
    );
    assert_eq!(
        fail(BlasBuildCommand { index_buffer: Some(99), index_count: 3, ..build }),
        AccelError::InvalidIndexBuffer
    );
    let instance = AccelInstance { blas: bottom, custom_index: 0xff00_0001, mask: 0x80 };
    let packed = table.pack_instances(top, &vec![instance]).unwrap();
    assert_eq!(packed[0].index_and_mask, 0x8000_0001);
    assert_eq!(packed[0].offset_and_flags, 0x0100_0000);
    assert_eq!(packed[0].blas, 900);
    assert_eq!(
        table.pack_instances(top, &vec![instance, instance]).map(|_| ()),
        Err(AccelError::TooManyInstances { count: 2, max: 1 })
    );
    assert_eq!(
        table.pack_instances(bottom, &vec![instance]).map(|_| ()),
        Err(AccelError::DestinationIsBlas)
    );
    assert_eq!(table.pack_instances(99, &Vec::new()).map(|_| ()), Err(AccelError::InvalidTlas));
    let lost = AccelInstance { blas: 99, ..instance };
    assert_eq!(
        table.pack_instances(top, &vec![lost]).map(|_| ()),
        Err(AccelError::InvalidInstanceBlas)
    );
    let again = AccelBuildCommand::BlasTriangles { command: build };
    assert_eq!(table.record_build_list(&buffers.entries, 0, &again).unwrap().dest, 900);
    let tlas = AccelBuildCommand::Tlas { dest: top, instances: vec![instance] };
    let built = table.record_build_list(&buffers.entries, 950, &tlas).unwrap();
    assert_eq!((built.dest, built.num_descs), (910, 1));
    let devices = HashMap::from([(1u64, LogicalDevice::new(0, false))]);
    let fences = HashMap::from([
        (7u64, ContextFence { device: 1, completed: 0, last_submitted_seq: 4 }),
        (8, ContextFence { device: 2, completed: 0, last_submitted_seq: 6 }),
    ]);
    let released = table.destroy(&devices, &fences, bottom).unwrap();
    assert_eq!((released.accel_handle, released.device_handle), (bottom, 1));
    assert_eq!((released.resource, released.scratch), (900, 901));
    assert_eq!(released.bindless_offset, Some(30));
    assert_eq!(released.requirements, vec![(7, 4)]);
    assert!(table.destroy(&devices, &fences, bottom).is_none());
    assert!(table.destroy(&HashMap::new(), &fences, top).is_none());
    assert!(table.entries.is_empty());
}

#[test]
fn frames_take_the_slot_of_their_image() {
    assert_eq!(
        begin_frame(3, 4, 2, 1, Some(50)),
        Ok((FrameToken { surface: 3, image: 2, context: 4, frame_slot: 2, present_slot: 1 }, 50))
    );
    assert_eq!(begin_frame(3, 4, 2, 1, None), Err(BackendError::NoFrameTexture { surface: 3 }));
}
