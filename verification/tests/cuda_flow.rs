use std::collections::HashMap;

use goldy::cuda::present::{FrameToken, PresentCompletion, PresentFinish};
use goldy::cuda::raster::{CudaRenderTarget, RasterError};
use goldy::cuda::raster_backing::{
    CudaPhysKind, RasterBuffer, Refresh, SharedBacking,
};
use goldy::cuda::raster_pass::{RasterScene, RenderCommand, TargetLoad};
use goldy::cuda::raster_record::Requirement;
use goldy::cuda::raster_run::{PassAction, PassEvent, PassRun, RasterPass};
use goldy::cuda::surface::{
    CudaSurfaceState, PresentMode, PresentSource, SharedScratch, SurfaceError,
};
use goldy::cuda::surface_flow::{
    begin_present, publish_begun, take_present_gpu_work, PresentGiven, PresentInputs,
    ScratchStart,
};
use goldy::cuda::surface_frame::ImageSignal;
use goldy::cuda::surface_table::SurfaceTables;
use goldy::cuda::texture::{CudaTexture, TextureFormat, TextureKind};
use goldy::cuda::timeline::{EventLedger, LedgerCompletion, LedgerEntry, WaitCompletion};

fn texture(id: u64, slot: u32) -> CudaTexture {
    CudaTexture {
        id,
        width: 64,
        height: 64,
        format: TextureFormat::Rgba32Float,
        kind: TextureKind::Direct,
        imported: true,
        srgb: false,
        storage_slot: Some(slot),
        sampled_slot: None,
    }
}

fn scratch(id: u64, width: u32) -> SharedScratch {
    SharedScratch { id, width, height: 64, resource: id + 100, blit_target: id + 200 }
}

fn tables() -> SurfaceTables {
    let mut tables = SurfaceTables {
        surfaces: HashMap::new(),
        textures: HashMap::new(),
        texture_slots: HashMap::new(),
        next_surface: 1,
        next_texture: 10,
    };
    tables.insert_surface(CudaSurfaceState::new(1, 64, 64, false, None, vec![5, 6]));
    tables.finish_scratch(1, 0, scratch(1, 64), 31, texture(1, 31));
    tables
}

fn frame() -> FrameToken {
    FrameToken { surface: 1, image: 0, context: 7, frame_slot: 0, present_slot: 1 }
}

fn inputs() -> PresentInputs {
    PresentInputs {
        device_known: true,
        companion: Some(2),
        context_known: true,
        allow_tearing: true,
    }
}

fn given() -> PresentGiven {
    PresentGiven { present_tv: 40, event: Some(90), handoff_value: 55 }
}

#[test]
fn resizes_take_the_scratch_out() {
    let mut tables = tables();
    assert!(matches!(tables.begin_resize(1, 0, 50), Ok(None)));
    assert!(matches!(tables.begin_resize(1, 64, 64), Ok(None)));
    assert!(matches!(tables.begin_resize(9, 80, 80), Err(SurfaceError::InvalidSurface)));
    assert!(matches!(tables.begin_resize(9, 0, 80), Ok(None)));
    tables.surfaces.get_mut(&1).unwrap().slot_fence[1] = 12;
    let start = tables.begin_resize(1, 80, 80).unwrap().unwrap();
    assert_eq!((start.device, start.fence_high), (1, 12));
    assert_eq!(start.handles, vec![10]);
    assert_eq!(start.bindless, vec![31]);
    assert!(tables.surfaces[&1].scratch.iter().all(|s| s.is_none()));
    tables.retire_scratch(1, &start.slots, start.fence_high);
    assert!(tables.textures.is_empty());
    assert!(tables.texture_slots.is_empty());
    assert_eq!(tables.surfaces[&1].pending_scratch[0].retire_at, 12);
}

#[test]
fn scratch_is_reused_replaced_or_made() {
    let mut tables = tables();
    assert_eq!(tables.begin_scratch(1, 0, 0), Ok(ScratchStart::Ready { texture: 10 }));
    assert_eq!(tables.begin_scratch(1, 1, 0), Ok(ScratchStart::Missing));
    assert_eq!(tables.begin_scratch(9, 0, 0), Err(SurfaceError::InvalidSurface));
    tables.surfaces.get_mut(&1).unwrap().width = 32;
    if let Some(slot) = &mut tables.surfaces.get_mut(&1).unwrap().scratch[0] {
        slot.dx12_complete = 4;
    }
    assert_eq!(tables.begin_scratch(1, 0, 0), Ok(ScratchStart::Replaced { retire_at: 4 }));
    assert!(tables.textures.is_empty());
    assert_eq!(tables.surfaces[&1].pending_scratch.len(), 1);
    assert_eq!(tables.begin_scratch(1, 0, 4), Ok(ScratchStart::Missing));
    assert!(tables.surfaces[&1].pending_scratch.is_empty());
    assert_eq!(tables.surfaces[&1].scratch_pool.len(), 1);
    let handle = tables.finish_scratch(1, 0, scratch(2, 32), 33, texture(2, 33));
    assert_eq!(tables.begin_scratch(1, 0, 4), Ok(ScratchStart::Ready { texture: handle }));
}

#[test]
fn presents_are_taken_and_published() {
    let mut tables = tables();
    let mut ledger = EventLedger::new();
    if let Some(slot) = &mut tables.surfaces.get_mut(&1).unwrap().scratch[0] {
        slot.present_source = Some(PresentSource::CudaScratch { cuda_complete: 21 });
    }
    tables.surfaces.get_mut(&1).unwrap().current_texture_handle = Some(10);
    let taken =
        take_present_gpu_work(&mut tables, &mut ledger, &frame(), 3, &inputs(), &given()).unwrap();
    assert_eq!(taken.work.join_submit_tv, Some(3));
    assert_eq!(taken.work.cuda_complete, 21);
    assert_eq!(taken.work.completion, PresentCompletion::CudaEvent { event: 90 });
    assert_eq!(taken.work.present_mode, PresentMode::Fifo);
    assert_eq!((taken.work.reuse_list, taken.handoff_event), (false, None));
    assert_eq!(taken.scratch_texture, 10);
    assert_eq!(tables.surfaces[&1].current_texture_handle, None);
    assert_eq!(tables.surfaces[&1].scratch[0].unwrap().present_source, None);
    assert!(matches!(ledger.completion_for_wait(0, 7, 40), WaitCompletion::Pending { .. }));
}

#[test]
fn raster_presents_need_no_event() {
    let mut tables = tables();
    let mut ledger = EventLedger::new();
    if let Some(slot) = &mut tables.surfaces.get_mut(&1).unwrap().scratch[0] {
        slot.present_source = Some(PresentSource::Dx12Raster {
            resource: 77,
            fence: 8,
            format: TextureFormat::Rgba32Float,
        });
    }
    let start = begin_present(&mut tables, &ledger, &frame(), 3, &inputs()).unwrap();
    assert_eq!((start.needs_event(), start.needs_handoff()), (false, false));
    let without = PresentGiven { event: None, ..given() };
    let taken = publish_begun(&tables, &mut ledger, &frame(), &start, &without).unwrap();
    assert_eq!(taken.work.completion, PresentCompletion::Dx12Fence);
    assert_eq!(taken.list.entry.color_src, 77);
    assert_eq!(
        ledger.lookup_completion(7, 40),
        Some(LedgerCompletion::Dx12Fence { companion: 2, value: 0, recycle: true })
    );
}

#[test]
fn presents_that_are_refused() {
    let refused = |frame: FrameToken, submit_tv: u64, inputs: PresentInputs| {
        let mut ledger = EventLedger::new();
        let first = begin_present(&mut tables(), &ledger, &frame, submit_tv, &inputs).unwrap_err();
        let whole =
            take_present_gpu_work(&mut tables(), &mut ledger, &frame, submit_tv, &inputs, &given())
                .unwrap_err();
        assert_eq!(first, whole);
        assert!(ledger.entry(40).is_none());
        whole
    };
    assert_eq!(
        refused(FrameToken { surface: 9, ..frame() }, 0, inputs()),
        SurfaceError::PresentWithoutSurface
    );
    assert_eq!(
        refused(frame(), 0, PresentInputs { device_known: false, ..inputs() }),
        SurfaceError::PresentWithoutDevice
    );
    assert_eq!(
        refused(frame(), 0, PresentInputs { companion: None, ..inputs() }),
        SurfaceError::PresentWithoutCompanion
    );
    assert_eq!(
        refused(frame(), 0, PresentInputs { context_known: false, ..inputs() }),
        SurfaceError::InvalidContext { context: 7 }
    );
    assert_eq!(refused(FrameToken { image: 1, ..frame() }, 0, inputs()), SurfaceError::NoScratch);
    assert_eq!(
        refused(frame(), 6, inputs()),
        SurfaceError::NoCompletionEvent { submit_tv: 6, context: 7 }
    );
    let mut ledger = EventLedger::new();
    let without = PresentGiven { event: None, ..given() };
    assert_eq!(
        take_present_gpu_work(&mut tables(), &mut ledger, &frame(), 0, &inputs(), &without),
        Err(SurfaceError::EventCreateFailed)
    );
    assert!(ledger.entry(40).is_none());
    assert_eq!(SurfaceError::PresentWithoutSurface.message(), "invalid surface");
    assert_eq!(SurfaceError::PresentWithoutDevice.message(), "invalid device");
    assert_eq!(
        SurfaceError::PresentWithoutCompanion.message(),
        "CUDA device missing DX12 companion"
    );
}

#[test]
fn handoffs_are_told_before_values_are_given_out() {
    let mut tables = tables();
    let mut ledger = EventLedger::new();
    ledger.insert(
        3,
        LedgerEntry {
            context: 7,
            completion: LedgerCompletion::CudaEvent { event: 80 },
            recorded: true,
        },
    );
    let start = begin_present(&mut tables, &ledger, &frame(), 3, &inputs()).unwrap();
    assert_eq!((start.needs_event(), start.needs_handoff()), (true, true));
    assert!(ledger.entry(40).is_none());
    let taken = publish_begun(&tables, &mut ledger, &frame(), &start, &given()).unwrap();
    assert_eq!((taken.handoff_event, taken.work.cuda_complete), (Some(80), 55));
    let gone = FrameToken { surface: 9, ..frame() };
    assert_eq!(
        publish_begun(&tables, &mut ledger, &gone, &start, &given()),
        Err(SurfaceError::PresentWithoutSurface)
    );
}

#[test]
fn acquired_images_stay_noted_without_scratch() {
    let mut tables = tables();
    assert_eq!(tables.frame_wait(9, true, Some(2)), Err(SurfaceError::InvalidSurface));
    assert_eq!(tables.frame_wait(1, false, Some(2)), Err(SurfaceError::InvalidDevice));
    assert_eq!(tables.frame_wait(1, true, None), Err(SurfaceError::CompanionMissing));
    tables.surfaces.get_mut(&1).unwrap().slot_fence[0] = 8;
    assert_eq!(tables.frame_wait(1, true, Some(2)), Ok(8));
    assert_eq!(tables.acquire_image(9, 1), Err(SurfaceError::InvalidSurface));
    assert_eq!(tables.acquire_image(1, 1), Ok(()));
    assert_eq!(tables.begin_scratch(1, 1, 0), Ok(ScratchStart::Missing));
    assert_eq!(tables.surfaces[&1].current_image_index, Some(1));
    assert_eq!(tables.surfaces[&1].current_texture_handle, None);
    assert_eq!(tables.surfaces[&1].current_frame, 0);
}

fn backing() -> SharedBacking {
    SharedBacking {
        size: 64,
        gpu_va: 0x9000,
        device_ptr: 0x7000,
        last_cuda_fence: 5,
        last_dx12_ia_fence: 0,
        pending_host_sync: false,
    }
}

fn buffer(phys_kind: CudaPhysKind, shared: Option<SharedBacking>) -> RasterBuffer {
    RasterBuffer {
        phys_kind,
        offset: 0,
        size: 48,
        capacity: 64,
        content_epoch: 2,
        shared_epoch: 1,
        shared,
        memory_base: 0x1000,
        memory_len: 64,
        slot: Some(31),
    }
}

fn scene() -> RasterScene {
    let mut buffers = HashMap::new();
    buffers.insert(3, buffer(CudaPhysKind::Shared, Some(backing())));
    buffers.insert(4, buffer(CudaPhysKind::NativeAndTwin, Some(backing())));
    let mut render_targets = HashMap::new();
    render_targets.insert(
        7,
        CudaRenderTarget {
            device: 1,
            width: 64,
            height: 64,
            format: TextureFormat::Rgba32Float,
            cuda_texture: texture(70, 9),
            resource: 700,
            rtv_offset: 2,
            last_dx12_fence: 0,
        },
    );
    RasterScene {
        pipelines: HashMap::new(),
        buffers,
        buffer_slots: HashMap::new(),
        render_targets,
        list_cache: HashMap::new(),
    }
}

fn pass(buffers: &[u64]) -> RasterPass {
    RasterPass {
        device: 1,
        target: 7,
        load: TargetLoad::Load,
        commands: buffers
            .iter()
            .map(|b| RenderCommand::SetVertexBuffer { slot: 0, buffer: *b, offset: 0 })
            .collect(),
        staging: Vec::new(),
        row_stride: 8,
    }
}

#[test]
fn passes_wait_for_their_buffers() {
    let mut scene = scene();
    let mut run = PassRun::start(&scene, pass(&[3, 4, 3]), true, true).unwrap();
    for buffer in [3, 4, 3] {
        let requirement = Requirement { buffer, vertex: true };
        assert_eq!(run.action(), PassAction::Ensure { requirement });
        run.report(&mut scene, PassEvent::Performed).unwrap();
    }
    assert_eq!(run.action(), PassAction::SyncTwins);
    run.report(&mut scene, PassEvent::Performed).unwrap();
    assert_eq!(run.action(), PassAction::Refresh { buffer: 3 });
    run.report(&mut scene, PassEvent::Refreshed { fence: 5 }).unwrap();
    assert_eq!(run.action(), PassAction::Refresh { buffer: 4 });
    run.report(&mut scene, PassEvent::Refreshed { fence: 9 }).unwrap();
    assert_eq!(run.action(), PassAction::SyncAllocStream);
    run.report(&mut scene, PassEvent::Performed).unwrap();
    assert_eq!(run.action(), PassAction::WaitQueue { value: 9 });
    run.report(&mut scene, PassEvent::Performed).unwrap();
    assert!(matches!(run.action(), PassAction::Record { .. }));
    run.report(&mut scene, PassEvent::Submitted { signal: 20 }).unwrap();
    assert_eq!(run.action(), PassAction::Finished { signal: 20 });
    assert_eq!(scene.render_targets[&7].last_dx12_fence, 20);
    assert_eq!(scene.buffers[&3].shared.unwrap().last_dx12_ia_fence, 20);
}

#[test]
fn equal_passes_run_their_list_again() {
    let mut scene = scene();
    let mut first = PassRun::start(&scene, pass(&[]), true, true).unwrap();
    assert!(matches!(first.action(), PassAction::Record { .. }));
    first.report(&mut scene, PassEvent::Submitted { signal: 20 }).unwrap();
    let mut second = PassRun::start(&scene, pass(&[]), true, true).unwrap();
    assert!(matches!(second.action(), PassAction::Reuse { .. }));
    second.report(&mut scene, PassEvent::Reused { again: None }).unwrap();
    assert!(matches!(second.action(), PassAction::Record { .. }));
    let mut third = PassRun::start(&scene, pass(&[]), true, true).unwrap();
    third.report(&mut scene, PassEvent::Reused { again: Some(21) }).unwrap();
    assert_eq!(third.action(), PassAction::Finished { signal: 21 });
    assert_eq!(scene.render_targets[&7].last_dx12_fence, 21);
}

#[test]
fn passes_that_cannot_begin() {
    let scene = scene();
    let fail = |pass: RasterPass, known: bool, companion: bool| {
        PassRun::start(&scene, pass, known, companion).map(|_| ()).unwrap_err()
    };
    assert_eq!(
        fail(RasterPass { target: 8, ..pass(&[]) }, true, true),
        RasterError::InvalidRenderTarget
    );
    assert_eq!(
        fail(RasterPass { device: 2, ..pass(&[]) }, true, true),
        RasterError::TargetOnOtherDevice
    );
    assert_eq!(fail(pass(&[]), false, true), RasterError::InvalidDevice { device: 1 });
    assert_eq!(fail(pass(&[]), true, false), RasterError::CompanionRequired);
}

#[test]
fn refreshes_make_missing_twins() {
    let mut bare = buffer(CudaPhysKind::NativeAndTwin, None);
    let begun = bare.begin_refresh(&Some(backing())).unwrap();
    assert_eq!((begun.host_sync, begun.wait_old), (false, None));
    assert!(matches!(begun.refresh, Refresh::Copy { .. }));
    let mut small = buffer(
        CudaPhysKind::NativeAndTwin,
        Some(SharedBacking { size: 8, ..backing() }),
    );
    let begun = small.begin_refresh(&Some(backing())).unwrap();
    assert_eq!(begun.wait_old, Some(5));
    let mut dirty = buffer(
        CudaPhysKind::Shared,
        Some(SharedBacking { pending_host_sync: true, ..backing() }),
    );
    let begun = dirty.begin_refresh(&None).unwrap();
    assert!(begun.host_sync);
    assert_eq!(begun.refresh, Refresh::Current { fence: 5, counts_as_bind: true });
}

#[test]
fn contexts_hear_of_their_images() {
    let mut tables = tables();
    let mut queues: HashMap<u64, Vec<ImageSignal>> = HashMap::from([(5, vec![]), (6, vec![])]);
    assert_eq!(tables.begin_frame(&mut queues, 9, 5, 0, 10), Err(SurfaceError::InvalidSurface));
    assert!(queues[&5].is_empty());
    let token = tables.begin_frame(&mut queues, 1, 5, 0, 10).unwrap();
    assert_eq!((token.surface, token.image, token.context), (1, 0, 5));
    assert_eq!(tables.surfaces[&1].current_texture_handle, Some(10));
    let finish =
        PresentFinish { frame: token, return_fence: 8, present_timeline: 3, present_ok: true };
    assert_eq!(tables.finish_present(&mut queues, &finish), Ok(3));
    assert_eq!(tables.surfaces[&1].slot_fence[token.present_slot], 8);
    let heard = vec![ImageSignal::Acquired { image: 0 }, ImageSignal::Returned { image: 0 }];
    assert_eq!(queues[&5], heard);
    assert!(queues[&6].is_empty());
    let failed = PresentFinish { present_ok: false, ..finish };
    assert_eq!(
        tables.finish_present(&mut queues, &failed),
        Err(SurfaceError::PresentFailed { return_fence: 8 })
    );
    assert_eq!(queues[&5].len(), 3);
    tables.surfaces.remove(&1);
    assert_eq!(tables.finish_present(&mut queues, &finish), Ok(3));
    assert_eq!(queues[&5].len(), 3);
}

#[test]
fn scenes_end_within_the_address_space() {
    let mut scene = scene();
    assert!(scene.is_addressable());
    scene.buffers.get_mut(&3).unwrap().shared.as_mut().unwrap().gpu_va = u64::MAX - 47;
    assert!(!scene.is_addressable());
    scene.buffers.get_mut(&3).unwrap().shared = None;
    assert!(scene.is_addressable());
    scene.buffers.get_mut(&3).unwrap().offset = u64::MAX;
    assert!(!scene.is_addressable());
    scene.buffers.remove(&3);
    scene.buffers.get_mut(&4).unwrap().memory_base = u64::MAX - 63;
    assert!(!scene.is_addressable());
}
