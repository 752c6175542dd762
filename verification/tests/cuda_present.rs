use std::collections::HashMap;

use goldy::cuda::present::{
    cuda_complete, plan_present, plan_run, submit_frame, FrameToken, PresentCompletion,
    PresentFinish, PresentStep, PresentWork, ScratchDecision,
};
use goldy::cuda::surface::{
    client_size, present_args, present_source_fence, CudaSurfaceState, PresentMode, PresentSource,
    SharedScratch, SurfaceError, SCRATCH_POOL_CAP,
};
use goldy::cuda::surface_flow::{
    take_present_gpu_work, PresentGiven, PresentInputs, ScratchStart,
};
use goldy::cuda::surface_table::SurfaceTables;
use goldy::cuda::texture::{CudaTexture, TextureFormat, TextureKind};
use goldy::cuda::timeline::{
    BlockCall, BlockingWait, EventLedger, LedgerCompletion, LedgerEntry, TimedWaitNext,
    WaitCompletion,
};

fn surface() -> CudaSurfaceState {
    CudaSurfaceState::new(1, 640, 480, false, None, vec![71, 72, 73])
}

fn scratch(id: u64) -> SharedScratch {
    SharedScratch { id, width: 640, height: 480, resource: id + 100, blit_target: id + 200 }
}

fn tables_with_surface() -> (SurfaceTables, u64) {
    let mut tables = SurfaceTables {
        surfaces: HashMap::new(),
        textures: HashMap::new(),
        texture_slots: HashMap::new(),
        next_surface: 1,
        next_texture: 9,
    };
    let surface = tables.insert_surface(surface());
    (tables, surface)
}

fn begin(tables: &mut SurfaceTables, surface: u64, ctx: u64) -> FrameToken {
    let mut queues = HashMap::new();
    assert_eq!(tables.frame_wait(surface, true, Some(1)), Ok(0));
    tables.acquire_image(surface, 0).expect("acquire_image");
    assert_eq!(tables.begin_scratch(surface, 0, 0), Ok(ScratchStart::Missing));
    let texture = CudaTexture::from_imported_array(
        1,
        false,
        640,
        480,
        TextureFormat::Rgba32Float,
        TextureKind::Direct,
        Some(31),
        None,
    )
    .expect("texture");
    let texture = tables.finish_scratch(surface, 0, scratch(1), 31, texture);
    tables.begin_frame(&mut queues, surface, ctx, 0, texture).expect("begin_frame")
}

const PRESENT: PresentInputs = PresentInputs {
    device_known: true,
    companion: Some(1),
    context_known: true,
    allow_tearing: false,
};

#[test]
fn present_errors_when_submit_tv_missing_from_ledger() {
    let (mut tables, surface) = tables_with_surface();
    let ctx = 5;
    let mut ledger = EventLedger::new();
    let token = begin(&mut tables, surface, ctx);
    let given = PresentGiven { present_tv: 12, event: Some(33), handoff_value: 77 };
    match take_present_gpu_work(&mut tables, &mut ledger, &token, 0xDEAD_BEEF, &PRESENT, &given) {
        Ok(_) => panic!("missing ledger entry must fail"),
        Err(err) => {
            let msg = err.message();
            assert!(msg.contains("no completion event"), "unexpected error: {msg}");
            assert_eq!(
                msg,
                "CUDA/DX12: present submit_tv 3735928559 has no completion event on context 5"
            );
        }
    }
    assert!(ledger.entry(12).is_none());
}

#[test]
fn present_returns_goldy_timeline_value() {
    let (mut tables, surface) = tables_with_surface();
    let ctx = 5;
    let mut ledger = EventLedger::new();
    let mut queues = HashMap::new();
    let token = begin(&mut tables, surface, ctx);
    // submit_tv == 0: no compute wait, but present still publishes a timeline value.
    let given = PresentGiven { present_tv: 12, event: Some(33), handoff_value: 77 };
    let taken = take_present_gpu_work(&mut tables, &mut ledger, &token, 0, &PRESENT, &given)
        .expect("take_present_gpu_work");
    assert_eq!(taken.work.cuda_complete, 0);
    let mut present_tv = 0;
    for step in plan_run(&taken.work) {
        if let PresentStep::MarkRecorded { present_tv: value } = step {
            ledger.mark_recorded(value);
            present_tv = value;
        }
    }
    let finished = tables
        .finish_present(
            &mut queues,
            &PresentFinish {
                frame: token,
                return_fence: 4,
                present_timeline: present_tv,
                present_ok: true,
            },
        )
        .expect("finish_present");
    assert!(finished > 0, "present must allocate a timeline value");
    let completion = ledger.lookup_completion(ctx, finished);
    assert!(completion.is_some(), "present_tv {finished} missing from the ledger");
    assert!(matches!(
        ledger.completion_for_wait(0, ctx, finished),
        WaitCompletion::Pending { .. }
    ));
    assert_eq!(completion, Some(LedgerCompletion::CudaEvent { event: 33 }));
    assert_eq!(
        BlockingWait::Event { event: 33 }.block(),
        Ok(BlockCall::SynchronizeEvent { event: 33 })
    );
    assert!(ledger.entry(finished).unwrap().is_complete(true));
}

#[test]
fn submissions_of_other_contexts_are_refused() {
    let mut ledger = EventLedger::new();
    ledger.insert(
        7,
        LedgerEntry {
            context: 6,
            completion: LedgerCompletion::CudaEvent { event: 1 },
            recorded: true,
        },
    );
    ledger.insert(
        8,
        LedgerEntry {
            context: 5,
            completion: LedgerCompletion::Dx12Fence { companion: 1, value: 2, recycle: false },
            recorded: true,
        },
    );
    assert_eq!(
        plan_present(&ledger, &None, 7, 5),
        Err(SurfaceError::SubmitOnOtherContext { submit_tv: 7, owner: 6, context: 5 })
    );
    assert_eq!(
        plan_present(&ledger, &None, 8, 5),
        Err(SurfaceError::SubmitIsFence { submit_tv: 8 })
    );
    let handoff = plan_present(&ledger, &None, 7, 6).unwrap();
    assert_eq!(handoff.handoff_event, Some(1));
    assert_eq!(cuda_complete(&handoff, 55), 55);
    let direct = PresentSource::CudaScratch { cuda_complete: 40 };
    let plan = plan_present(&ledger, &Some(direct), 7, 5).unwrap();
    assert_eq!(plan.join_submit_tv, Some(7));
    assert_eq!(cuda_complete(&plan, 55), 40);
    assert_eq!(submit_frame(&ledger, 3, 6), 7);
    assert_eq!(submit_frame(&ledger, 30, 6), 30);
}

#[test]
fn missing_scratch_is_an_error() {
    let mut state = surface();
    assert_eq!(state.take_present_source(0), Err(SurfaceError::NoScratch));
    assert_eq!(state.take_present_source(9), Err(SurfaceError::NoScratch));
    assert_eq!(state.scratch_decision(0), ScratchDecision::Create);
    state.install_scratch(0, scratch(1), 9);
    assert_eq!(state.scratch_decision(0), ScratchDecision::Reuse { texture: 9 });
    state.width = 800;
    assert_eq!(state.scratch_decision(0), ScratchDecision::Replace { texture: 9 });
}

#[test]
fn failed_presents_still_guard_reuse() {
    let mut state = surface();
    state.install_scratch(0, scratch(1), 9);
    let token = state.begin_frame(1, 5, 0, 9);
    let finish = PresentFinish { frame: token, return_fence: 4, present_timeline: 3, present_ok: false };
    assert_eq!(
        state.finish_present(&finish),
        Err(SurfaceError::PresentFailed { return_fence: 4 })
    );
    assert_eq!(state.slot_fence[0], 4);
    assert_eq!(state.scratch[0].unwrap().pending_scratch_reuse_fence, 4);
    assert!(state.backbuffer_in_common[0]);
}

#[test]
fn present_steps_are_ordered() {
    let work = PresentWork {
        join_submit_tv: Some(6),
        cuda_complete: 9,
        reuse_list: false,
        present_tv: 12,
        completion: PresentCompletion::Dx12Fence,
        present_mode: PresentMode::Immediate,
        allow_tearing: true,
    };
    let steps = plan_run(&work);
    let at = |s: PresentStep| steps.iter().position(|x| *x == s);
    let bind = at(PresentStep::BindFence { present_tv: 12 }).unwrap();
    let execute = at(PresentStep::ExecuteAndSignal).unwrap();
    let present = at(PresentStep::Present { sync_interval: 0, flags: 0x200 }).unwrap();
    assert!(at(PresentStep::JoinWorker { submit_tv: 6 }).unwrap() < execute);
    assert!(at(PresentStep::WaitQueue { value: 9 }).unwrap() < execute);
    assert!(bind < present);
    assert!(execute < present);
    let again = plan_run(&PresentWork { reuse_list: true, ..work });
    assert!(!again.contains(&PresentStep::RecordCopy));
}

#[test]
fn lists_are_reused_until_they_are_forgotten() {
    let mut state = surface();
    state.install_scratch(0, scratch(1), 9);
    let first = state.present_list(0, 0, &None);
    assert!(!first.reuse);
    let updated = state.begin_recording(0, &first.entry);
    state.note_submitted(0, 3, &Some(updated));
    let second = state.present_list(0, 0, &None);
    assert!(second.reuse);
    let raster = PresentSource::Dx12Raster { resource: 44, fence: 2, format: TextureFormat::Rgba32Float };
    assert!(!state.present_list(0, 0, &Some(raster)).reuse);
    state.install_scratch(1, scratch(2), 10);
    assert!(!state.present_list(0, 0, &None).reuse);
}

#[test]
fn parked_scratch_waits_for_its_fence() {
    let mut state = surface();
    for image in 0..3 {
        state.install_scratch(image, scratch(image as u64 + 1), 9);
    }
    let taken = state.take_scratch();
    assert_eq!(taken.len(), 3);
    state.park(&taken, 10);
    state.drain_pending_scratch(9);
    assert_eq!(state.pending_scratch.len(), 3);
    assert!(state.scratch_pool.is_empty());
    state.drain_pending_scratch(10);
    assert!(state.pending_scratch.is_empty());
    assert_eq!(state.scratch_pool.len(), 3);
    assert!(state.take_pooled_scratch(1, 1).is_none());
    assert!(state.take_pooled_scratch(640, 480).is_some());
    assert_eq!(state.scratch_pool.len(), 2);
}

#[test]
fn scratch_pool_is_bounded() {
    let mut state = surface();
    for round in 0..3 {
        for image in 0..3 {
            state.install_scratch(image, scratch(round * 3 + image as u64 + 1), 9);
        }
        let taken = state.take_scratch();
        state.park(&taken, 1);
        state.drain_pending_scratch(1);
    }
    assert_eq!(state.scratch_pool.len(), SCRATCH_POOL_CAP);
}

#[test]
fn resizing_starts_over() {
    let mut state = surface();
    state.install_scratch(0, scratch(1), 9);
    let token = state.begin_frame(1, 5, 0, 9);
    let _ = token;
    assert!(!state.needs_resize(640, 480));
    assert!(state.needs_resize(641, 480));
    state.finish_resize(800, 600, vec![81, 82, 83], Some(2));
    assert_eq!((state.width, state.height), (800, 600));
    assert_eq!(state.backbuffers, vec![81, 82, 83]);
    assert_eq!(state.current_image_index, None);
    assert!(state.backbuffer_in_common.iter().all(|b| *b));
}

#[test]
fn windows_have_a_pixel_at_least() {
    assert_eq!(client_size(10, 10, 650, 490), (640, 480));
    assert_eq!(client_size(0, 0, 0, -5), (1, 1));
}

#[test]
fn present_modes_map_to_intervals() {
    assert_eq!(present_args(PresentMode::Fifo, true), (1, 0));
    assert_eq!(present_args(PresentMode::Immediate, true), (0, 0x200));
    assert_eq!(present_args(PresentMode::Immediate, false), (1, 0));
    assert_eq!(present_args(PresentMode::Mailbox, true), (1, 0));
    assert_eq!(present_source_fence(&None), 0);
    assert_eq!(
        present_source_fence(&Some(PresentSource::CudaScratch { cuda_complete: 6 })),
        6
    );
}

#[test]
fn waits_end_or_sleep() {
    let event = BlockingWait::Event { event: 1 };
    assert_eq!(event.block_timeout(5, false, false), TimedWaitNext::Sleep);
    assert_eq!(event.block_timeout(5, false, true), TimedWaitNext::Finished { complete: true });
    assert_eq!(event.block_timeout(5, true, false), TimedWaitNext::Finished { complete: false });
    let absent = BlockingWait::Absent { context: 1, value: 2 };
    assert!(absent.block().is_err());
    assert_eq!(absent.block_timeout(5, false, true), TimedWaitNext::Finished { complete: false });
    let unbound = BlockingWait::Fence { companion: 1, fence: 0, recycle: true };
    assert!(unbound.block().is_err());
    assert!(!unbound.can_complete());
}

#[test]
fn frames_wait_for_their_present_slot() {
    let mut state = surface();
    assert_eq!(state.slot_wait(), 0);
    state.slot_fence[0] = 4;
    state.cmd_fence[0] = 7;
    assert_eq!(state.slot_wait(), 7);
    state.slot_waited();
    assert_eq!((state.slot_fence[0], state.cmd_fence[0]), (0, 7));
    state.slot_fence[0] = 9;
    assert_eq!(state.slot_wait(), 9);
    state.begin_frame(1, 5, 0, 9);
    assert_eq!((state.current_frame, state.slot_wait()), (1, 0));
}
