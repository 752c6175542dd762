use std::collections::HashMap;

use goldy::dx12::context::{
    context_handle_for_thread, contexts_on_device, destroy_attribution_context, device_retired,
    reclamation_barrier_for_context, reclamation_requirements,
    reclamation_requirements_all_contexts, sole_context_on_device,
    wait_for_all_contexts_on_device, write_staging_for_submission, AllocatorSlot, ContextFence,
    ContextTable, DeferredSlot, DeviceProgress, PendingDeletion, SubmissionContext,
};
use goldy::dx12::deletion::DeletionQueue;
use goldy::dx12::finish::{
    drain_profiles, execute_signal_and_finish, finish_with_reservation, keeps_pinned_row,
    try_resubmit_retained, SubmitFinish,
};
use goldy::dx12::frame_table::{
    ContextFrameTable, FrameTableError, FrameTableLayout, ReserveStep, RowReservation, ROW_IN_USE,
};

fn table() -> ContextFrameTable {
    let layout = FrameTableLayout {
        max_rows: 2,
        row_stride: 8,
        table_u32s: 16,
        staging_selector_u32s: 2,
        user_slot_base: 2,
    };
    ContextFrameTable::new(layout, 1, 2, 0, 1, 50)
}

fn context() -> SubmissionContext {
    let mut context = SubmissionContext::new(1, 10);
    context.compute_allocator_pool[0] =
        AllocatorSlot { allocator: 10, command_list: Some(11), fence_value: 0, retained: false };
    context
}

fn fence(device: u64, completed: u64, last_submitted_seq: u64) -> ContextFence {
    ContextFence { device, completed, last_submitted_seq }
}

fn finish(retain_key: Option<u64>, staged: bool) -> SubmitFinish {
    SubmitFinish {
        slot_idx: 0,
        retain_key,
        used_slots: vec![DeferredSlot::CbvSrvUav(4)],
        staged,
        argument_buffers: vec![90],
        profiled: true,
    }
}

#[test]
fn deletions_leave_in_order() {
    let mut queue = DeletionQueue::new();
    queue.queue(3, 'a');
    queue.queue(1, 'b');
    queue.queue(5, 'c');
    assert_eq!(queue.pending_len(), 3);
    assert_eq!(queue.drain_up_to_completed(3), vec!['a', 'b']);
    assert_eq!(queue.drain_everything(), vec!['c']);
    assert_eq!(queue.pending_len(), 0);
}

#[test]
fn submissions_release_what_has_retired() {
    let mut context = context();
    let mut table = table();
    let mut f = fence(1, 4, 0);
    context.deletion_queue.queue(4, PendingDeletion::StandaloneResource(70));
    let done = execute_signal_and_finish(&mut context, &mut table, &mut f, finish(None, false), 5)
        .unwrap();
    assert!(matches!(done.released[..], [PendingDeletion::StandaloneResource(70)]));
    assert_eq!(context.compute_allocator_pool[0].fence_value, 5);
    assert_eq!(context.last_submitted_seq, 5);
    assert_eq!(f.last_submitted_seq, 5);
    assert_eq!(context.deletion_queue.pending_len(), 1);
    assert_eq!(context.pending_gpu_profiles, vec![5]);
}

#[test]
fn retained_lists_pin_and_resubmit() {
    let mut contexts = HashMap::new();
    contexts.insert(4, context());
    let mut table = table();
    let mut f = fence(1, 0, 0);
    let staged = write_staging_for_submission(&mut contexts, 4, &mut table, 0).unwrap();
    assert_eq!((staged.row, staged.step), (0, ReserveStep::Claimed));
    assert_eq!(table.last_token_for_row[0], ROW_IN_USE);
    let mut context = contexts.remove(&4).unwrap();
    assert_eq!(context.drain_value(), None);
    execute_signal_and_finish(&mut context, &mut table, &mut f, finish(Some(33), true), 5).unwrap();
    assert!(table.is_pinned(0));
    assert!(context.compute_allocator_pool[0].retained);
    assert!(context.retained_graphs.contains_key(&33));
    let again = try_resubmit_retained(&mut context, &mut f, 33, 6).unwrap();
    assert_eq!(again.command_list, 11);
    assert_eq!(context.drain_value(), Some(6));
    assert_eq!(context.compute_allocator_pool[0].fence_value, 6);
    assert!(try_resubmit_retained(&mut context, &mut f, 34, 7).is_none());
    context.evict_retained(&mut table, 33);
    assert!(!table.is_pinned(0));
    assert!(!context.compute_allocator_pool[0].retained);
    assert!(context.retained_graphs.is_empty());
}

#[test]
fn rows_end_with_their_submission() {
    let mut contexts = HashMap::new();
    contexts.insert(4, context());
    let mut table = table();
    let mut f = fence(1, 0, 0);
    let staged = write_staging_for_submission(&mut contexts, 4, &mut table, 0).unwrap();
    let mut reservation = RowReservation::new();
    reservation.set(staged.row);
    assert_eq!(table.last_token_for_row, vec![ROW_IN_USE, 0]);
    let mut context = contexts.remove(&4).unwrap();
    let submit = finish(Some(33), true);
    assert!(!keeps_pinned_row(&context, &table, &submit));
    finish_with_reservation(&mut context, &mut table, &mut f, submit, 5, reservation).unwrap();
    assert_eq!(table.last_token_for_row, vec![5, 0]);
    assert_eq!(table.reserve_row_with_backpressure(0, 4), ReserveStep::WaitFor { token: 5 });
    assert_eq!(table.reserve_row_with_backpressure(0, 5), ReserveStep::Claimed);
    let mut refused = RowReservation::new();
    refused.set(0);
    let other = finish(Some(34), true);
    assert!(keeps_pinned_row(&context, &table, &other));
    assert!(!keeps_pinned_row(&context, &table, &finish(Some(33), true)));
    assert!(!keeps_pinned_row(&context, &table, &finish(None, true)));
    assert_eq!(
        finish_with_reservation(&mut context, &mut table, &mut f, other, 6, refused).err(),
        Some(FrameTableError::AlreadyPinned { row: 0 })
    );
    assert_eq!(table.last_token_for_row, vec![0, 0]);
    assert_eq!(table.reserve_row_with_backpressure(0, 0), ReserveStep::Claimed);
}

#[test]
fn staging_evicts_lists_that_pin_the_row() {
    let mut contexts = HashMap::new();
    contexts.insert(4, context());
    let mut table = table();
    let mut f = fence(1, 9, 0);
    write_staging_for_submission(&mut contexts, 4, &mut table, 9).unwrap();
    let context = contexts.get_mut(&4).unwrap();
    execute_signal_and_finish(context, &mut table, &mut f, finish(Some(33), true), 5).unwrap();
    table.record_submission(0, 5);
    assert_eq!(write_staging_for_submission(&mut contexts, 4, &mut table, 9).unwrap().row, 1);
    let third = write_staging_for_submission(&mut contexts, 4, &mut table, 9).unwrap();
    assert_eq!(third.row, 0);
    assert!(!contexts[&4].retained_graphs.contains_key(&33));
    table.record_submission(0, 0);
    table.record_submission(1, 0);
    assert_eq!(
        write_staging_for_submission(&mut contexts, 5, &mut table, 9),
        Err(FrameTableError::InvalidContext { context: 5 })
    );
    table.pin_row(0).unwrap();
    assert_eq!(
        write_staging_for_submission(&mut contexts, 4, &mut table, 9),
        Err(FrameTableError::StillPinned { row: 0 })
    );
}

#[test]
fn profiles_are_read_once_retired() {
    let mut profiles = vec![3, 9, 4];
    assert_eq!(drain_profiles(&mut profiles, 4), vec![3, 4]);
    assert_eq!(profiles, vec![9]);
}

#[test]
fn devices_retire_with_their_furthest_fence() {
    let mut devices = HashMap::new();
    devices.insert(1, DeviceProgress { retired_floor: 2, fence_completed: 50 });
    let mut fences = HashMap::new();
    fences.insert(10, fence(1, 7, 9));
    fences.insert(11, fence(1, 5, 6));
    fences.insert(12, fence(2, 1, 1));
    assert_eq!(device_retired(&devices, &fences, 1), 50);
    assert_eq!(device_retired(&devices, &fences, 2), 1);
    assert_eq!(device_retired(&devices, &fences, 3), 0);
    let mut on_device = contexts_on_device(&fences, 1);
    on_device.sort();
    assert_eq!(on_device, vec![10, 11]);
    assert_eq!(sole_context_on_device(&fences, 1), None);
    assert_eq!(sole_context_on_device(&fences, 2), Some(12));
    assert_eq!(destroy_attribution_context(&fences, 2), Some(12));
    let threads = HashMap::from([(12u64, 5u64)]);
    assert_eq!(context_handle_for_thread(&fences, &threads, 2, 5), Some(12));
    assert_eq!(context_handle_for_thread(&fences, &threads, 2, 6), None);
    assert_eq!(context_handle_for_thread(&fences, &threads, 1, 5), None);
    assert_eq!(reclamation_barrier_for_context(&fences, 10), 9);
    let mut all = reclamation_requirements_all_contexts(&fences, 1);
    all.sort();
    assert_eq!(all, vec![(10, 9), (11, 6)]);
    assert_eq!(reclamation_requirements(&fences, 1, Some(11)), vec![(11, 6)]);
    let mut waits = wait_for_all_contexts_on_device(&fences, 1);
    waits.sort();
    assert_eq!(waits, vec![(10, 9), (11, 6)]);
}

#[test]
fn contexts_come_and_go() {
    let mut contexts = ContextTable::new();
    let mut devices = HashMap::new();
    devices.insert(1, DeviceProgress { retired_floor: 0, fence_completed: 0 });
    let first = contexts.next_id(&devices, 1).unwrap();
    contexts.create(first, 1, 100);
    let second = contexts.next_id(&devices, 1).unwrap();
    contexts.create(second, 1, 101);
    assert_eq!((first, second), (1, 2));
    assert_eq!(contexts.next_id(&devices, 9), Err(FrameTableError::InvalidDevice { device: 9 }));
    assert_eq!(contexts.context_device(first), 1);
    let detached = contexts.detach_for_destroy(&devices, first).unwrap();
    assert!(contexts.detach_for_destroy(&devices, 99).is_none());
    let mut progress = devices[&1];
    let mut pool = Vec::new();
    let destroyed = contexts.finish_destroy(first, detached, 8, &mut progress, &mut pool);
    assert!(destroyed.graphs.is_empty());
    assert!(destroyed.released.is_empty());
    assert!(!contexts.contexts.contains_key(&first));
    assert!(!contexts.fences.contains_key(&first));
    assert!(contexts.contexts.contains_key(&second));
}
