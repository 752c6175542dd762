use std::collections::HashMap;

use goldy::dx12::barriers::{ACCESS_COPY_DEST, ACCESS_COPY_SOURCE, SYNC_COPY};
use goldy::dx12::buffer::BufferTable;
use goldy::dx12::command_list::Call;
use goldy::dx12::commands::{GpuCommand, GraphCommand};
use goldy::dx12::frame_table::{
    extract_staging_from_commands, extract_staging_from_graph, legacy_state_to_barrier,
    ContextFrameTable, FrameTableError, FrameTableLayout, ReserveStep, ResourceState,
    RowReservation, ROW_IN_USE,
};

fn layout() -> FrameTableLayout {
    FrameTableLayout {
        max_rows: 4,
        row_stride: 8,
        table_u32s: 32,
        staging_selector_u32s: 4,
        user_slot_base: 2,
    }
}

fn table() -> ContextFrameTable {
    ContextFrameTable::new(layout(), 1, 2, 0, 1, 50)
}

#[test]
fn record_submission_stores_token() {
    let mut table = table();
    assert_eq!(table.reserve_row_with_backpressure(3, 0), ReserveStep::Claimed);
    assert_eq!(table.last_token_for_row[3], ROW_IN_USE);
    table.record_submission(3, 42);
    assert_eq!(table.last_token_for_row[3], 42);
    assert_ne!(table.last_token_for_row[3], ROW_IN_USE);
}

#[test]
fn row_reservation_drop_aborts_to_zero() {
    let mut table = table();
    assert_eq!(table.reserve_row_with_backpressure(1, 0), ReserveStep::Claimed);
    let mut reservation = RowReservation::new();
    reservation.set(1);
    reservation.abort(&mut table);
    assert_eq!(table.last_token_for_row[1], 0);
}

#[test]
fn cas_claims_row_from_retired_token() {
    let mut table = table();
    table.record_submission(0, 7);
    assert_eq!(table.last_token_for_row[0], 7);
    assert_eq!(table.reserve_row_with_backpressure(0, 7), ReserveStep::Claimed);
    assert_eq!(table.last_token_for_row[0], ROW_IN_USE);
}

#[test]
fn rows_in_flight_are_not_claimed() {
    let mut table = table();
    table.record_submission(0, 7);
    assert_eq!(table.reserve_row_with_backpressure(0, 6), ReserveStep::WaitFor { token: 7 });
    assert_eq!(table.reserve_row_with_backpressure(0, 8), ReserveStep::Claimed);
    assert_eq!(table.reserve_row_with_backpressure(0, 8), ReserveStep::Busy);
    let mut reservation = RowReservation::new();
    reservation.set(0);
    reservation.commit(&mut table, 9);
    assert_eq!(table.last_token_for_row[0], 9);
    let mut taken = RowReservation::new();
    taken.set(0);
    assert_eq!(taken.take(), Some(0));
    taken.abort(&mut table);
    assert_eq!(table.last_token_for_row[0], 9);
}

#[test]
fn rows_are_pinned_once() {
    let mut table = table();
    assert_eq!(table.pin_row(2), Ok(()));
    assert_eq!(table.pin_row(2), Err(FrameTableError::AlreadyPinned { row: 2 }));
    assert_eq!(table.assert_not_pinned(2), Err(FrameTableError::StillPinned { row: 2 }));
    assert!(!table.is_pinned(1));
    table.unpin_row(2);
    assert_eq!(table.assert_not_pinned(2), Ok(()));
    assert_eq!(table.pinned_rows, 0);
}

#[test]
fn rows_go_round_the_ring() {
    let mut table = table();
    assert_eq!(table.last_prologue_row(), None);
    let rows: Vec<u32> = (0..6).map(|_| table.next_row()).collect();
    assert_eq!(rows, vec![0, 1, 2, 3, 0, 1]);
    assert_eq!(table.active_row(), 1);
    assert_eq!(table.last_prologue_row(), Some(1));
    table.submission_counter = u32::MAX;
    table.next_row();
    assert_eq!(table.submission_counter, 0);
}

#[test]
fn rows_lie_behind_the_selectors() {
    let layout = layout();
    assert_eq!(layout.staging_selector_byte_offset(3), 12);
    assert_eq!(layout.staging_row_payload_byte_offset(0), 16);
    assert_eq!(layout.staging_row_payload_byte_offset(2), 16 + 2 * 8 * 4);
    assert_eq!(layout.copied_words(5), 5);
    assert_eq!(layout.copied_words(50), 8);
}

#[test]
fn payloads_touch_their_row_and_selector_alone() {
    let table = table();
    let mut staging = vec![9u32; 36];
    table.write_row_payload(&mut staging, &vec![1, 2, 3], 1);
    assert_eq!(staging[1], 1);
    assert_eq!(staging[0], 9);
    assert_eq!(&staging[12..15], &[1, 2, 3]);
    assert_eq!(&staging[4..12], &[9; 8]);
    assert_eq!(&staging[20..36], &[9; 16]);
}

#[test]
fn prologue_needs_both_buffers() {
    let table = table();
    let mut calls: Vec<Call> = Vec::new();
    let result = table.record_prologue_gpu_copies(&HashMap::new(), &mut calls, 3, 0);
    assert_eq!(result, Err(FrameTableError::MissingDeviceTable));
    let mut buffers = BufferTable::new();
    let selector = buffers.register_table_buffer(1, 71, 1, 0);
    let only_table = ContextFrameTable::new(layout(), 99, selector, 0, 1, 50);
    let result = only_table.record_prologue_gpu_copies(&buffers.entries, &mut calls, 3, 0);
    assert_eq!(result, Err(FrameTableError::MissingSelector));
    assert!(calls.is_empty());
}

#[test]
fn prologue_copies_the_row_and_its_index() {
    let mut buffers = BufferTable::new();
    let selector = buffers.register_table_buffer(1, 71, 1, 0);
    let device_table = buffers.register_table_buffer(1, 72, 32, 1);
    let table = ContextFrameTable::new(layout(), selector, device_table, 0, 1, 50);
    let mut calls: Vec<Call> = Vec::new();
    let mut staging = vec![0u32; 36];
    table.record_prologue(&buffers.entries, &mut calls, &mut staging, &vec![5, 6], 2).unwrap();
    assert_eq!(staging[2], 2);
    assert_eq!(&staging[20..22], &[5, 6]);
    let copies: Vec<Call> =
        calls.iter().copied().filter(|c| matches!(c, Call::CopyBufferRegion { .. })).collect();
    assert_eq!(
        copies,
        vec![
            Call::CopyBufferRegion { dst: 72, dst_offset: 64, src: 50, src_offset: 80, size: 8 },
            Call::CopyBufferRegion { dst: 71, dst_offset: 0, src: 50, src_offset: 8, size: 4 },
        ]
    );
    let mut again: Vec<Call> = Vec::new();
    table.sync_table_row_to_device(&buffers.entries, &mut again, &mut staging, &vec![7]).unwrap();
    assert_eq!(staging[4], 7);
    assert!(again.contains(&Call::CopyBufferRegion {
        dst: 72,
        dst_offset: 0,
        src: 50,
        src_offset: 16,
        size: 4,
    }));
}

#[test]
fn legacy_states_map_to_sides() {
    assert_eq!(legacy_state_to_barrier(ResourceState::CopyDest), (SYNC_COPY, ACCESS_COPY_DEST));
    assert_eq!(legacy_state_to_barrier(ResourceState::CopySource), (SYNC_COPY, ACCESS_COPY_SOURCE));
}

#[test]
fn first_staging_command_counts() {
    let staging = || GpuCommand::FrameTableStaging { words: vec![1] };
    let commands = vec![GpuCommand::Barrier, staging(), staging()];
    assert_eq!(extract_staging_from_commands(&commands), Some(1));
    assert_eq!(extract_staging_from_commands(&vec![GpuCommand::Barrier]), None);
    let graph = vec![
        GraphCommand::Render { target: 1, commands: Vec::new(), stages_frame_table: false },
        GraphCommand::Compute(staging()),
    ];
    assert_eq!(extract_staging_from_graph(&graph), Some(1));
}
