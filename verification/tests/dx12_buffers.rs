use std::collections::HashMap;

use goldy::dx12::buffer::{
    align_reserved_cap, num_tiles_for_bytes, plan_create, uniform_buffer_allocation_width,
    BufferError, BufferTable, DataAccess, DescriptorWrite, HeapType, OversubscribedReason,
    BUFFER_TILE_BYTES,
};
use goldy::dx12::buffer_io::{
    record_chunk, record_readback, ReadPlan, WritePlan, UPLOAD_CHUNK_SIZE,
};
use goldy::dx12::buffer_lifecycle::{
    create_with_capacity, plan_reserved, resize_fence, resize_signal, Released, ReservedSupport,
};
use goldy::dx12::buffer_resize::{record_resize, resize_contents, ResizeContents};
use goldy::dx12::buffer_tiles::TileChange;
use goldy::dx12::command_list::Call;
use goldy::dx12::commands::{RenderBinding, ResourceCategory};
use goldy::dx12::context::PendingDeletion;
use goldy::dx12::frame_table::{ContextFrameTable, FrameTableError, FrameTableLayout};
use goldy::dx12::frame_table_init::{
    bind_indices, buffer_stride_for_bindless_index, descriptor_offset, ensure_legacy_frame_table,
    prepare_render_commands, staging_buffer_size, table_buffer_size, InitAction, InitStep,
    LegacyTable, MadeResource, NoBindlessOffset, TableInit,
};
use goldy::dx12::types::{BufferFlags, Tile};

const TILE: u64 = BUFFER_TILE_BYTES as u64;

fn flags(cpu_readable: bool) -> BufferFlags {
    BufferFlags { cpu_readable, cpu_writable: false }
}

fn support() -> Option<ReservedSupport> {
    Some(ReservedSupport { supports_reserved_buffers: true, has_tile_pool: true, disabled: false })
}

fn storage(table: &mut BufferTable, size: u64, cpu_readable: bool) -> u64 {
    let plan =
        plan_create(true, 1, size, size, DataAccess::Scattered, Some(16), flags(cpu_readable)).unwrap();
    let readback = if cpu_readable { Some(501) } else { None };
    table.finish_create(plan, 500, readback, 20, 21).0
}

fn uniform(table: &mut BufferTable, size: u64) -> u64 {
    let plan = plan_create(true, 1, size, size, DataAccess::Broadcast, None, flags(false)).unwrap();
    table.finish_create(plan, 600, None, 30, 31).0
}

fn reserved(table: &mut BufferTable, size: u64, capacity: u64) -> u64 {
    let plan = plan_reserved(support(), 1, size, capacity, Some(16), flags(false)).unwrap();
    let tiles: Vec<Tile> =
        (0..plan.initial_tiles).map(|i| Tile { heap: 7, offset: i * TILE }).collect();
    table.finish_reserved(plan, 700, &tiles, 40, 41).0
}

#[test]
fn buffers_are_created_with_descriptors() {
    let mut table = BufferTable::new();
    let plan =
        plan_create(true, 1, 64, 128, DataAccess::Scattered, Some(16), flags(true)).unwrap();
    assert_eq!(plan.resources.main.heap, HeapType::Default);
    assert_eq!(plan.resources.readback.unwrap().heap, HeapType::Readback);
    let (handle, writes) = table.finish_create(plan, 500, Some(501), 20, 21);
    assert_eq!(handle, 1);
    assert_eq!(
        writes,
        vec![
            DescriptorWrite::BufferUav {
                slot: 20,
                resource: 500,
                first_element: 0,
                num_elements: 4,
                stride: 16,
            },
            DescriptorWrite::BufferSrv {
                slot: 21,
                resource: 500,
                first_element: 0,
                num_elements: 4,
                stride: 16,
            },
        ]
    );
    assert_eq!((table.size(handle), table.capacity(handle)), (64, 128));
    assert_eq!(table.bindless_index(handle), Some(20));
    assert_eq!(table.bindless_srv_index(handle), Some(21));
    assert_eq!(table.size(99), 0);
}

#[test]
fn uniform_buffers_are_widened() {
    assert_eq!(uniform_buffer_allocation_width(64, 64), 256);
    assert_eq!(uniform_buffer_allocation_width(257, 300), 512);
    assert_eq!(uniform_buffer_allocation_width(64, 1024), 1024);
    let plan = plan_create(true, 1, 64, 64, DataAccess::Broadcast, None, flags(false)).unwrap();
    assert_eq!(plan.resources.main.heap, HeapType::Upload);
    assert_eq!(plan.allocation_size, 256);
    let signal = plan.oversubscribed();
    assert_eq!((signal.reason, signal.size_hint), (OversubscribedReason::BufferHeap, 256));
    assert_eq!(
        plan_create(true, 1, 64, 64, DataAccess::Broadcast, None, flags(true)),
        Err(BufferError::CpuReadableNotStorage)
    );
    assert_eq!(
        plan_create(false, 1, 64, 64, DataAccess::Scattered, None, flags(false)),
        Err(BufferError::InvalidDevice)
    );
}

#[test]
fn tiles_are_whole() {
    assert_eq!(num_tiles_for_bytes(0), 0);
    assert_eq!(num_tiles_for_bytes(1), 1);
    assert_eq!(num_tiles_for_bytes(TILE), 1);
    assert_eq!(align_reserved_cap(TILE + 1), 2 * TILE);
}

#[test]
fn writes_are_staged_in_chunks() {
    let mut table = BufferTable::new();
    let big = storage(&mut table, UPLOAD_CHUNK_SIZE + 32, false);
    let small = uniform(&mut table, 64);
    match table.plan_write(big, 16, UPLOAD_CHUNK_SIZE + 8, 10).unwrap() {
        WritePlan::Staged { upload, width, chunks, next_fence_value, .. } => {
            assert_eq!((upload, width), (None, UPLOAD_CHUNK_SIZE));
            assert_eq!(chunks.len(), 2);
            assert_eq!((chunks[0].dst_offset, chunks[0].fence_value), (16, 11));
            assert_eq!((chunks[1].first, chunks[1].size), (UPLOAD_CHUNK_SIZE, 8));
            assert_eq!(chunks[1].fence_value, 13);
            assert_eq!(next_fence_value, 14);
            let calls = record_chunk(500, 800, &chunks[1]);
            assert!(calls.iter().any(|c| matches!(
                c,
                Call::CopyBufferRegion { dst: 500, src: 800, src_offset: 0, size: 8, .. }
            )));
        }
        _ => panic!("a storage buffer is staged"),
    }
    assert!(matches!(
        table.plan_write(small, 4, 8, 0),
        Ok(WritePlan::Mapped { resource: 600, offset: 4, size: 8 })
    ));
    assert!(matches!(table.plan_write(small, 0, 0, 0), Ok(WritePlan::Nothing)));
    assert!(matches!(table.plan_write(small, 60, 8, 0), Err(BufferError::OutOfBounds)));
    assert!(matches!(table.plan_write(99, 0, 8, 0), Err(BufferError::InvalidBuffer)));
    let upload = table.ensure_upload_buffer(big, true, 100).unwrap().unwrap();
    assert_eq!((upload.heap, upload.width), (HeapType::Upload, 100));
    assert!(table.set_upload_buffer(big, 801, 100, 5).is_none());
    assert_eq!(table.ensure_upload_buffer(big, true, 100), Ok(None));
    assert_eq!(table.ensure_upload_buffer(big, false, 101), Err(BufferError::InvalidDevice));
    assert_eq!(table.ensure_upload_buffer(big, true, 101).unwrap().unwrap().width, 101);
    assert_eq!(
        table.set_upload_buffer(big, 802, 101, 5),
        Some((4, PendingDeletion::StandaloneResource(801)))
    );
}

#[test]
fn chunks_fit_the_upload_buffer() {
    let mut table = BufferTable::new();
    let buffer = storage(&mut table, 2048, false);
    let staged = |table: &BufferTable, len: u64| match table.plan_write(buffer, 0, len, 1).unwrap() {
        WritePlan::Staged { upload, width, chunks, .. } => (upload, width, chunks),
        _ => panic!("a storage buffer is staged"),
    };
    let (upload, width, _) = staged(&table, 4);
    assert_eq!((upload, width), (None, 4));
    assert!(table.set_upload_buffer(buffer, 900, width, 1).is_none());
    assert_eq!(staged(&table, 4).0, Some(900));
    let (upload, width, chunks) = staged(&table, 1024);
    assert_eq!((upload, width, chunks.len(), chunks[0].size), (None, 1024, 1, 1024));
    assert_eq!(
        table.set_upload_buffer(buffer, 901, width, 0),
        Some((0, PendingDeletion::StandaloneResource(900)))
    );
    assert_eq!(staged(&table, 1024).0, Some(901));
    assert_eq!(staged(&table, 8).0, Some(901));
    let entry = &table.entries[&buffer];
    assert_eq!((entry.upload_buffer, entry.upload_width), (Some(901), 1024));
}

/// The bytes of a buffer and of the upload buffer of a write, after its chunks.
fn written(table: &mut BufferTable, buffer: u64, made: u64, bytes: &mut [u8], data: &[u8]) {
    match table.plan_write(buffer, 0, data.len() as u64, 1).unwrap() {
        WritePlan::Staged { upload, width, chunks, .. } => {
            if upload.is_none() {
                table.set_upload_buffer(buffer, made, width, 1);
            }
            let mut staging = vec![0; table.entries[&buffer].upload_width as usize];
            for chunk in &chunks {
                let (first, size) = (chunk.first as usize, chunk.size as usize);
                staging[..size].copy_from_slice(&data[first..first + size]);
                let to = chunk.dst_offset as usize;
                bytes[to..to + size].copy_from_slice(&staging[..size]);
            }
        }
        _ => panic!("a storage buffer is staged"),
    }
}

#[test]
fn later_writes_are_read_back() {
    let mut table = BufferTable::new();
    let buffer = storage(&mut table, 2048, false);
    let mut bytes = vec![3; 2048];
    written(&mut table, buffer, 900, &mut bytes, &[7; 4]);
    assert_eq!(bytes[..5], [7, 7, 7, 7, 3]);
    assert_eq!(table.entries[&buffer].upload_width, 4);
    written(&mut table, buffer, 901, &mut bytes, &[9; 1024]);
    assert_eq!(bytes[..1024], [9; 1024]);
    assert_eq!(bytes[1024..], [3; 1024]);
    assert_eq!(table.entries[&buffer].upload_buffer, Some(901));
    assert!(matches!(
        table.read_to_cpu(buffer, true, 1024),
        Ok(ReadPlan::Staged { resource: 500, len: 1024 })
    ));
}

#[test]
fn reads_go_the_way_the_buffer_allows() {
    let mut table = BufferTable::new();
    let coherent = storage(&mut table, 64, true);
    let plain = storage(&mut table, 64, false);
    let mapped = uniform(&mut table, 64);
    assert_eq!(table.read_coherent(coherent, 0, 64), Ok(()));
    assert_eq!(table.read_coherent(coherent, 8, 64), Err(BufferError::OutOfBounds));
    assert_eq!(table.read_coherent(plain, 0, 8), Err(BufferError::NotCpuReadable));
    assert!(matches!(
        table.read_to_cpu(coherent, true, 64),
        Ok(ReadPlan::Coherent { resource: 500, readback: 501, .. })
    ));
    assert!(matches!(table.read_to_cpu(plain, true, 64), Ok(ReadPlan::Staged { resource: 500, len: 64 })));
    assert!(matches!(table.read_to_cpu(mapped, true, 64), Ok(ReadPlan::Mapped { resource: 600, len: 64 })));
    assert!(matches!(table.read_to_cpu(99, true, 64), Err(BufferError::InvalidBuffer)));
    let mut calls = Vec::new();
    record_readback(&mut calls, 500, 501, 16);
    assert!(calls.iter().any(|c| matches!(
        c,
        Call::CopyBufferRegion { dst: 501, src: 500, size: 16, .. }
    )));
    let mut copied = Vec::new();
    assert_eq!(table.emit_copy_coherent_readback(coherent, &mut copied), Ok(()));
    assert!(!copied.is_empty());
    let cleared = table.clear(plain, Some(999), 16, 8).unwrap();
    assert!(cleared.iter().any(|c| matches!(
        c,
        Call::CopyBufferRegion { dst: 500, dst_offset: 16, src: 999, size: 8, .. }
    )));
    assert!(table.clear(99, Some(999), 0, 8).is_err());
}

#[test]
fn resizes_keep_the_old_bytes() {
    let calls = record_resize(1, 2, 9, 64, 96, true);
    assert!(calls.iter().any(|c| matches!(
        c,
        Call::CopyBufferRegion { dst: 2, dst_offset: 0, src: 1, src_offset: 0, size: 64 }
    )));
    assert!(calls.iter().any(|c| matches!(
        c,
        Call::CopyBufferRegion { dst: 2, dst_offset: 64, src: 9, size: 32, .. }
    )));
    assert_eq!(resize_contents(true, 64, 96, true), ResizeContents::OnDevice);
    assert_eq!(resize_contents(true, 64, 96, false), ResizeContents::Nothing);
    assert_eq!(
        resize_contents(false, 64, 96, true),
        ResizeContents::Mapped { copied: 64, zero_from: 64, zeroed: 32 }
    );
    assert_eq!(
        resize_contents(false, 64, 16, true),
        ResizeContents::Mapped { copied: 16, zero_from: 64, zeroed: 0 }
    );
    assert_eq!(resize_contents(false, 0, 16, true), ResizeContents::Nothing);
    assert_eq!(resize_fence(10, 3, true), (11, 12));
    assert_eq!(resize_signal(10), 11);
    assert_eq!(resize_fence(10, 3, false), (3, 10));
}

#[test]
fn views_move_with_their_parent() {
    let mut table = BufferTable::new();
    let parent = storage(&mut table, 64, false);
    let plan = table.plan_view(parent, 16, 32, Some(16)).unwrap();
    assert_eq!((plan.first_element, plan.num_elements), (1, 2));
    let (view, writes) = table.finish_view(plan, Some((50, 51)));
    assert_eq!(writes.len(), 2);
    assert_eq!(table.size(view), 32);
    let resize = table.plan_resize(true, 1, parent, 128).unwrap().unwrap();
    let resized = table.finish_resize(parent, resize, 555, None);
    assert_eq!(resized.patch.views, vec![view]);
    assert_eq!(table.entries[&view].resource, 555);
    assert_eq!(table.entries[&parent].size, 128);
    assert_eq!(table.bindless_index(parent), Some(20));
    assert!(matches!(
        resized.replaced,
        PendingDeletion::ReplacedBufferGpu { resource: 500, reserved: false, .. }
    ));
    assert!(matches!(table.plan_resize(true, 1, view, 64), Err(BufferError::IsView)));
    assert!(matches!(table.plan_resize(true, 2, parent, 64), Err(BufferError::DifferentDevice)));
}

#[test]
fn views_that_are_refused() {
    let mut table = BufferTable::new();
    let parent = storage(&mut table, 64, false);
    let flat = uniform(&mut table, 64);
    assert_eq!(table.plan_view(99, 0, 16, Some(16)), Err(BufferError::InvalidParent));
    assert_eq!(table.plan_view(flat, 0, 16, Some(16)), Err(BufferError::ParentNotStorage));
    assert_eq!(table.plan_view(parent, 48, 32, Some(16)), Err(BufferError::ExceedsParent));
    assert_eq!(table.plan_view(parent, 8, 16, Some(16)), Err(BufferError::OffsetNotAligned));
    assert_eq!(table.plan_view(parent, 0, 16, Some(0)), Err(BufferError::ZeroStride));
}

#[test]
fn reserved_buffers_follow_their_size() {
    let mut table = BufferTable::new();
    let buffer = reserved(&mut table, TILE, 3 * TILE);
    assert_eq!(table.capacity(buffer), 3 * TILE);
    let grow = table.plan_logical_size(support(), 1, buffer, 2 * TILE + 16).unwrap();
    assert_eq!(grow.tiles, TileChange::MapTiles { first: 1, count: 2 });
    let tiles = vec![Tile { heap: 7, offset: TILE }, Tile { heap: 7, offset: 2 * TILE }];
    assert!(table.apply_logical_size(buffer, grow.new_size, grow.tiles, &tiles).is_empty());
    assert_eq!(table.size(buffer), 2 * TILE + 16);
    let shrink = table.plan_logical_size(support(), 1, buffer, 16).unwrap();
    assert_eq!(shrink.tiles, TileChange::UnmapTiles { first: 1, count: 2 });
    let freed = table.apply_logical_size(buffer, 16, shrink.tiles, &Vec::new());
    assert_eq!(freed, tiles);
    assert!(matches!(
        table.plan_logical_size(support(), 1, buffer, 4 * TILE),
        Err(BufferError::ExceedsAllocation)
    ));
    assert!(matches!(
        table.plan_logical_size(support(), 1, buffer, 0),
        Err(BufferError::ZeroSize)
    ));
    assert!(matches!(
        table.plan_logical_size(support(), 1, buffer, 17),
        Err(BufferError::NotDivisibleByStride)
    ));
    assert!(matches!(
        table.plan_logical_size(support(), 2, buffer, 16),
        Err(BufferError::DifferentDevice)
    ));
    assert!(matches!(
        table.plan_logical_size(None, 1, buffer, 16),
        Err(BufferError::InvalidDevice)
    ));
}

#[test]
fn unused_tiles_are_given_back() {
    let mut table = BufferTable::new();
    let buffer = reserved(&mut table, 3 * TILE, 4 * TILE);
    let unused = table.hint_unused_above(buffer, true, TILE + 1);
    assert_eq!(unused.runs, vec![(2, 1)]);
    assert_eq!(unused.freed, vec![Tile { heap: 7, offset: 2 * TILE }]);
    assert!(table.hint_unused_above(buffer, true, TILE + 1).runs.is_empty());
}

#[test]
fn capacity_decides_the_kind() {
    let (is_reserved, _) =
        create_with_capacity(support(), TILE, 8 * TILE, DataAccess::Scattered, flags(false));
    assert!(is_reserved);
    let (readable, _) =
        create_with_capacity(support(), TILE, 8 * TILE, DataAccess::Scattered, flags(true));
    assert!(!readable);
    let (unknown, _) =
        create_with_capacity(None, TILE, 8 * TILE, DataAccess::Scattered, flags(false));
    assert!(!unknown);
}

#[test]
fn destroyed_buffers_wait_for_the_device() {
    let mut table = BufferTable::new();
    let buffer = storage(&mut table, 64, true);
    match table.destroy(buffer, Some(9)) {
        Released::Queue { fence_value, deletion, .. } => {
            assert_eq!(fence_value, 8);
            assert!(matches!(
                deletion,
                PendingDeletion::Buffer { resource: 500, coherent_readback: Some(501), .. }
            ));
        }
        _ => panic!("the buffer is queued"),
    }
    assert!(table.entries.is_empty());
    assert!(matches!(table.destroy(buffer, Some(9)), Released::Nothing));
}

fn frame_table(selector: u64, device_table: u64) -> ContextFrameTable {
    let layout = FrameTableLayout {
        max_rows: 4,
        row_stride: 8,
        table_u32s: 32,
        staging_selector_u32s: 4,
        user_slot_base: 2,
    };
    ContextFrameTable::new(layout, selector, device_table, 0, 1, 50)
}

#[test]
fn table_buffers_are_rolled_back() {
    let mut table = BufferTable::new();
    let kept = storage(&mut table, 64, false);
    let layout = frame_table(0, 0).layout;
    let first = TableInit::Selector;
    assert_eq!(first.action(&layout), InitAction::MakeTableBuffer { num_u32s: 1 });
    let made = MadeResource { resource: 71, slot: 0 };
    let second = match first.init_context(&mut table, 1, layout, Some(made)) {
        InitStep::Next { init } => init,
        _ => panic!("the selector comes first"),
    };
    assert_eq!(second.action(&layout), InitAction::MakeTableBuffer { num_u32s: 32 });
    let made = MadeResource { resource: 72, slot: 1 };
    let third = match second.init_context(&mut table, 1, layout, Some(made)) {
        InitStep::Next { init } => init,
        _ => panic!("the table comes second"),
    };
    assert_eq!(third.action(&layout), InitAction::MakeStaging { bytes: 256 });
    let (selector, device_table) = match third {
        TableInit::Staging { selector, device_table, .. } => (selector, device_table),
        _ => panic!("the staging memory comes last"),
    };
    assert_eq!(table.size(device_table), 256);
    assert_eq!(table.entries.len(), 3);
    match third.init_context(&mut table, 1, layout, None) {
        InitStep::Failed { released } => assert_eq!(released, vec![selector, device_table]),
        _ => panic!("nothing was made"),
    }
    assert_eq!(table.entries.len(), 1);
    assert_eq!(table.size(kept), 64);
    let frames = frame_table(selector, device_table);
    assert!(matches!(
        frames.bind_to_bindless_heap(&table.entries),
        Err(FrameTableError::MissingSelector)
    ));
}

#[test]
fn created_tables_are_bound_and_destroyed() {
    let mut table = BufferTable::new();
    let layout = frame_table(0, 0).layout;
    let mut init = TableInit::Selector;
    let mut frames = None;
    for i in 0..3 {
        let made = MadeResource { resource: 80 + i, slot: i as u32 };
        match init.init_context(&mut table, 1, layout, Some(made)) {
            InitStep::Next { init: next } => init = next,
            InitStep::Ready { table } => frames = Some(table),
            InitStep::Failed { .. } => panic!("everything was made"),
        }
    }
    let frames = frames.unwrap();
    assert_eq!(frames.staging, 82);
    let (first, second) = frames.bind_to_bindless_heap(&table.entries).unwrap();
    assert_eq!((first.slot, first.resource, first.num_u32s), (0, 80, 1));
    assert_eq!((second.slot, second.resource, second.num_u32s), (1, 81, 32));
    table.destroy_table_buffers(&frames);
    assert!(table.entries.is_empty());
    let mut devices = HashMap::new();
    devices.insert(1u64, ());
    let mut tables = HashMap::new();
    assert_eq!(ensure_legacy_frame_table(&devices, &tables, 1), Ok(LegacyTable::Create));
    tables.insert(1, frames);
    assert_eq!(ensure_legacy_frame_table(&devices, &tables, 1), Ok(LegacyTable::Present));
    assert_eq!(
        ensure_legacy_frame_table(&devices, &tables, 2),
        Err(FrameTableError::InvalidDevice { device: 2 })
    );
}

#[test]
fn standalone_staging_claims_the_next_row() {
    let mut frames = frame_table(1, 2);
    let staged = frames.write_staging_standalone(0).unwrap();
    assert_eq!(staged.row, 0);
    frames.record_submission(0, 3);
    assert_eq!(frames.write_staging_standalone(0).unwrap().row, 1);
    frames.pin_row(2).unwrap();
    assert_eq!(
        frames.write_staging_standalone(0).map(|s| s.row),
        Err(FrameTableError::StillPinned { row: 2 })
    );
}

#[test]
fn render_binds_name_bindless_slots() {
    let mut table = BufferTable::new();
    let buffer = storage(&mut table, 64, false);
    assert_eq!(bind_indices(&table.entries, &vec![buffer]), Ok(vec![20]));
    assert_eq!(
        bind_indices(&table.entries, &vec![99]),
        Err(NoBindlessOffset { buffer: 99 })
    );
    let prepared = prepare_render_commands(
        &table.entries,
        &vec![RenderBinding::Other, RenderBinding::BindResources { buffers: vec![buffer] }],
    );
    assert_eq!(prepared, Ok(vec![None, Some(vec![20])]));
    assert_eq!(
        buffer_stride_for_bindless_index(&table.entries, 1, 20, ResourceCategory::Scattered),
        Some(16)
    );
    assert_eq!(
        buffer_stride_for_bindless_index(&table.entries, 1, 99, ResourceCategory::Scattered),
        None
    );
    assert_eq!(descriptor_offset(3, 32), 96);
    assert_eq!((table_buffer_size(32), table_buffer_size(100)), (256, 400));
    assert_eq!((staging_buffer_size(10), staging_buffer_size(300)), (256, 300));
}
