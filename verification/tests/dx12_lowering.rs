use goldy::dx12::barriers::{
    is_sync_access_paired, ACCESS_COMMON, ACCESS_COPY_DEST, ACCESS_COPY_SOURCE,
    ACCESS_DEPTH_STENCIL_WRITE, ACCESS_NO_ACCESS, ACCESS_RENDER_TARGET, ACCESS_SHADER_RESOURCE,
    ACCESS_UNORDERED_ACCESS, LAYOUT_COPY_DEST, LAYOUT_UNDEFINED, SYNC_ALL, SYNC_COPY, SYNC_NONE,
    SYNC_PIXEL_SHADING, SYNC_VERTEX_SHADING,
};
use goldy::dx12::lowering::{
    slot_usage_to_dx12_access_for_buffer, slot_usage_to_dx12_sync, texture_barrier_state_for_layout,
    texture_barrier_state_for_usage, NodeAccess, SlotUsageSet, UsageKindFlags,
};

fn slot(access: NodeAccess, kinds: UsageKindFlags) -> SlotUsageSet {
    let mut s = SlotUsageSet::new();
    s.merge(access, kinds);
    s
}

fn has(mask: u32, bit: u32) -> bool {
    mask & bit != 0
}

/// A non-storage (upload or uniform) buffer must never carry unordered-access or
/// copy-destination bits: the debug layer rejects such barriers.
#[test]
fn non_storage_buffer_never_emits_uav_or_copy_dest() {
    let compute_write = slot(NodeAccess::Write, UsageKindFlags::compute());
    let access = slot_usage_to_dx12_access_for_buffer(&compute_write, false);
    assert!(!has(access, ACCESS_UNORDERED_ACCESS), "non-storage buffer must not get UNORDERED_ACCESS");

    let transfer_write = slot(NodeAccess::Write, UsageKindFlags::transfer());
    let access = slot_usage_to_dx12_access_for_buffer(&transfer_write, false);
    assert!(!has(access, ACCESS_COPY_DEST), "non-storage buffer must not get COPY_DEST");

    let mut combined = SlotUsageSet::new();
    combined.merge(NodeAccess::Write, UsageKindFlags::compute().union(UsageKindFlags::transfer()));
    let access = slot_usage_to_dx12_access_for_buffer(&combined, false);
    assert!(!has(access, ACCESS_UNORDERED_ACCESS));
    assert!(!has(access, ACCESS_COPY_DEST));
    assert!(has(access, ACCESS_SHADER_RESOURCE));
    assert!(has(access, ACCESS_COPY_SOURCE));
}

#[test]
fn storage_buffer_compute_write_keeps_uav() {
    let compute_write = slot(NodeAccess::Write, UsageKindFlags::compute());
    let access = slot_usage_to_dx12_access_for_buffer(&compute_write, true);
    assert!(has(access, ACCESS_UNORDERED_ACCESS));
    assert!(has(access, ACCESS_SHADER_RESOURCE));
}

#[test]
fn storage_buffer_compute_read_is_srv_only() {
    let compute_read = slot(NodeAccess::Read, UsageKindFlags::compute());
    let access = slot_usage_to_dx12_access_for_buffer(&compute_read, true);
    assert!(has(access, ACCESS_SHADER_RESOURCE));
    assert!(!has(access, ACCESS_UNORDERED_ACCESS));
}

#[test]
fn storage_buffer_transfer_direction() {
    let w = slot(NodeAccess::Write, UsageKindFlags::transfer());
    assert!(has(slot_usage_to_dx12_access_for_buffer(&w, true), ACCESS_COPY_DEST));
    let r = slot(NodeAccess::Read, UsageKindFlags::transfer());
    assert!(has(slot_usage_to_dx12_access_for_buffer(&r, true), ACCESS_COPY_SOURCE));
}

#[test]
fn render_buffer_read_is_shader_resource() {
    let render_read = slot(NodeAccess::Read, UsageKindFlags::render());
    let access = slot_usage_to_dx12_access_for_buffer(&render_read, false);
    assert!(has(access, ACCESS_SHADER_RESOURCE));
    assert!(!has(access, ACCESS_RENDER_TARGET));
    assert!(!has(access, ACCESS_DEPTH_STENCIL_WRITE));
}

#[test]
fn empty_usage_is_common() {
    let empty = SlotUsageSet::new();
    assert_eq!(slot_usage_to_dx12_access_for_buffer(&empty, false), ACCESS_COMMON);
    assert_eq!(slot_usage_to_dx12_sync(&empty, false), SYNC_ALL);
}

#[test]
fn render_buffer_sync_is_non_zero() {
    let render_read = slot(NodeAccess::Read, UsageKindFlags::render());
    let sync = slot_usage_to_dx12_sync(&render_read, false);
    assert_ne!(sync, 0, "render buffer usage must have a valid sync stage");
    assert!(sync & SYNC_VERTEX_SHADING != 0);
    assert!(sync & SYNC_PIXEL_SHADING != 0);
}

#[test]
fn nonempty_usage_has_paired_sync_and_access() {
    let cases = [
        slot(NodeAccess::Write, UsageKindFlags::compute()),
        slot(NodeAccess::Read, UsageKindFlags::compute()),
        slot(NodeAccess::Write, UsageKindFlags::transfer()),
        slot(NodeAccess::Read, UsageKindFlags::transfer()),
        slot(NodeAccess::Read, UsageKindFlags::render()),
    ];
    for (storage, set) in cases.iter().flat_map(|s| [(true, s), (false, s)]) {
        let access = slot_usage_to_dx12_access_for_buffer(set, storage);
        let sync = slot_usage_to_dx12_sync(set, storage);
        if access != ACCESS_COMMON {
            assert_ne!(
                sync, 0,
                "non-COMMON access {access:#x} (storage={storage}) must have a sync stage"
            );
        }
    }
}

#[test]
fn lowered_sides_can_be_paired() {
    for kinds in [
        UsageKindFlags::empty(),
        UsageKindFlags::compute(),
        UsageKindFlags::transfer(),
        UsageKindFlags::render(),
        UsageKindFlags::compute().union(UsageKindFlags::render()),
    ] {
        for access in [NodeAccess::Read, NodeAccess::Write] {
            for storage in [true, false] {
                let set = slot(access, kinds);
                assert!(is_sync_access_paired(
                    slot_usage_to_dx12_sync(&set, storage),
                    slot_usage_to_dx12_access_for_buffer(&set, storage),
                ));
            }
        }
    }
    assert!(!is_sync_access_paired(SYNC_NONE, ACCESS_COMMON));
    assert!(is_sync_access_paired(SYNC_NONE, ACCESS_NO_ACCESS));
}

#[test]
fn layouts_fix_sync_and_access() {
    let dest = texture_barrier_state_for_layout(LAYOUT_COPY_DEST);
    assert_eq!((dest.sync, dest.access, dest.layout), (SYNC_COPY, ACCESS_COPY_DEST, LAYOUT_COPY_DEST));
    let undefined = texture_barrier_state_for_layout(LAYOUT_UNDEFINED);
    assert_eq!((undefined.sync, undefined.access), (SYNC_ALL, ACCESS_COMMON));
    let write = slot(NodeAccess::Write, UsageKindFlags::transfer());
    assert_eq!(texture_barrier_state_for_usage(&write, true).layout, LAYOUT_COPY_DEST);
}
