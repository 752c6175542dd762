//! Lowering of resource usage to barrier stages, accesses and layouts.

use vstd::prelude::*;

use super::barriers::{
    sync_access_paired, ACCESS_COMMON, ACCESS_COPY_DEST, ACCESS_COPY_SOURCE, ACCESS_NO_ACCESS,
    ACCESS_DEPTH_STENCIL_WRITE, ACCESS_RENDER_TARGET, ACCESS_SHADER_RESOURCE, ACCESS_UNORDERED_ACCESS, LAYOUT_COMMON,
    LAYOUT_COPY_DEST, LAYOUT_COPY_SOURCE, LAYOUT_DIRECT_QUEUE_SHADER_RESOURCE,
    LAYOUT_DIRECT_QUEUE_UNORDERED_ACCESS, LAYOUT_RENDER_TARGET, LAYOUT_SHADER_RESOURCE,
    LAYOUT_UNORDERED_ACCESS, SYNC_ALL, SYNC_COMPUTE_SHADING, SYNC_COPY, SYNC_NONE,
    SYNC_PIXEL_SHADING, SYNC_RENDER_TARGET, SYNC_VERTEX_SHADING,
};

verus! {

/// How a graph node touches a resource.
#[derive(Clone, Copy, Debug, PartialEq, Eq, Structural)]
pub enum NodeAccess {
    Read,
    Write,
}

/// The kinds of work that touch a resource.
#[derive(Clone, Copy, Debug, PartialEq, Eq, Structural)]
pub struct UsageKindFlags {
    pub compute: bool,
    pub transfer: bool,
    pub render: bool,
}

impl UsageKindFlags {
    /// No kind of work.
    pub open spec fn none() -> UsageKindFlags {
        UsageKindFlags { compute: false, transfer: false, render: false }
    }

    /// The kinds in either set.
    pub open spec fn joined(self, other: UsageKindFlags) -> UsageKindFlags {
        UsageKindFlags {
            compute: self.compute || other.compute,
            transfer: self.transfer || other.transfer,
            render: self.render || other.render,
        }
    }

    /// No kind of use.
    pub fn empty() -> (kinds: UsageKindFlags)
        ensures
            kinds == UsageKindFlags::none(),
    {
        UsageKindFlags { compute: false, transfer: false, render: false }
    }

    /// Use by a compute shader.
    pub fn compute() -> (kinds: UsageKindFlags)
        ensures
            kinds == (UsageKindFlags { compute: true, transfer: false, render: false }),
    {
        UsageKindFlags { compute: true, transfer: false, render: false }
    }

    /// Use by a copy.
    pub fn transfer() -> (kinds: UsageKindFlags)
        ensures
            kinds == (UsageKindFlags { compute: false, transfer: true, render: false }),
    {
        UsageKindFlags { compute: false, transfer: true, render: false }
    }

    /// Use by a render pass.
    pub fn render() -> (kinds: UsageKindFlags)
        ensures
            kinds == (UsageKindFlags { compute: false, transfer: false, render: true }),
    {
        UsageKindFlags { compute: false, transfer: false, render: true }
    }

    /// The kinds of both.
    pub fn union(self, other: UsageKindFlags) -> (kinds: UsageKindFlags)
        ensures
            kinds == self.joined(other),
    {
        UsageKindFlags {
            compute: self.compute || other.compute,
            transfer: self.transfer || other.transfer,
            render: self.render || other.render,
        }
    }

    /// Whether there is no use at all.
    pub fn is_empty(&self) -> (empty: bool)
        ensures
            empty == (*self == UsageKindFlags::none()),
    {
        !self.compute && !self.transfer && !self.render
    }
}

/// Everything a graph does to one resource on one side of a barrier: the kinds of
/// work, and whether any of it writes.
#[derive(Clone, Copy, Debug, PartialEq, Eq, Structural)]
pub struct SlotUsageSet {
    pub access: NodeAccess,
    pub kinds: UsageKindFlags,
}

impl SlotUsageSet {
    /// The set before anything was merged into it.
    pub open spec fn unused() -> SlotUsageSet {
        SlotUsageSet { access: NodeAccess::Read, kinds: UsageKindFlags::none() }
    }

    /// The set with one more use in it: a write anywhere makes it a write.
    pub open spec fn merged(self, access: NodeAccess, kinds: UsageKindFlags) -> SlotUsageSet {
        SlotUsageSet {
            access: if access is Write {
                NodeAccess::Write
            } else {
                self.access
            },
            kinds: self.kinds.joined(kinds),
        }
    }

    /// A set without uses.
    pub fn new() -> (set: SlotUsageSet)
        ensures
            set == SlotUsageSet::unused(),
    {
        SlotUsageSet { access: NodeAccess::Read, kinds: UsageKindFlags::empty() }
    }

    /// Adds a use to the set.
    pub fn merge(&mut self, access: NodeAccess, kinds: UsageKindFlags)
        ensures
            *final(self) == old(self).merged(access, kinds),
    {
        match access {
            NodeAccess::Write => {
                self.access = NodeAccess::Write;
            },
            NodeAccess::Read => {},
        }
        self.kinds = self.kinds.union(kinds);
    }
}

/// The usage of one resource on both sides of a barrier.
#[derive(Clone, Copy, Debug, PartialEq, Eq, Structural)]
pub struct BarrierUsage {
    pub src: SlotUsageSet,
    pub dst: SlotUsageSet,
}

/// The stages in which a buffer is used: all of them where nothing is recorded,
/// else the stages of each recorded kind. Buffer reads of a render pass happen in
/// the vertex and pixel stages.
pub open spec fn buffer_sync(usage: SlotUsageSet) -> u32 {
    if usage.kinds == UsageKindFlags::none() {
        SYNC_ALL
    } else {
        (if usage.kinds.compute {
            SYNC_COMPUTE_SHADING
        } else {
            0
        }) | (if usage.kinds.transfer {
            SYNC_COPY
        } else {
            0
        }) | (if usage.kinds.render {
            SYNC_VERTEX_SHADING | SYNC_PIXEL_SHADING
        } else {
            0
        })
    }
}

/// The accesses made to a buffer. A buffer that is not a storage buffer is never
/// written by the GPU: whatever is recorded, it is a shader resource or a copy
/// source.
pub open spec fn buffer_access(usage: SlotUsageSet, is_storage: bool) -> u32 {
    let writes = is_storage && usage.access is Write;
    if usage.kinds == UsageKindFlags::none() {
        ACCESS_COMMON
    } else {
        (if !usage.kinds.compute {
            0
        } else if writes {
            ACCESS_UNORDERED_ACCESS | ACCESS_SHADER_RESOURCE
        } else {
            ACCESS_SHADER_RESOURCE
        }) | (if !usage.kinds.transfer {
            0
        } else if writes {
            ACCESS_COPY_DEST
        } else {
            ACCESS_COPY_SOURCE
        }) | (if usage.kinds.render {
            ACCESS_SHADER_RESOURCE
        } else {
            0
        })
    }
}

/// Lowers the usage of a buffer to its barrier stages.
pub fn slot_usage_to_dx12_sync(usage: &SlotUsageSet, is_storage: bool) -> (sync: u32)
    ensures
        sync == buffer_sync(*usage),
{
    if usage.kinds.is_empty() {
        return SYNC_ALL;
    }
    let a: u32 = if usage.kinds.compute { SYNC_COMPUTE_SHADING } else { 0 };
    let b: u32 = if usage.kinds.transfer { SYNC_COPY } else { 0 };
    let c: u32 = if usage.kinds.render { SYNC_VERTEX_SHADING | SYNC_PIXEL_SHADING } else { 0 };
    a | b | c
}

/// Lowers the usage of a buffer to its barrier accesses.
pub fn slot_usage_to_dx12_access_for_buffer(usage: &SlotUsageSet, is_storage: bool) -> (access: u32)
    ensures
        access == buffer_access(*usage, is_storage),
{
    if usage.kinds.is_empty() {
        return ACCESS_COMMON;
    }
    let writes = is_storage && matches!(usage.access, NodeAccess::Write);
    let compute: u32 = if !usage.kinds.compute {
        0
    } else if writes {
        ACCESS_UNORDERED_ACCESS | ACCESS_SHADER_RESOURCE
    } else {
        ACCESS_SHADER_RESOURCE
    };
    let transfer: u32 = if !usage.kinds.transfer {
        0
    } else if writes {
        ACCESS_COPY_DEST
    } else {
        ACCESS_COPY_SOURCE
    };
    let render: u32 = if usage.kinds.render { ACCESS_SHADER_RESOURCE } else { 0 };
    compute | transfer | render
}

/// What a barrier says of one side of a texture.
#[derive(Clone, Copy, Debug, PartialEq, Eq, Structural)]
pub struct TextureBarrierState {
    pub sync: u32,
    pub access: u32,
    pub layout: u32,
}

/// The side of a barrier that leaves `layout`.
pub open spec fn state_of_layout(layout: u32) -> TextureBarrierState {
    if layout == LAYOUT_COPY_SOURCE {
        TextureBarrierState { sync: SYNC_COPY, access: ACCESS_COPY_SOURCE, layout }
    } else if layout == LAYOUT_COPY_DEST {
        TextureBarrierState { sync: SYNC_COPY, access: ACCESS_COPY_DEST, layout }
    } else if layout == LAYOUT_DIRECT_QUEUE_UNORDERED_ACCESS || layout == LAYOUT_UNORDERED_ACCESS {
        TextureBarrierState {
            sync: SYNC_COMPUTE_SHADING,
            access: ACCESS_UNORDERED_ACCESS,
            layout: LAYOUT_DIRECT_QUEUE_UNORDERED_ACCESS,
        }
    } else if layout == LAYOUT_DIRECT_QUEUE_SHADER_RESOURCE || layout == LAYOUT_SHADER_RESOURCE {
        TextureBarrierState {
            sync: SYNC_COMPUTE_SHADING,
            access: ACCESS_SHADER_RESOURCE,
            layout: LAYOUT_DIRECT_QUEUE_SHADER_RESOURCE,
        }
    } else {
        TextureBarrierState { sync: SYNC_ALL, access: ACCESS_COMMON, layout }
    }
}

/// The side of a barrier that enters the state a texture needs for `usage`.
/// Transfers come before compute, compute before rendering.
pub open spec fn state_of_usage(usage: SlotUsageSet, is_storage: bool) -> TextureBarrierState {
    if usage.kinds.transfer && usage.access is Write {
        TextureBarrierState {
            sync: SYNC_COPY,
            access: ACCESS_COPY_DEST,
            layout: LAYOUT_COPY_DEST,
        }
    } else if usage.kinds.transfer {
        TextureBarrierState {
            sync: SYNC_COPY,
            access: ACCESS_COPY_SOURCE,
            layout: LAYOUT_COPY_SOURCE,
        }
    } else if usage.kinds.compute && usage.access is Write && is_storage {
        TextureBarrierState {
            sync: SYNC_COMPUTE_SHADING,
            access: ACCESS_UNORDERED_ACCESS,
            layout: LAYOUT_DIRECT_QUEUE_UNORDERED_ACCESS,
        }
    } else if usage.kinds.compute {
        TextureBarrierState {
            sync: SYNC_COMPUTE_SHADING,
            access: ACCESS_SHADER_RESOURCE,
            layout: LAYOUT_DIRECT_QUEUE_SHADER_RESOURCE,
        }
    } else if usage.kinds.render {
        TextureBarrierState {
            sync: SYNC_RENDER_TARGET,
            access: ACCESS_RENDER_TARGET,
            layout: LAYOUT_RENDER_TARGET,
        }
    } else {
        TextureBarrierState { sync: SYNC_ALL, access: ACCESS_COMMON, layout: LAYOUT_COMMON }
    }
}

/// The barrier side for a texture that was left in `layout`.
pub fn texture_barrier_state_for_layout(layout: u32) -> (state: TextureBarrierState)
    ensures
        state == state_of_layout(layout),
        sync_access_paired(state.sync, state.access),
{
    if layout == LAYOUT_COPY_SOURCE {
        TextureBarrierState { sync: SYNC_COPY, access: ACCESS_COPY_SOURCE, layout }
    } else if layout == LAYOUT_COPY_DEST {
        TextureBarrierState { sync: SYNC_COPY, access: ACCESS_COPY_DEST, layout }
    } else if layout == LAYOUT_DIRECT_QUEUE_UNORDERED_ACCESS || layout == LAYOUT_UNORDERED_ACCESS {
        TextureBarrierState {
            sync: SYNC_COMPUTE_SHADING,
            access: ACCESS_UNORDERED_ACCESS,
            layout: LAYOUT_DIRECT_QUEUE_UNORDERED_ACCESS,
        }
    } else if layout == LAYOUT_DIRECT_QUEUE_SHADER_RESOURCE || layout == LAYOUT_SHADER_RESOURCE {
        TextureBarrierState {
            sync: SYNC_COMPUTE_SHADING,
            access: ACCESS_SHADER_RESOURCE,
            layout: LAYOUT_DIRECT_QUEUE_SHADER_RESOURCE,
        }
    } else {
        TextureBarrierState { sync: SYNC_ALL, access: ACCESS_COMMON, layout }
    }
}

/// The barrier side for a texture that is about to be used as `usage` says.
pub fn texture_barrier_state_for_usage(usage: &SlotUsageSet, is_storage: bool) -> (state:
    TextureBarrierState)
    ensures
        state == state_of_usage(*usage, is_storage),
        sync_access_paired(state.sync, state.access),
{
    let writes = matches!(usage.access, NodeAccess::Write);
    if usage.kinds.transfer {
        if writes {
            TextureBarrierState {
                sync: SYNC_COPY,
                access: ACCESS_COPY_DEST,
                layout: LAYOUT_COPY_DEST,
            }
        } else {
            TextureBarrierState {
                sync: SYNC_COPY,
                access: ACCESS_COPY_SOURCE,
                layout: LAYOUT_COPY_SOURCE,
            }
        }
    } else if usage.kinds.compute && writes && is_storage {
        TextureBarrierState {
            sync: SYNC_COMPUTE_SHADING,
            access: ACCESS_UNORDERED_ACCESS,
            layout: LAYOUT_DIRECT_QUEUE_UNORDERED_ACCESS,
        }
    } else if usage.kinds.compute {
        TextureBarrierState {
            sync: SYNC_COMPUTE_SHADING,
            access: ACCESS_SHADER_RESOURCE,
            layout: LAYOUT_DIRECT_QUEUE_SHADER_RESOURCE,
        }
    } else if usage.kinds.render {
        TextureBarrierState {
            sync: SYNC_RENDER_TARGET,
            access: ACCESS_RENDER_TARGET,
            layout: LAYOUT_RENDER_TARGET,
        }
    } else {
        TextureBarrierState { sync: SYNC_ALL, access: ACCESS_COMMON, layout: LAYOUT_COMMON }
    }
}

/// The bits that the lowered masks can hold, in each combination.
proof fn lemma_mask_bits()
    ensures
        forall|a: u32, b: u32, c: u32|
            (a == 0 || a == 0x80) && (b == 0 || b == 0x200) && (c == 0 || c == 0x18) ==> (#[trigger] (a
                | b | c) == 0 <==> a == 0 && b == 0 && c == 0),
        forall|a: u32, b: u32, c: u32|
            (a == 0 || a == 0x80 || a == 0x90) && (b == 0 || b == 0x400 || b == 0x800) && (c == 0 || c
                == 0x80) ==> #[trigger] (a | b | c) < 0x1000 && ((a | b | c) & 0x10 == 0 <==> a
                != 0x90) && ((a | b | c) & 0x400 == 0 <==> b != 0x400) && ((a | b | c) & 0x80 == 0
                <==> a == 0 && c == 0) && ((a | b | c) & 0x800 == 0 <==> b != 0x800) && (a | b | c)
                & 0x28 == 0,
        SYNC_VERTEX_SHADING | SYNC_PIXEL_SHADING == 0x18,
        ACCESS_UNORDERED_ACCESS | ACCESS_SHADER_RESOURCE == 0x90,
{
    assert(forall|a: u32, b: u32, c: u32|
        (a == 0 || a == 0x80) && (b == 0 || b == 0x200) && (c == 0 || c == 0x18) ==> (#[trigger] (a
            | b | c) == 0 <==> a == 0 && b == 0 && c == 0)) by (bit_vector);
    assert(forall|a: u32, b: u32, c: u32|
        (a == 0 || a == 0x80 || a == 0x90) && (b == 0 || b == 0x400 || b == 0x800) && (c == 0 || c
            == 0x80) ==> #[trigger] (a | b | c) < 0x1000 && ((a | b | c) & 0x10 == 0 <==> a != 0x90)
            && ((a | b | c) & 0x400 == 0 <==> b != 0x400) && ((a | b | c) & 0x80 == 0 <==> a == 0 && c
            == 0) && ((a | b | c) & 0x800 == 0 <==> b != 0x800) && (a | b | c) & 0x28 == 0)
        by (bit_vector);
    assert(0x8u32 | 0x10u32 == 0x18u32) by (bit_vector);
    assert(0x10u32 | 0x80u32 == 0x90u32) by (bit_vector);
}

/// A lowered buffer usage always pairs its stages with its accesses, so a buffer
/// barrier can be built from it.
pub proof fn lowered_buffer_usage_is_paired(usage: SlotUsageSet, is_storage: bool)
    ensures
        buffer_sync(usage) != SYNC_NONE,
        buffer_access(usage, is_storage) != ACCESS_NO_ACCESS,
        sync_access_paired(buffer_sync(usage), buffer_access(usage, is_storage)),
{
    lemma_mask_bits();
}

/// A buffer that is not a storage buffer never gets unordered access or copy
/// destination access, whatever use of it is recorded.
pub proof fn non_storage_buffer_is_read_only(usage: SlotUsageSet)
    ensures
        buffer_access(usage, false) & ACCESS_UNORDERED_ACCESS == 0,
        buffer_access(usage, false) & ACCESS_COPY_DEST == 0,
{
    lemma_mask_bits();
    assert(0u32 & 0x10u32 == 0 && 0u32 & 0x400u32 == 0) by (bit_vector);
}

/// Which accesses a storage buffer gets: unordered access exactly for recorded
/// compute writes, copy destination exactly for recorded transfer writes, copy
/// source exactly for recorded transfer reads.
pub proof fn storage_buffer_access_direction(usage: SlotUsageSet)
    ensures
        buffer_access(usage, true) & ACCESS_UNORDERED_ACCESS != 0 <==> usage.kinds.compute
            && usage.access is Write,
        buffer_access(usage, true) & ACCESS_COPY_DEST != 0 <==> usage.kinds.transfer
            && usage.access is Write,
        buffer_access(usage, true) & ACCESS_COPY_SOURCE != 0 <==> usage.kinds.transfer
            && usage.access is Read,
        buffer_access(usage, true) & ACCESS_SHADER_RESOURCE != 0 <==> usage.kinds.compute
            || usage.kinds.render,
{
    lemma_mask_bits();
    assert(0u32 & 0x10u32 == 0 && 0u32 & 0x400u32 == 0 && 0u32 & 0x800u32 == 0 && 0u32 & 0x80u32
        == 0) by (bit_vector);
}

/// A buffer barrier never carries an attachment access, whatever is recorded.
pub proof fn buffer_access_is_never_an_attachment(usage: SlotUsageSet, is_storage: bool)
    ensures
        buffer_access(usage, is_storage) & ACCESS_RENDER_TARGET == 0,
        buffer_access(usage, is_storage) & ACCESS_DEPTH_STENCIL_WRITE == 0,
{
    lemma_mask_bits();
    let m = buffer_access(usage, is_storage);
    assert(0u32 & 0x28u32 == 0) by (bit_vector);
    assert(m & 0x28 == 0 ==> m & 0x8 == 0 && m & 0x20 == 0) by (bit_vector);
}

/// Which stages a barrier on a buffer waits for: those of each recorded kind and no
/// others, and all of them where nothing is recorded.
pub proof fn buffer_stages_follow_the_use(usage: SlotUsageSet)
    ensures
        !usage.kinds.compute && !usage.kinds.transfer && !usage.kinds.render ==> buffer_sync(usage)
            == SYNC_ALL,
        usage.kinds.compute || usage.kinds.transfer || usage.kinds.render ==> {
            &&& buffer_sync(usage) & SYNC_ALL == 0
            &&& buffer_sync(usage) & SYNC_COMPUTE_SHADING != 0 <==> usage.kinds.compute
            &&& buffer_sync(usage) & SYNC_COPY != 0 <==> usage.kinds.transfer
            &&& buffer_sync(usage) & SYNC_VERTEX_SHADING != 0 <==> usage.kinds.render
            &&& buffer_sync(usage) & SYNC_PIXEL_SHADING != 0 <==> usage.kinds.render
        },
{
    let a: u32 = if usage.kinds.compute { 0x80 } else { 0 };
    let b: u32 = if usage.kinds.transfer { 0x200 } else { 0 };
    let c: u32 = if usage.kinds.render { 0x8u32 | 0x10u32 } else { 0 };
    assert((a == 0 || a == 0x80) && (b == 0 || b == 0x200) && (c == 0 || c == 0x8u32 | 0x10u32)
        ==> {
        &&& (a | b | c) & 0x1 == 0
        &&& (a | b | c) & 0x80 != 0 <==> a != 0
        &&& (a | b | c) & 0x200 != 0 <==> b != 0
        &&& (a | b | c) & 0x8 != 0 <==> c != 0
        &&& (a | b | c) & 0x10 != 0 <==> c != 0
    }) by (bit_vector);
    assert(0x8u32 | 0x10u32 != 0) by (bit_vector);
}

/// What a texture is led to for a use: for a transfer the source or the destination of a
/// copy; else, for compute, unordered access where storage is written and a shader resource
/// where it is not; else, for rendering, a render target. Stage, access and layout agree.
pub proof fn texture_state_follows_the_use(usage: SlotUsageSet, is_storage: bool)
    ensures
        ({
            let state = state_of_usage(usage, is_storage);
            let writes = usage.access is Write;
            &&& state.layout == LAYOUT_COPY_DEST <==> usage.kinds.transfer && writes
            &&& state.layout == LAYOUT_COPY_SOURCE <==> usage.kinds.transfer && !writes
            &&& state.layout == LAYOUT_DIRECT_QUEUE_UNORDERED_ACCESS <==> !usage.kinds.transfer
                && usage.kinds.compute && writes && is_storage
            &&& state.layout == LAYOUT_DIRECT_QUEUE_SHADER_RESOURCE <==> !usage.kinds.transfer
                && usage.kinds.compute && !(writes && is_storage)
            &&& state.layout == LAYOUT_RENDER_TARGET <==> !usage.kinds.transfer
                && !usage.kinds.compute && usage.kinds.render
            &&& state.layout == LAYOUT_COPY_DEST <==> state.access == ACCESS_COPY_DEST
            &&& state.layout == LAYOUT_COPY_SOURCE <==> state.access == ACCESS_COPY_SOURCE
            &&& state.layout == LAYOUT_DIRECT_QUEUE_UNORDERED_ACCESS <==> state.access
                == ACCESS_UNORDERED_ACCESS
            &&& state.layout == LAYOUT_DIRECT_QUEUE_SHADER_RESOURCE <==> state.access
                == ACCESS_SHADER_RESOURCE
            &&& state.layout == LAYOUT_RENDER_TARGET <==> state.access == ACCESS_RENDER_TARGET
            &&& state.sync == SYNC_COPY <==> usage.kinds.transfer
            &&& state.sync == SYNC_COMPUTE_SHADING <==> !usage.kinds.transfer
                && usage.kinds.compute
        }),
{
}

/// A texture that was led to a use is taken up from there: what is left is what was entered.
pub proof fn texture_is_taken_up_where_it_was_left(usage: SlotUsageSet, is_storage: bool)
    requires
        usage.kinds.transfer || usage.kinds.compute,
    ensures
        state_of_layout(state_of_usage(usage, is_storage).layout) == state_of_usage(
            usage,
            is_storage,
        ),
{
}

} // verus!
