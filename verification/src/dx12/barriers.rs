//! Enhanced barriers: the values Direct3D 12 gives to barrier stages, accesses
//! and layouts, the barrier records, and the calls that issue them on a command
//! list.

use vstd::prelude::*;

verus! {

pub const SYNC_NONE: u32 = 0x0;

pub const SYNC_ALL: u32 = 0x1;

pub const SYNC_VERTEX_SHADING: u32 = 0x8;

pub const SYNC_PIXEL_SHADING: u32 = 0x10;

pub const SYNC_DEPTH_STENCIL: u32 = 0x20;

pub const SYNC_RENDER_TARGET: u32 = 0x40;

pub const SYNC_COMPUTE_SHADING: u32 = 0x80;

pub const SYNC_COPY: u32 = 0x200;

pub const SYNC_EXECUTE_INDIRECT: u32 = 0x800;

pub const SYNC_BUILD_RAYTRACING_ACCELERATION_STRUCTURE: u32 = 0x800000;

pub const ACCESS_COMMON: u32 = 0x0;

pub const ACCESS_RENDER_TARGET: u32 = 0x8;

pub const ACCESS_UNORDERED_ACCESS: u32 = 0x10;

pub const ACCESS_DEPTH_STENCIL_WRITE: u32 = 0x20;

pub const ACCESS_DEPTH_STENCIL_READ: u32 = 0x40;

pub const ACCESS_SHADER_RESOURCE: u32 = 0x80;

pub const ACCESS_INDIRECT_ARGUMENT: u32 = 0x200;

pub const ACCESS_COPY_DEST: u32 = 0x400;

pub const ACCESS_COPY_SOURCE: u32 = 0x800;

pub const ACCESS_RAYTRACING_ACCELERATION_STRUCTURE_READ: u32 = 0x4000;

pub const ACCESS_RAYTRACING_ACCELERATION_STRUCTURE_WRITE: u32 = 0x8000;

pub const ACCESS_NO_ACCESS: u32 = 0x8000_0000;

pub const LAYOUT_UNDEFINED: u32 = 0xffff_ffff;

pub const LAYOUT_COMMON: u32 = 0;

pub const LAYOUT_RENDER_TARGET: u32 = 2;

pub const LAYOUT_UNORDERED_ACCESS: u32 = 3;

pub const LAYOUT_DEPTH_STENCIL_WRITE: u32 = 4;

pub const LAYOUT_DEPTH_STENCIL_READ: u32 = 5;

pub const LAYOUT_SHADER_RESOURCE: u32 = 6;

pub const LAYOUT_COPY_SOURCE: u32 = 7;

pub const LAYOUT_COPY_DEST: u32 = 8;

pub const LAYOUT_DIRECT_QUEUE_UNORDERED_ACCESS: u32 = 20;

pub const LAYOUT_DIRECT_QUEUE_SHADER_RESOURCE: u32 = 21;

/// Size of a buffer barrier that covers the whole resource.
pub const BUFFER_BARRIER_FULL_SIZE: u64 = u64::MAX;

/// Subresources that a texture barrier covers.
#[derive(Clone, Copy, Debug, PartialEq, Eq, Structural)]
pub struct SubresourceRange {
    pub index_or_first_mip_level: u32,
    pub num_mip_levels: u32,
    pub first_array_slice: u32,
    pub num_array_slices: u32,
    pub first_plane: u32,
    pub num_planes: u32,
}

/// A barrier on all memory.
#[derive(Clone, Copy, Debug, PartialEq, Eq, Structural)]
pub struct GlobalBarrier {
    pub sync_before: u32,
    pub sync_after: u32,
    pub access_before: u32,
    pub access_after: u32,
}

/// A barrier on one buffer resource.
#[derive(Clone, Copy, Debug, PartialEq, Eq, Structural)]
pub struct BufferBarrier {
    pub sync_before: u32,
    pub sync_after: u32,
    pub access_before: u32,
    pub access_after: u32,
    pub resource: u64,
    pub offset: u64,
    pub size: u64,
}

/// A barrier on one texture resource.
#[derive(Clone, Copy, Debug, PartialEq, Eq, Structural)]
pub struct TextureBarrier {
    pub sync_before: u32,
    pub sync_after: u32,
    pub access_before: u32,
    pub access_after: u32,
    pub layout_before: u32,
    pub layout_after: u32,
    pub resource: u64,
    pub subresources: SubresourceRange,
}

/// One barrier of a group.
#[derive(Clone, Copy, Debug, PartialEq, Eq, Structural)]
pub enum Barrier {
    Global(GlobalBarrier),
    Buffer(BufferBarrier),
    Texture(TextureBarrier),
}

/// `SYNC_NONE` goes with `ACCESS_NO_ACCESS` and with nothing else, and the other
/// way round.
pub open spec fn sync_access_paired(sync: u32, access: u32) -> bool {
    sync == SYNC_NONE <==> access == ACCESS_NO_ACCESS
}

/// Whether a stage mask and an access mask may stand together in a barrier.
pub fn is_sync_access_paired(sync: u32, access: u32) -> (paired: bool)
    ensures
        paired == sync_access_paired(sync, access),
{
    (sync == SYNC_NONE) == (access == ACCESS_NO_ACCESS)
}

/// The range that covers every subresource of a texture.
pub open spec fn all_subresources() -> SubresourceRange {
    SubresourceRange {
        index_or_first_mip_level: 0xffff_ffff,
        num_mip_levels: 0,
        first_array_slice: 0,
        num_array_slices: 0,
        first_plane: 0,
        num_planes: 0,
    }
}

/// "All subresources" range for a texture barrier: with no mip levels the first
/// field is a subresource index, and `0xffffffff` stands for all of them.
pub fn texture_subresource_all() -> (range: SubresourceRange)
    ensures
        range == all_subresources(),
{
    SubresourceRange {
        index_or_first_mip_level: 0xffff_ffff,
        num_mip_levels: 0,
        first_array_slice: 0,
        num_array_slices: 0,
        first_plane: 0,
        num_planes: 0,
    }
}

/// The barrier over a whole buffer resource.
pub open spec fn full_buffer_barrier(
    resource: u64,
    sync_before: u32,
    sync_after: u32,
    access_before: u32,
    access_after: u32,
) -> BufferBarrier {
    BufferBarrier {
        sync_before,
        sync_after,
        access_before,
        access_after,
        resource,
        offset: 0,
        size: BUFFER_BARRIER_FULL_SIZE,
    }
}

/// Buffer barrier covering the entire resource (typical for structured buffers).
pub fn buffer_barrier_full(
    resource: u64,
    sync_before: u32,
    sync_after: u32,
    access_before: u32,
    access_after: u32,
) -> (barrier: BufferBarrier)
    requires
        sync_access_paired(sync_before, access_before),
        sync_access_paired(sync_after, access_after),
    ensures
        barrier == full_buffer_barrier(resource, sync_before, sync_after, access_before, access_after),
        barrier_well_paired(Barrier::Buffer(barrier)),
{
    BufferBarrier {
        sync_before,
        sync_after,
        access_before,
        access_after,
        resource,
        offset: 0,
        size: BUFFER_BARRIER_FULL_SIZE,
    }
}

/// The barrier over every subresource of a texture.
pub open spec fn full_texture_barrier(
    resource: u64,
    sync_before: u32,
    sync_after: u32,
    access_before: u32,
    access_after: u32,
    layout_before: u32,
    layout_after: u32,
) -> TextureBarrier {
    TextureBarrier {
        sync_before,
        sync_after,
        access_before,
        access_after,
        layout_before,
        layout_after,
        resource,
        subresources: all_subresources(),
    }
}

/// Texture barrier covering every subresource.
pub fn texture_barrier_full(
    resource: u64,
    sync_before: u32,
    sync_after: u32,
    access_before: u32,
    access_after: u32,
    layout_before: u32,
    layout_after: u32,
) -> (barrier: TextureBarrier)
    requires
        sync_access_paired(sync_before, access_before),
        sync_access_paired(sync_after, access_after),
    ensures
        barrier == full_texture_barrier(
            resource,
            sync_before,
            sync_after,
            access_before,
            access_after,
            layout_before,
            layout_after,
        ),
        barrier_well_paired(Barrier::Texture(barrier)),
{
    TextureBarrier {
        sync_before,
        sync_after,
        access_before,
        access_after,
        layout_before,
        layout_after,
        resource,
        subresources: texture_subresource_all(),
    }
}

/// Both halves of a barrier pair their stages and accesses.
pub open spec fn barrier_well_paired(barrier: Barrier) -> bool {
    match barrier {
        Barrier::Global(b) => sync_access_paired(b.sync_before, b.access_before)
            && sync_access_paired(b.sync_after, b.access_after),
        Barrier::Buffer(b) => sync_access_paired(b.sync_before, b.access_before)
            && sync_access_paired(b.sync_after, b.access_after),
        Barrier::Texture(b) => sync_access_paired(b.sync_before, b.access_before)
            && sync_access_paired(b.sync_after, b.access_after),
    }
}

} // verus!
