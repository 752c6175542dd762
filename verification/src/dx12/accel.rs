//! Ray-tracing acceleration structures: sizes, creation, and the barriers and
//! descriptions of their builds.

use std::collections::HashMap;
use vstd::prelude::*;

use super::barriers::{
    buffer_barrier_full, full_buffer_barrier, Barrier, BufferBarrier, ACCESS_COMMON,
    ACCESS_RAYTRACING_ACCELERATION_STRUCTURE_READ,
    ACCESS_RAYTRACING_ACCELERATION_STRUCTURE_WRITE, ACCESS_SHADER_RESOURCE,
    ACCESS_UNORDERED_ACCESS, SYNC_ALL, SYNC_BUILD_RAYTRACING_ACCELERATION_STRUCTURE,
    SYNC_COMPUTE_SHADING,
};
use super::command_list::{barrier_buffers, issue, Call};
use super::context::{
    covers_device, destroy_attribution_context, reclamation_requirements, ContextFence,
};
use super::device::{find_adapter, is_first_adapter, DxgiAdapter, LogicalDevice};
use super::types::BufferState;

verus! {

broadcast use vstd::std_specs::hash::group_hash_axioms;

/// The ray-tracing stage of a barrier.
pub const SYNC_RAYTRACING: u32 = 0x100;

/// Instance flag that hits triangles from both sides.
pub const INSTANCE_FLAG_TRIANGLE_CULL_DISABLE: u32 = 0x1;

/// What an acceleration structure is created for.
#[derive(Clone, Copy, Debug, PartialEq, Eq, Structural)]
pub enum GpuAccelCreate {
    BlasTriangles { max_triangles: u32, max_vertices: u32, vertex_stride: u32 },
    Tlas { max_instances: u32 },
}

/// Format of triangle indices.
#[derive(Clone, Copy, Debug, PartialEq, Eq, Structural)]
pub enum IndexFormat {
    Unknown,
    R32Uint,
}

/// A byte of a resource.
#[derive(Clone, Copy, Debug, PartialEq, Eq, Structural)]
pub struct GpuAddress {
    pub resource: u64,
    pub offset: u64,
}

/// Triangles of a bottom-level structure.
#[derive(Clone, Copy, Debug, PartialEq, Eq, Structural)]
pub struct TriangleGeometry {
    pub index_format: IndexFormat,
    pub index_count: u32,
    pub index_buffer: Option<GpuAddress>,
    pub vertex_count: u32,
    pub vertex_buffer: Option<GpuAddress>,
    pub vertex_stride: u32,
}

/// Sizes that Direct3D asks for a structure.
#[derive(Clone, Copy, Debug, PartialEq, Eq, Structural)]
pub struct PrebuildInfo {
    pub result_size: u64,
    pub scratch_size: u64,
    pub update_scratch_size: u64,
}

/// Why an acceleration-structure operation is refused.
#[derive(Clone, Copy, Debug, PartialEq, Eq, Structural)]
pub enum AccelError {
    InvalidDevice,
    NoRayTracing,
    ZeroPrebuildSize,
    InvalidBlas,
    DestinationIsTlas,
    TooManyVertices { count: u32, max: u32 },
    StrideMismatch { stride: u32, expected: u32 },
    InvalidVertexBuffer,
    IndexCountNotTriangles { count: u32 },
    TooManyPrimitives { count: u32, max: u32 },
    InvalidIndexBuffer,
    InvalidTlas,
    DestinationIsBlas,
    TooManyInstances { count: u32, max: u32 },
    InvalidInstanceBlas,
}

/// Triangles without memory, for asking how large a structure gets.
pub open spec fn sizing_geometry(
    max_vertices: u32,
    max_triangles: u32,
    vertex_stride: u32,
    indexed: bool,
) -> TriangleGeometry {
    TriangleGeometry {
        index_format: if indexed {
            IndexFormat::R32Uint
        } else {
            IndexFormat::Unknown
        },
        index_count: if !indexed {
            0
        } else if 3 * max_triangles > u32::MAX {
            u32::MAX
        } else {
            (3 * max_triangles) as u32
        },
        index_buffer: None,
        vertex_count: max_vertices,
        vertex_buffer: None,
        vertex_stride,
    }
}

/// Triangles without memory, for asking how large a structure gets.
pub fn dummy_triangle_geom(
    max_vertices: u32,
    max_triangles: u32,
    vertex_stride: u32,
    indexed: bool,
) -> (geometry: TriangleGeometry)
    ensures
        geometry == sizing_geometry(max_vertices, max_triangles, vertex_stride, indexed),
{
    let index_count: u32 = if !indexed {
        0
    } else {
        match max_triangles.checked_mul(3) {
            Some(n) => n,
            None => u32::MAX,
        }
    };
    TriangleGeometry {
        index_format: if indexed {
            IndexFormat::R32Uint
        } else {
            IndexFormat::Unknown
        },
        index_count,
        index_buffer: None,
        vertex_count: max_vertices,
        vertex_buffer: None,
        vertex_stride,
    }
}

/// The larger of two sizes.
pub open spec fn larger(a: u64, b: u64) -> u64 {
    if a < b {
        b
    } else {
        a
    }
}

fn max_u64(a: u64, b: u64) -> (m: u64)
    ensures
        m == larger(a, b),
{
    if a < b {
        b
    } else {
        a
    }
}

/// Sizes that suffice for two ways of building.
pub open spec fn either(a: PrebuildInfo, b: PrebuildInfo) -> PrebuildInfo {
    PrebuildInfo {
        result_size: larger(a.result_size, b.result_size),
        scratch_size: larger(a.scratch_size, b.scratch_size),
        update_scratch_size: larger(a.update_scratch_size, b.update_scratch_size),
    }
}

/// An acceleration structure about to be created.
#[derive(Clone, Copy, Debug, PartialEq, Eq, Structural)]
pub struct AccelPlan {
    pub device_handle: u64,
    pub is_tlas: bool,
    pub result_width: u64,
    pub scratch_width: u64,
    pub max_primitives: u32,
    pub max_vertices: u32,
    pub vertex_stride: u32,
}

/// An acceleration structure of the backend.
#[derive(Clone, Copy, Debug, PartialEq, Eq, Structural)]
pub struct AccelState {
    pub device_handle: u64,
    pub is_tlas: bool,
    pub resource: u64,
    pub bindless_offset: Option<u32>,
    pub scratch: u64,
    pub max_primitives: u32,
    pub max_vertices: u32,
    pub vertex_stride: u32,
    /// It has been built at least once.
    pub built: bool,
}

/// The sizes to allocate for, from what Direct3D asked: for triangles the larger of
/// an indexed and a plain build, so that either fits.
pub open spec fn needed_sizes(desc: GpuAccelCreate, first: PrebuildInfo, second: PrebuildInfo) -> Result<
    PrebuildInfo,
    AccelError,
> {
    if first.result_size == 0 {
        Err(AccelError::ZeroPrebuildSize)
    } else {
        match desc {
            GpuAccelCreate::Tlas { max_instances } => Ok(first),
            GpuAccelCreate::BlasTriangles { max_triangles, max_vertices, vertex_stride } => if second.result_size
                == 0 {
                Err(AccelError::ZeroPrebuildSize)
            } else {
                Ok(either(first, second))
            },
        }
    }
}

/// A structure with memory for the sizes that it needs.
pub open spec fn accel_plan(device_handle: u64, desc: GpuAccelCreate, sizes: PrebuildInfo) -> AccelPlan {
    AccelPlan {
        device_handle,
        is_tlas: desc is Tlas,
        result_width: larger(sizes.result_size, 1),
        scratch_width: larger(sizes.scratch_size, 256),
        max_primitives: match desc {
            GpuAccelCreate::Tlas { max_instances } => max_instances,
            GpuAccelCreate::BlasTriangles { max_triangles, max_vertices, vertex_stride } => max_triangles,
        },
        max_vertices: match desc {
            GpuAccelCreate::Tlas { max_instances } => 0,
            GpuAccelCreate::BlasTriangles { max_triangles, max_vertices, vertex_stride } => max_vertices,
        },
        vertex_stride: match desc {
            GpuAccelCreate::Tlas { max_instances } => 0,
            GpuAccelCreate::BlasTriangles { max_triangles, max_vertices, vertex_stride } => vertex_stride,
        },
    }
}

/// The adapter of a device has acceleration structures.
pub open spec fn has_ray_tracing(adapters: Seq<DxgiAdapter>, adapter_id: u32) -> bool {
    exists|i: int| #[trigger]
        is_first_adapter(adapters, adapter_id, i) && (adapters[i].ray_query
            || adapters[i].ray_tracing_pipelines)
}

/// Checks that a device can have acceleration structures.
pub fn check_accel_device(
    devices: &HashMap<u64, LogicalDevice>,
    adapters: &Vec<DxgiAdapter>,
    device_handle: u64,
) -> (result: Result<(), AccelError>)
    ensures
        result == (if !devices@.contains_key(device_handle) {
            Err::<(), AccelError>(AccelError::InvalidDevice)
        } else if !has_ray_tracing(adapters@, devices@[device_handle].adapter_id) {
            Err(AccelError::NoRayTracing)
        } else {
            Ok(())
        }),
{
    let adapter_id: u32 = match devices.get(&device_handle) {
        Some(device) => device.adapter_id,
        None => {
            return Err(AccelError::InvalidDevice);
        },
    };
    match find_adapter(adapters, adapter_id) {
        Ok(index) => {
            if adapters[index].ray_query || adapters[index].ray_tracing_pipelines {
                Ok(())
            } else {
                assert(forall|i: int| #[trigger]
                    is_first_adapter(adapters@, adapter_id, i) ==> i == index) by {
                    assert forall|i: int| #[trigger]
                        is_first_adapter(adapters@, adapter_id, i) implies i == index by {
                        assert(adapters@[i].adapter_id == adapter_id);
                        assert(adapters@[index as int].adapter_id == adapter_id);
                    }
                }
                Err(AccelError::NoRayTracing)
            }
        },
        Err(_) => Err(AccelError::NoRayTracing),
    }
}

/// Plans an acceleration structure. `first` and `second` are the sizes of the indexed
/// and of the plain build, or the sizes of the top-level build.
pub fn plan_accel(
    device_handle: u64,
    desc: GpuAccelCreate,
    first: PrebuildInfo,
    second: PrebuildInfo,
) -> (plan: Result<AccelPlan, AccelError>)
    ensures
        match needed_sizes(desc, first, second) {
            Err(e) => plan == Err::<AccelPlan, AccelError>(e),
            Ok(sizes) => plan == Ok::<AccelPlan, AccelError>(
                accel_plan(device_handle, desc, sizes),
            ),
        },
{
    if first.result_size == 0 {
        return Err(AccelError::ZeroPrebuildSize);
    }
    match desc {
        GpuAccelCreate::Tlas { max_instances } => Ok(
            AccelPlan {
                device_handle,
                is_tlas: true,
                result_width: max_u64(first.result_size, 1),
                scratch_width: max_u64(first.scratch_size, 256),
                max_primitives: max_instances,
                max_vertices: 0,
                vertex_stride: 0,
            },
        ),
        GpuAccelCreate::BlasTriangles { max_triangles, max_vertices, vertex_stride } => {
            if second.result_size == 0 {
                return Err(AccelError::ZeroPrebuildSize);
            }
            Ok(
                AccelPlan {
                    device_handle,
                    is_tlas: false,
                    result_width: max_u64(max_u64(first.result_size, second.result_size), 1),
                    scratch_width: max_u64(max_u64(first.scratch_size, second.scratch_size), 256),
                    max_primitives: max_triangles,
                    max_vertices,
                    vertex_stride,
                },
            )
        },
    }
}

/// An acceleration structure that has left the table.
pub struct ReleasedAccel {
    pub accel_handle: u64,
    pub device_handle: u64,
    /// Its bindless slot. Retained lists that read it have to go first.
    pub bindless_offset: Option<u32>,
    pub resource: u64,
    pub scratch: u64,
    /// Contexts, each with the value it has to reach before the structure is free.
    pub requirements: Vec<(u64, u64)>,
}

/// Acceleration structures by handle.
pub struct AccelTable {
    pub entries: HashMap<u64, AccelState>,
    pub next_handle: u64,
}

impl AccelTable {
    /// No handle is given out twice.
    pub open spec fn wf(self) -> bool {
        forall|h: u64| #[trigger] self.entries@.contains_key(h) ==> h < self.next_handle
    }

    /// A table without structures.
    pub fn new() -> (table: AccelTable)
        ensures
            table.wf(),
            table.entries@ == Map::<u64, AccelState>::empty(),
            table.next_handle == 1,
    {
        AccelTable { entries: HashMap::new(), next_handle: 1 }
    }

    /// Enters a structure whose resources have been created.
    pub fn finish_create(
        &mut self,
        plan: AccelPlan,
        resource: u64,
        scratch: u64,
        bindless_offset: u32,
    ) -> (handle: u64)
        requires
            old(self).wf(),
            old(self).next_handle < u64::MAX,
        ensures
            final(self).wf(),
            handle == old(self).next_handle,
            final(self).next_handle == handle + 1,
            final(self).entries@ == old(self).entries@.insert(
                handle,
                AccelState {
                    device_handle: plan.device_handle,
                    is_tlas: plan.is_tlas,
                    resource,
                    bindless_offset: Some(bindless_offset),
                    scratch,
                    max_primitives: plan.max_primitives,
                    max_vertices: plan.max_vertices,
                    vertex_stride: plan.vertex_stride,
                    built: false,
                },
            ),
    {
        let handle: u64 = self.next_handle;
        self.next_handle = handle + 1;
        self.entries.insert(
            handle,
            AccelState {
                device_handle: plan.device_handle,
                is_tlas: plan.is_tlas,
                resource,
                bindless_offset: Some(bindless_offset),
                scratch,
                max_primitives: plan.max_primitives,
                max_vertices: plan.max_vertices,
                vertex_stride: plan.vertex_stride,
                built: false,
            },
        );
        handle
    }

    /// Takes a structure out of the table. It goes once every context on its device has
    /// completed what it had submitted.
    pub fn destroy(
        &mut self,
        devices: &HashMap<u64, LogicalDevice>,
        fences: &HashMap<u64, ContextFence>,
        handle: u64,
    ) -> (released: Option<ReleasedAccel>)
        requires
            old(self).wf(),
        ensures
            final(self).wf(),
            final(self).next_handle == old(self).next_handle,
            final(self).entries@ == old(self).entries@.remove(handle),
            released is Some <==> old(self).entries@.contains_key(handle) && devices@.contains_key(
                old(self).entries@[handle].device_handle,
            ),
            released matches Some(r) ==> {
                let accel = old(self).entries@[handle];
                &&& r.accel_handle == handle
                &&& r.device_handle == accel.device_handle
                &&& r.bindless_offset == accel.bindless_offset
                &&& r.resource == accel.resource
                &&& r.scratch == accel.scratch
                &&& covers_device(fences@, accel.device_handle, r.requirements@)
            },
    {
        let removed = self.entries.remove(&handle);
        assert(self.entries@ =~= old(self).entries@.remove(handle));
        let accel = match removed {
            Some(accel) => accel,
            None => {
                return None;
            },
        };
        if !devices.contains_key(&accel.device_handle) {
            return None;
        }
        let context = destroy_attribution_context(fences, accel.device_handle);
        let requirements = reclamation_requirements(fences, accel.device_handle, context);
        proof {
            if context is Some {
                let c = context->0;
                let keys = requirements@.map_values(|r: (u64, u64)| r.0);
                assert(keys =~= seq![c]);
                assert(keys.to_set() =~= set![c]) by {
                    assert(keys[0] == c);
                }
            }
        }
        Some(
            ReleasedAccel {
                accel_handle: handle,
                device_handle: accel.device_handle,
                bindless_offset: accel.bindless_offset,
                resource: accel.resource,
                scratch: accel.scratch,
                requirements,
            },
        )
    }

    /// Bindless index of a structure, where it has one.
    pub fn bindless_index(&self, handle: u64) -> (index: Option<u32>)
        ensures
            index == (if self.entries@.contains_key(handle) {
                self.entries@[handle].bindless_offset
            } else {
                None
            }),
    {
        match self.entries.get(&handle) {
            Some(a) => a.bindless_offset,
            None => None,
        }
    }
}

/// Triangles to build a bottom-level structure from.
#[derive(Clone, Copy, Debug, PartialEq, Eq, Structural)]
pub struct BlasBuildCommand {
    pub dest: u64,
    pub vertex_buffer: u64,
    pub vertex_offset: u64,
    pub vertex_count: u32,
    pub vertex_stride: u32,
    pub index_buffer: Option<u64>,
    pub index_offset: u64,
    pub index_count: u32,
}

/// One instance of a top-level structure. Its transform travels beside it.
#[derive(Clone, Copy, Debug, PartialEq, Eq, Structural)]
pub struct AccelInstance {
    pub blas: u64,
    pub custom_index: u32,
    pub mask: u8,
}

/// Triangles in the build: of the indices where there are any, else of the
/// vertices.
pub open spec fn primitive_count(cmd: BlasBuildCommand) -> u32 {
    if cmd.index_count > 0 {
        (cmd.index_count / 3) as u32
    } else {
        (cmd.vertex_count / 3) as u32
    }
}

/// Why a bottom-level build is refused; `None` where it is not.
pub open spec fn blas_refused(
    buffers: Map<u64, BufferState>,
    accels: Map<u64, AccelState>,
    cmd: BlasBuildCommand,
) -> Option<AccelError> {
    if !accels.contains_key(cmd.dest) {
        Some(AccelError::InvalidBlas)
    } else {
        let dest = accels[cmd.dest];
        if dest.is_tlas {
            Some(AccelError::DestinationIsTlas)
        } else if cmd.vertex_count > dest.max_vertices {
            Some(AccelError::TooManyVertices { count: cmd.vertex_count, max: dest.max_vertices })
        } else if cmd.vertex_stride != dest.vertex_stride {
            Some(
                AccelError::StrideMismatch {
                    stride: cmd.vertex_stride,
                    expected: dest.vertex_stride,
                },
            )
        } else if !buffers.contains_key(cmd.vertex_buffer) {
            Some(AccelError::InvalidVertexBuffer)
        } else if cmd.index_count > 0 && cmd.index_count % 3 != 0 {
            Some(AccelError::IndexCountNotTriangles { count: cmd.index_count })
        } else if primitive_count(cmd) > dest.max_primitives {
            Some(
                AccelError::TooManyPrimitives {
                    count: primitive_count(cmd),
                    max: dest.max_primitives,
                },
            )
        } else if cmd.index_buffer is Some && !buffers.contains_key(cmd.index_buffer->0) {
            Some(AccelError::InvalidIndexBuffer)
        } else {
            None
        }
    }
}

/// The access that a structure is left with by what was recorded before.
pub open spec fn accel_access_before(built: bool) -> u32 {
    if built {
        ACCESS_RAYTRACING_ACCELERATION_STRUCTURE_READ
    } else {
        ACCESS_COMMON
    }
}

/// The access that the geometry is left with: a first build leaves it readable.
pub open spec fn geometry_access_before(built: bool) -> u32 {
    if built {
        ACCESS_SHADER_RESOURCE
    } else {
        ACCESS_COMMON
    }
}

/// A barrier before a build.
pub open spec fn into_build(resource: u64, before: u32, after: u32) -> BufferBarrier {
    full_buffer_barrier(
        resource,
        SYNC_ALL,
        SYNC_BUILD_RAYTRACING_ACCELERATION_STRUCTURE,
        before,
        after,
    )
}

/// The barriers before a bottom-level build.
pub open spec fn blas_pre_barriers(
    buffers: Map<u64, BufferState>,
    dest: AccelState,
    cmd: BlasBuildCommand,
) -> Seq<BufferBarrier> {
    let pre = seq![
        into_build(
            buffers[cmd.vertex_buffer].resource,
            geometry_access_before(dest.built),
            ACCESS_SHADER_RESOURCE,
        ),
        into_build(dest.scratch, ACCESS_COMMON, ACCESS_UNORDERED_ACCESS),
        into_build(
            dest.resource,
            accel_access_before(dest.built),
            ACCESS_RAYTRACING_ACCELERATION_STRUCTURE_WRITE,
        ),
    ];
    match cmd.index_buffer {
        Some(ib) => pre.push(
            into_build(
                buffers[ib].resource,
                geometry_access_before(dest.built),
                ACCESS_SHADER_RESOURCE,
            ),
        ),
        None => pre,
    }
}

/// The barriers after a build: the structure is readable, the scratch memory free.
pub open spec fn post_barriers(dest: AccelState) -> Seq<BufferBarrier> {
    seq![
        full_buffer_barrier(
            dest.resource,
            SYNC_BUILD_RAYTRACING_ACCELERATION_STRUCTURE,
            SYNC_BUILD_RAYTRACING_ACCELERATION_STRUCTURE | SYNC_COMPUTE_SHADING | SYNC_RAYTRACING,
            ACCESS_RAYTRACING_ACCELERATION_STRUCTURE_WRITE,
            ACCESS_RAYTRACING_ACCELERATION_STRUCTURE_READ,
        ),
        full_buffer_barrier(
            dest.scratch,
            SYNC_BUILD_RAYTRACING_ACCELERATION_STRUCTURE,
            SYNC_ALL,
            ACCESS_UNORDERED_ACCESS,
            ACCESS_COMMON,
        ),
    ]
}

/// The triangles of a bottom-level build.
pub open spec fn build_geometry(buffers: Map<u64, BufferState>, cmd: BlasBuildCommand) -> TriangleGeometry {
    TriangleGeometry {
        index_format: if cmd.index_buffer is Some {
            IndexFormat::R32Uint
        } else {
            IndexFormat::Unknown
        },
        index_count: if cmd.index_buffer is Some {
            cmd.index_count
        } else {
            0
        },
        index_buffer: match cmd.index_buffer {
            Some(ib) => Some(
                GpuAddress { resource: buffers[ib].resource, offset: cmd.index_offset },
            ),
            None => None,
        },
        vertex_count: cmd.vertex_count,
        vertex_buffer: Some(
            GpuAddress { resource: buffers[cmd.vertex_buffer].resource, offset: cmd.vertex_offset },
        ),
        vertex_stride: cmd.vertex_stride,
    }
}

/// A recorded build: calls before it, the build itself, calls after it.
pub struct RecordedBuild {
    pub before: Vec<Call>,
    pub dest: u64,
    pub scratch: u64,
    /// Triangles of a bottom-level build.
    pub geometry: Option<TriangleGeometry>,
    /// Descriptions in the build.
    pub num_descs: u32,
    pub after: Vec<Call>,
}

/// Barriers as the calls that issue them.
pub open spec fn issued(barriers: Seq<BufferBarrier>) -> Seq<Call> {
    issue(barriers.map_values(|b: BufferBarrier| Barrier::Buffer(b)))
}

fn build_post_barriers(dest: &AccelState) -> (calls: Vec<Call>)
    ensures
        calls@ == issued(post_barriers(*dest)),
{
    let stages: u32 = SYNC_BUILD_RAYTRACING_ACCELERATION_STRUCTURE | SYNC_COMPUTE_SHADING
        | SYNC_RAYTRACING;
    assert(0x800000u32 | 0x80u32 | 0x100u32 != 0) by (bit_vector);
    let post = vec![
        buffer_barrier_full(
            dest.resource,
            SYNC_BUILD_RAYTRACING_ACCELERATION_STRUCTURE,
            stages,
            ACCESS_RAYTRACING_ACCELERATION_STRUCTURE_WRITE,
            ACCESS_RAYTRACING_ACCELERATION_STRUCTURE_READ,
        ),
        buffer_barrier_full(
            dest.scratch,
            SYNC_BUILD_RAYTRACING_ACCELERATION_STRUCTURE,
            SYNC_ALL,
            ACCESS_UNORDERED_ACCESS,
            ACCESS_COMMON,
        ),
    ];
    assert(post@ =~= post_barriers(*dest));
    let mut calls: Vec<Call> = Vec::new();
    barrier_buffers(&mut calls, post.as_slice());
    assert(calls@ =~= issued(post_barriers(*dest)));
    calls
}

fn into_build_barrier(resource: u64, before: u32, after: u32) -> (barrier: BufferBarrier)
    requires
        before == ACCESS_COMMON || before == ACCESS_SHADER_RESOURCE || before
            == ACCESS_RAYTRACING_ACCELERATION_STRUCTURE_READ,
        after == ACCESS_SHADER_RESOURCE || after == ACCESS_UNORDERED_ACCESS || after
            == ACCESS_RAYTRACING_ACCELERATION_STRUCTURE_READ || after
            == ACCESS_RAYTRACING_ACCELERATION_STRUCTURE_WRITE,
    ensures
        barrier == into_build(resource, before, after),
{
    buffer_barrier_full(
        resource,
        SYNC_ALL,
        SYNC_BUILD_RAYTRACING_ACCELERATION_STRUCTURE,
        before,
        after,
    )
}

/// The table once a structure has been built.
pub open spec fn with_built(accels: Map<u64, AccelState>, dest: u64) -> Map<u64, AccelState> {
    accels.insert(dest, AccelState { built: true, ..accels[dest] })
}

impl AccelTable {
    /// Records a bottom-level build. A structure that was built before is taken up
    /// from where that build left it.
    pub fn record_build_blas(
        &mut self,
        buffers: &HashMap<u64, BufferState>,
        cmd: &BlasBuildCommand,
    ) -> (result: Result<RecordedBuild, AccelError>)
        requires
            old(self).wf(),
        ensures
            final(self).wf(),
            final(self).next_handle == old(self).next_handle,
            match blas_refused(buffers@, old(self).entries@, *cmd) {
                Some(e) => result matches Err(f) && f == e && final(self).entries@
                    == old(self).entries@,
                None => {
                    let dest = old(self).entries@[cmd.dest];
                    &&& result matches Ok(build)
                    &&& build.before@ == issued(blas_pre_barriers(buffers@, dest, *cmd))
                    &&& build.dest == dest.resource
                    &&& build.scratch == dest.scratch
                    &&& build.geometry == Some(build_geometry(buffers@, *cmd))
                    &&& build.num_descs == 1
                    &&& build.after@ == issued(post_barriers(dest))
                    &&& final(self).entries@ == with_built(old(self).entries@, cmd.dest)
                },
            },
    {
        let dest = match self.entries.get(&cmd.dest) {
            Some(a) => *a,
            None => {
                return Err(AccelError::InvalidBlas);
            },
        };
        if dest.is_tlas {
            return Err(AccelError::DestinationIsTlas);
        }
        if cmd.vertex_count > dest.max_vertices {
            return Err(
                AccelError::TooManyVertices { count: cmd.vertex_count, max: dest.max_vertices },
            );
        }
        if cmd.vertex_stride != dest.vertex_stride {
            return Err(
                AccelError::StrideMismatch {
                    stride: cmd.vertex_stride,
                    expected: dest.vertex_stride,
                },
            );
        }
        let vertices: u64 = match buffers.get(&cmd.vertex_buffer) {
            Some(b) => b.resource,
            None => {
                return Err(AccelError::InvalidVertexBuffer);
            },
        };
        let count: u32 = if cmd.index_count > 0 {
            if cmd.index_count % 3 != 0 {
                return Err(AccelError::IndexCountNotTriangles { count: cmd.index_count });
            }
            cmd.index_count / 3
        } else {
            cmd.vertex_count / 3
        };
        if count > dest.max_primitives {
            return Err(AccelError::TooManyPrimitives { count, max: dest.max_primitives });
        }
        let geometry_before: u32 = if dest.built { ACCESS_SHADER_RESOURCE } else { ACCESS_COMMON };
        let accel_before: u32 = if dest.built {
            ACCESS_RAYTRACING_ACCELERATION_STRUCTURE_READ
        } else {
            ACCESS_COMMON
        };
        let mut pre: Vec<BufferBarrier> = vec![
            into_build_barrier(vertices, geometry_before, ACCESS_SHADER_RESOURCE),
            into_build_barrier(dest.scratch, ACCESS_COMMON, ACCESS_UNORDERED_ACCESS),
            into_build_barrier(
                dest.resource,
                accel_before,
                ACCESS_RAYTRACING_ACCELERATION_STRUCTURE_WRITE,
            ),
        ];
        let mut geometry = TriangleGeometry {
            index_format: IndexFormat::Unknown,
            index_count: 0,
            index_buffer: None,
            vertex_count: cmd.vertex_count,
            vertex_buffer: Some(
                GpuAddress { resource: vertices, offset: cmd.vertex_offset },
            ),
            vertex_stride: cmd.vertex_stride,
        };
        match cmd.index_buffer {
            Some(ib) => {
                let indices: u64 = match buffers.get(&ib) {
                    Some(b) => b.resource,
                    None => {
                        return Err(AccelError::InvalidIndexBuffer);
                    },
                };
                pre.push(into_build_barrier(indices, geometry_before, ACCESS_SHADER_RESOURCE));
                geometry.index_format = IndexFormat::R32Uint;
                geometry.index_count = cmd.index_count;
                geometry.index_buffer = Some(
                    GpuAddress { resource: indices, offset: cmd.index_offset },
                );
            },
            None => {},
        }
        assert(pre@ =~= blas_pre_barriers(buffers@, dest, *cmd));
        let mut before: Vec<Call> = Vec::new();
        barrier_buffers(&mut before, pre.as_slice());
        assert(before@ =~= issued(blas_pre_barriers(buffers@, dest, *cmd)));
        let after = build_post_barriers(&dest);
        self.entries.insert(cmd.dest, AccelState { built: true, ..dest });
        Ok(
            RecordedBuild {
                before,
                dest: dest.resource,
                scratch: dest.scratch,
                geometry: Some(geometry),
                num_descs: 1,
                after,
            },
        )
    }
}

/// An instance as Direct3D lays it out, besides its transform.
#[derive(Clone, Copy, Debug, PartialEq, Eq, Structural)]
pub struct PackedInstance {
    /// The instance's index in the low 24 bits, its mask in the high 8.
    pub index_and_mask: u32,
    /// Hit-group offset in the low 24 bits, flags in the high 8.
    pub offset_and_flags: u32,
    /// Resource of the instance's bottom-level structure.
    pub blas: u64,
}

/// An instance as Direct3D lays it out.
pub open spec fn packed_instance(accels: Map<u64, AccelState>, instance: AccelInstance) -> PackedInstance {
    PackedInstance {
        index_and_mask: (instance.custom_index & 0x00ff_ffff) | ((instance.mask as u32) << 24u32),
        offset_and_flags: INSTANCE_FLAG_TRIANGLE_CULL_DISABLE << 24u32,
        blas: accels[instance.blas].resource,
    }
}

/// The index and the mask of an instance can be read back from its packed form,
/// as far as the index has 24 bits.
pub proof fn packed_instance_keeps_index_and_mask(
    accels: Map<u64, AccelState>,
    instance: AccelInstance,
)
    ensures
        packed_instance(accels, instance).index_and_mask & 0x00ff_ffff == instance.custom_index
            & 0x00ff_ffff,
        packed_instance(accels, instance).index_and_mask >> 24u32 == instance.mask,
        packed_instance(accels, instance).offset_and_flags == 0x0100_0000,
{
    let c = instance.custom_index;
    let m = instance.mask as u32;
    assert(((c & 0x00ff_ffff) | (m << 24u32)) & 0x00ff_ffff == c & 0x00ff_ffff) by (bit_vector);
    assert(m <= 255 ==> ((c & 0x00ff_ffff) | (m << 24u32)) >> 24u32 == m) by (bit_vector);
    assert(1u32 << 24u32 == 0x0100_0000u32) by (bit_vector);
}

/// Every instance names a known structure.
pub open spec fn instances_known(accels: Map<u64, AccelState>, instances: Seq<AccelInstance>) -> bool {
    forall|i: int| 0 <= i < instances.len() ==> accels.contains_key((#[trigger] instances[i]).blas)
}

/// Why a top-level build is refused; `None` where it is not.
pub open spec fn tlas_refused(
    accels: Map<u64, AccelState>,
    dest: u64,
    instances: Seq<AccelInstance>,
) -> Option<AccelError> {
    if !accels.contains_key(dest) {
        Some(AccelError::InvalidTlas)
    } else if !accels[dest].is_tlas {
        Some(AccelError::DestinationIsBlas)
    } else if instances.len() > accels[dest].max_primitives {
        Some(
            AccelError::TooManyInstances {
                count: instances.len() as u32,
                max: accels[dest].max_primitives,
            },
        )
    } else if !instances_known(accels, instances) {
        Some(AccelError::InvalidInstanceBlas)
    } else {
        None
    }
}

/// The barriers before a top-level build.
pub open spec fn tlas_pre_barriers(
    accels: Map<u64, AccelState>,
    dest: AccelState,
    instance_buffer: u64,
    instances: Seq<AccelInstance>,
) -> Seq<BufferBarrier> {
    seq![
        into_build(instance_buffer, ACCESS_COMMON, ACCESS_SHADER_RESOURCE),
        into_build(dest.scratch, ACCESS_COMMON, ACCESS_UNORDERED_ACCESS),
        into_build(
            dest.resource,
            accel_access_before(dest.built),
            ACCESS_RAYTRACING_ACCELERATION_STRUCTURE_WRITE,
        ),
    ] + instances.map_values(
        |i: AccelInstance|
            into_build(
                accels[i.blas].resource,
                ACCESS_RAYTRACING_ACCELERATION_STRUCTURE_READ,
                ACCESS_RAYTRACING_ACCELERATION_STRUCTURE_READ,
            ),
    )
}

impl AccelTable {
    /// Packs the instances of a top-level build, where the build is not refused.
    pub fn pack_instances(&self, dest: u64, instances: &Vec<AccelInstance>) -> (packed: Result<
        Vec<PackedInstance>,
        AccelError,
    >)
        requires
            instances@.len() <= u32::MAX,
        ensures
            match tlas_refused(self.entries@, dest, instances@) {
                Some(e) => packed matches Err(f) && f == e,
                None => packed matches Ok(p) && p@ == instances@.map_values(
                    |i: AccelInstance| packed_instance(self.entries@, i),
                ),
            },
    {
        let state = match self.entries.get(&dest) {
            Some(a) => *a,
            None => {
                return Err(AccelError::InvalidTlas);
            },
        };
        if !state.is_tlas {
            return Err(AccelError::DestinationIsBlas);
        }
        let count: u32 = instances.len() as u32;
        if count > state.max_primitives {
            return Err(AccelError::TooManyInstances { count, max: state.max_primitives });
        }
        let mut packed: Vec<PackedInstance> = Vec::new();
        let mut i: usize = 0;
        while i < instances.len()
            invariant
                i <= instances.len(),
                tlas_refused(self.entries@, dest, instances@) matches Some(e) ==> e
                    == AccelError::InvalidInstanceBlas,
                tlas_refused(self.entries@, dest, instances@) is None <==> instances_known(
                    self.entries@,
                    instances@,
                ),
                forall|j: int|
                    0 <= j < i ==> self.entries@.contains_key((#[trigger] instances@[j]).blas),
                packed@ == instances@.take(i as int).map_values(
                    |i: AccelInstance| packed_instance(self.entries@, i),
                ),
            decreases instances.len() - i,
        {
            let instance = instances[i];
            let blas: u64 = match self.entries.get(&instance.blas) {
                Some(a) => a.resource,
                None => {
                    assert(!instances_known(self.entries@, instances@)) by {
                        assert(!self.entries@.contains_key(instances@[i as int].blas));
                    }
                    return Err(AccelError::InvalidInstanceBlas);
                },
            };
            packed.push(
                PackedInstance {
                    index_and_mask: (instance.custom_index & 0x00ff_ffff) | ((instance.mask as u32)
                        << 24u32),
                    offset_and_flags: INSTANCE_FLAG_TRIANGLE_CULL_DISABLE << 24u32,
                    blas,
                },
            );
            assert(packed@ =~= instances@.take(i + 1).map_values(
                |i: AccelInstance| packed_instance(self.entries@, i),
            ));
            i += 1;
        }
        assert(instances@.take(i as int) =~= instances@);
        Ok(packed)
    }

    /// Records a top-level build over an instance buffer that has been filled.
    pub fn record_build_tlas(
        &mut self,
        dest: u64,
        instance_buffer: u64,
        instances: &Vec<AccelInstance>,
    ) -> (result: Result<RecordedBuild, AccelError>)
        requires
            old(self).wf(),
            instances@.len() <= u32::MAX,
        ensures
            final(self).wf(),
            final(self).next_handle == old(self).next_handle,
            match tlas_refused(old(self).entries@, dest, instances@) {
                Some(e) => result matches Err(f) && f == e && final(self).entries@
                    == old(self).entries@,
                None => {
                    let state = old(self).entries@[dest];
                    &&& result matches Ok(build)
                    &&& build.before@ == issued(
                        tlas_pre_barriers(
                            old(self).entries@,
                            state,
                            instance_buffer,
                            instances@,
                        ),
                    )
                    &&& build.dest == state.resource
                    &&& build.scratch == state.scratch
                    &&& build.geometry is None
                    &&& build.num_descs == instances@.len()
                    &&& build.after@ == issued(post_barriers(state))
                    &&& final(self).entries@ == with_built(old(self).entries@, dest)
                },
            },
    {
        match self.pack_instances(dest, instances) {
            Ok(_) => {},
            Err(e) => {
                return Err(e);
            },
        }
        let state = match self.entries.get(&dest) {
            Some(a) => *a,
            None => {
                return Err(AccelError::InvalidTlas);
            },
        };
        let accel_before: u32 = if state.built {
            ACCESS_RAYTRACING_ACCELERATION_STRUCTURE_READ
        } else {
            ACCESS_COMMON
        };
        let mut pre: Vec<BufferBarrier> = vec![
            into_build_barrier(instance_buffer, ACCESS_COMMON, ACCESS_SHADER_RESOURCE),
            into_build_barrier(state.scratch, ACCESS_COMMON, ACCESS_UNORDERED_ACCESS),
            into_build_barrier(
                state.resource,
                accel_before,
                ACCESS_RAYTRACING_ACCELERATION_STRUCTURE_WRITE,
            ),
        ];
        let ghost accels = self.entries@;
        let mut i: usize = 0;
        assert(pre@ =~= tlas_pre_barriers(accels, state, instance_buffer, instances@.take(0)));
        while i < instances.len()
            invariant
                i <= instances.len(),
                accels == self.entries@,
                instances_known(accels, instances@),
                pre@ == tlas_pre_barriers(
                    accels,
                    state,
                    instance_buffer,
                    instances@.take(i as int),
                ),
            decreases instances.len() - i,
        {
            assert(accels.contains_key(instances@[i as int].blas));
            match self.entries.get(&instances[i].blas) {
                Some(a) => {
                    pre.push(
                        into_build_barrier(
                            a.resource,
                            ACCESS_RAYTRACING_ACCELERATION_STRUCTURE_READ,
                            ACCESS_RAYTRACING_ACCELERATION_STRUCTURE_READ,
                        ),
                    );
                },
                None => {},
            }
            assert(pre@ =~= tlas_pre_barriers(
                accels,
                state,
                instance_buffer,
                instances@.take(i + 1),
            ));
            i += 1;
        }
        assert(instances@.take(i as int) =~= instances@);
        let mut before: Vec<Call> = Vec::new();
        barrier_buffers(&mut before, pre.as_slice());
        assert(before@ =~= issued(
            tlas_pre_barriers(accels, state, instance_buffer, instances@),
        ));
        let after = build_post_barriers(&state);
        self.entries.insert(dest, AccelState { built: true, ..state });
        Ok(
            RecordedBuild {
                before,
                dest: state.resource,
                scratch: state.scratch,
                geometry: None,
                num_descs: instances.len() as u32,
                after,
            },
        )
    }
}

/// A structure to build.
pub enum AccelBuildCommand {
    BlasTriangles { command: BlasBuildCommand },
    Tlas { dest: u64, instances: Vec<AccelInstance> },
}

/// A build was recorded: the barriers around it, what it reads and writes, and the
/// table with the structure built.
pub open spec fn build_recorded(
    build: RecordedBuild,
    dest: AccelState,
    pre: Seq<BufferBarrier>,
    geometry: Option<TriangleGeometry>,
    num_descs: int,
) -> bool {
    &&& build.before@ == issued(pre)
    &&& build.dest == dest.resource
    &&& build.scratch == dest.scratch
    &&& build.geometry == geometry
    &&& build.num_descs == num_descs
    &&& build.after@ == issued(post_barriers(dest))
}

/// Why a build is refused; `None` where it is not.
pub open spec fn build_refused(
    buffers: Map<u64, BufferState>,
    accels: Map<u64, AccelState>,
    build: AccelBuildCommand,
) -> Option<AccelError> {
    match build {
        AccelBuildCommand::BlasTriangles { command } => blas_refused(buffers, accels, command),
        AccelBuildCommand::Tlas { dest, instances } => tlas_refused(accels, dest, instances@),
    }
}

/// The structure that a build writes.
pub open spec fn build_dest(build: AccelBuildCommand) -> u64 {
    match build {
        AccelBuildCommand::BlasTriangles { command } => command.dest,
        AccelBuildCommand::Tlas { dest, instances } => dest,
    }
}

impl AccelTable {
    /// Records a build of either kind. `instance_buffer` is the resource that the
    /// packed instances of a top-level build were written to.
    pub fn record_build_list(
        &mut self,
        buffers: &HashMap<u64, BufferState>,
        instance_buffer: u64,
        build: &AccelBuildCommand,
    ) -> (result: Result<RecordedBuild, AccelError>)
        requires
            old(self).wf(),
            build matches AccelBuildCommand::Tlas { dest, instances } ==> instances@.len()
                <= u32::MAX,
        ensures
            final(self).wf(),
            final(self).next_handle == old(self).next_handle,
            match build_refused(buffers@, old(self).entries@, *build) {
                Some(e) => result matches Err(f) && f == e && final(self).entries@
                    == old(self).entries@,
                None => {
                    let state = old(self).entries@[build_dest(*build)];
                    &&& final(self).entries@ == with_built(old(self).entries@, build_dest(*build))
                    &&& result matches Ok(recorded)
                    &&& match *build {
                        AccelBuildCommand::BlasTriangles { command } => build_recorded(
                            recorded,
                            state,
                            blas_pre_barriers(buffers@, state, command),
                            Some(build_geometry(buffers@, command)),
                            1,
                        ),
                        AccelBuildCommand::Tlas { dest, instances } => build_recorded(
                            recorded,
                            state,
                            tlas_pre_barriers(
                                old(self).entries@,
                                state,
                                instance_buffer,
                                instances@,
                            ),
                            None,
                            instances@.len() as int,
                        ),
                    }
                },
            },
    {
        match build {
            AccelBuildCommand::BlasTriangles { command } => self.record_build_blas(buffers, command),
            AccelBuildCommand::Tlas { dest, instances } => self.record_build_tlas(
                *dest,
                instance_buffer,
                instances,
            ),
        }
    }
}

/// A rebuild takes a structure up in the access that the build before left it in.
pub proof fn rebuild_follows_build(dest: AccelState)
    ensures
        accel_access_before(true) == post_barriers(dest)[0].access_after,
        post_barriers(dest)[0].resource == dest.resource,
{
}

} // verus!
