//! What builds of acceleration structures read and write, which of them are refused, and
//! what they are sized for.

use vstd::prelude::*;

use super::accel::{
    accel_plan, blas_pre_barriers, blas_refused, build_geometry, issued, needed_sizes,
    packed_instance, post_barriers, sizing_geometry, tlas_pre_barriers, tlas_refused, with_built,
    AccelError, AccelInstance, AccelState, BlasBuildCommand, GpuAccelCreate,
    PrebuildInfo, TriangleGeometry, SYNC_RAYTRACING,
};
use super::barriers::{
    Barrier, BufferBarrier, ACCESS_COMMON, ACCESS_RAYTRACING_ACCELERATION_STRUCTURE_READ,
    ACCESS_RAYTRACING_ACCELERATION_STRUCTURE_WRITE, ACCESS_SHADER_RESOURCE,
    ACCESS_UNORDERED_ACCESS, SYNC_ALL, SYNC_BUILD_RAYTRACING_ACCELERATION_STRUCTURE,
    SYNC_COMPUTE_SHADING,
};
use super::command_list::Call;
use super::types::BufferState;

verus! {

broadcast use vstd::std_specs::hash::group_hash_axioms;

/// A build reads its `i`th vertex at a byte of a resource.
pub open spec fn reads_vertex(geometry: TriangleGeometry, i: int, resource: u64, at: int) -> bool {
    &&& 0 <= i < geometry.vertex_count
    &&& geometry.vertex_buffer matches Some(start)
    &&& resource == start.resource
    &&& at == start.offset + i * geometry.vertex_stride
}

/// A build reads its `i`th index, of four bytes, at a byte of a resource.
pub open spec fn reads_index(geometry: TriangleGeometry, i: int, resource: u64, at: int) -> bool {
    &&& 0 <= i < geometry.index_count
    &&& geometry.index_format is R32Uint
    &&& geometry.index_buffer matches Some(start)
    &&& resource == start.resource
    &&& at == start.offset + 4 * i
}

/// A build of triangles reads its `i`th vertex exactly at the byte `vertex_offset + i *
/// vertex_stride` of the resource of the vertex buffer, for as many vertices as it names;
/// and its `i`th index exactly at the byte `index_offset + 4 * i` of the resource of the
/// index buffer, for as many as it names. Without an index buffer it reads no index.
pub proof fn build_reads_its_triangles(
    buffers: Map<u64, BufferState>,
    cmd: BlasBuildCommand,
    i: int,
    resource: u64,
    at: int,
)
    ensures
        reads_vertex(build_geometry(buffers, cmd), i, resource, at) <==> 0 <= i < cmd.vertex_count
            && resource == buffers[cmd.vertex_buffer].resource && at == cmd.vertex_offset + i
            * cmd.vertex_stride,
        reads_index(build_geometry(buffers, cmd), i, resource, at) <==> cmd.index_buffer is Some
            && 0 <= i < cmd.index_count && resource == buffers[cmd.index_buffer->0].resource && at
            == cmd.index_offset + 4 * i,
        cmd.index_buffer is None ==> build_geometry(buffers, cmd).index_count == 0
            && build_geometry(buffers, cmd).index_format is Unknown
            && build_geometry(buffers, cmd).index_buffer is None,
{
}

/// A build of triangles is recorded exactly where its structure is known and holds
/// triangles, it fits what the structure was made for, its indices make up triangles, and
/// its buffers are known.
pub proof fn blas_build_is_recorded_where_it_fits(
    buffers: Map<u64, BufferState>,
    accels: Map<u64, AccelState>,
    cmd: BlasBuildCommand,
)
    ensures
        blas_refused(buffers, accels, cmd) is None <==> {
            let dest = accels[cmd.dest];
            &&& accels.contains_key(cmd.dest)
            &&& !dest.is_tlas
            &&& cmd.vertex_count <= dest.max_vertices
            &&& cmd.vertex_stride == dest.vertex_stride
            &&& cmd.index_count % 3 == 0
            &&& cmd.index_count <= 3 * dest.max_primitives
            &&& cmd.index_count == 0 ==> cmd.vertex_count < 3 * (dest.max_primitives + 1)
            &&& buffers.contains_key(cmd.vertex_buffer)
            &&& cmd.index_buffer matches Some(ib) ==> buffers.contains_key(ib)
        },
{
}

/// The error of a refused build of triangles tells why: each names a condition that the
/// build breaks, with the numbers of the build and of the structure.
pub proof fn blas_refusal_tells_why(
    buffers: Map<u64, BufferState>,
    accels: Map<u64, AccelState>,
    cmd: BlasBuildCommand,
)
    requires
        blas_refused(buffers, accels, cmd) is Some,
    ensures
        ({
            let dest = accels[cmd.dest];
            match blas_refused(buffers, accels, cmd)->0 {
                AccelError::InvalidBlas => !accels.contains_key(cmd.dest),
                AccelError::DestinationIsTlas => dest.is_tlas,
                AccelError::TooManyVertices { count, max } => cmd.vertex_count == count && max
                    == dest.max_vertices && count > max,
                AccelError::StrideMismatch { stride, expected } => cmd.vertex_stride == stride
                    && expected == dest.vertex_stride && stride != expected,
                AccelError::InvalidVertexBuffer => !buffers.contains_key(cmd.vertex_buffer),
                AccelError::IndexCountNotTriangles { count } => cmd.index_count == count && count
                    % 3 != 0,
                AccelError::TooManyPrimitives { count, max } => max == dest.max_primitives && count
                    > max && 3 * count <= if cmd.index_count > 0 {
                    cmd.index_count
                } else {
                    cmd.vertex_count
                } < 3 * count + 3,
                AccelError::InvalidIndexBuffer => cmd.index_buffer matches Some(ib)
                    && !buffers.contains_key(ib),
                _ => false,
            }
        }),
{
}

/// A build of instances is recorded exactly where its structure is known and holds
/// instances, there are no more than it was made for, and each names a known structure.
pub proof fn tlas_build_is_recorded_where_it_fits(
    accels: Map<u64, AccelState>,
    dest: u64,
    instances: Seq<AccelInstance>,
)
    ensures
        tlas_refused(accels, dest, instances) is None <==> {
            &&& accels.contains_key(dest)
            &&& accels[dest].is_tlas
            &&& instances.len() <= accels[dest].max_primitives
            &&& forall|i: int|
                0 <= i < instances.len() ==> accels.contains_key((#[trigger] instances[i]).blas)
        },
        tlas_refused(accels, dest, instances) matches Some(e) ==> match e {
            AccelError::InvalidTlas => !accels.contains_key(dest),
            AccelError::DestinationIsBlas => !accels[dest].is_tlas,
            AccelError::TooManyInstances { count, max } => max == accels[dest].max_primitives && (
            instances.len() <= u32::MAX ==> count == instances.len()) && instances.len() > max,
            AccelError::InvalidInstanceBlas => exists|i: int|
                0 <= i < instances.len() && !accels.contains_key((#[trigger] instances[i]).blas),
            _ => false,
        },
{
}

/// A packed instance names the memory of its own structure.
pub proof fn packed_instance_names_its_structure(
    accels: Map<u64, AccelState>,
    instances: Seq<AccelInstance>,
    i: int,
)
    requires
        0 <= i < instances.len(),
    ensures
        ({
            let packed = instances.map_values(|x: AccelInstance| packed_instance(accels, x));
            &&& packed.len() == instances.len()
            &&& packed[i].blas == accels[instances[i].blas].resource
            &&& packed[i].index_and_mask >> 24u32 == instances[i].mask
            &&& packed[i].index_and_mask & 0x00ff_ffff == instances[i].custom_index & 0x00ff_ffff
        }),
{
    super::accel::packed_instance_keeps_index_and_mask(accels, instances[i]);
}

/// A barrier on a whole resource is queued, and issued later.
pub open spec fn issues(calls: Seq<Call>, barrier: BufferBarrier) -> bool {
    exists|k: int|
        0 <= k < calls.len() - 1 && #[trigger] calls[k] == Call::QueueBarrier(
            Barrier::Buffer(barrier),
        ) && calls.last() is IssueBarriers
}

/// A resource is opened for a build: all that went before is waited for, and the build may
/// then use it in one way.
pub open spec fn opens(calls: Seq<Call>, resource: u64, before: u32, after: u32) -> bool {
    issues(
        calls,
        BufferBarrier {
            sync_before: SYNC_ALL,
            sync_after: SYNC_BUILD_RAYTRACING_ACCELERATION_STRUCTURE,
            access_before: before,
            access_after: after,
            resource,
            offset: 0,
            size: u64::MAX,
        },
    )
}

proof fn lemma_issued(barriers: Seq<BufferBarrier>, k: int)
    requires
        0 <= k < barriers.len(),
    ensures
        issues(issued(barriers), barriers[k]),
{
    let calls = issued(barriers);
    assert(calls[k] == Call::QueueBarrier(Barrier::Buffer(barriers[k])));
}

/// Before a build of triangles, its vertices and its indices are opened for reading, its
/// scratch memory for writing and its structure for being built. What an earlier build used
/// is taken up in the access that that build left it in.
pub proof fn blas_build_opens_what_it_uses(
    buffers: Map<u64, BufferState>,
    dest: AccelState,
    cmd: BlasBuildCommand,
)
    ensures
        ({
            let calls = issued(blas_pre_barriers(buffers, dest, cmd));
            let geometry = if dest.built {
                ACCESS_SHADER_RESOURCE
            } else {
                ACCESS_COMMON
            };
            &&& opens(
                calls,
                buffers[cmd.vertex_buffer].resource,
                geometry,
                ACCESS_SHADER_RESOURCE,
            )
            &&& opens(calls, dest.scratch, ACCESS_COMMON, ACCESS_UNORDERED_ACCESS)
            &&& opens(
                calls,
                dest.resource,
                if dest.built {
                    ACCESS_RAYTRACING_ACCELERATION_STRUCTURE_READ
                } else {
                    ACCESS_COMMON
                },
                ACCESS_RAYTRACING_ACCELERATION_STRUCTURE_WRITE,
            )
            &&& cmd.index_buffer matches Some(ib) ==> opens(
                calls,
                buffers[ib].resource,
                geometry,
                ACCESS_SHADER_RESOURCE,
            )
        }),
{
    let pre = blas_pre_barriers(buffers, dest, cmd);
    lemma_issued(pre, 0);
    lemma_issued(pre, 1);
    lemma_issued(pre, 2);
    if cmd.index_buffer is Some {
        lemma_issued(pre, 3);
    }
}

/// Before a build of instances, the instances and each structure that they name are opened
/// for reading, its scratch memory for writing and its structure for being built.
pub proof fn tlas_build_opens_what_it_uses(
    accels: Map<u64, AccelState>,
    dest: AccelState,
    instance_buffer: u64,
    instances: Seq<AccelInstance>,
    i: int,
)
    ensures
        ({
            let calls = issued(tlas_pre_barriers(accels, dest, instance_buffer, instances));
            &&& opens(calls, instance_buffer, ACCESS_COMMON, ACCESS_SHADER_RESOURCE)
            &&& opens(calls, dest.scratch, ACCESS_COMMON, ACCESS_UNORDERED_ACCESS)
            &&& opens(
                calls,
                dest.resource,
                if dest.built {
                    ACCESS_RAYTRACING_ACCELERATION_STRUCTURE_READ
                } else {
                    ACCESS_COMMON
                },
                ACCESS_RAYTRACING_ACCELERATION_STRUCTURE_WRITE,
            )
            &&& 0 <= i < instances.len() ==> opens(
                calls,
                accels[instances[i].blas].resource,
                ACCESS_RAYTRACING_ACCELERATION_STRUCTURE_READ,
                ACCESS_RAYTRACING_ACCELERATION_STRUCTURE_READ,
            )
        }),
{
    let pre = tlas_pre_barriers(accels, dest, instance_buffer, instances);
    lemma_issued(pre, 0);
    lemma_issued(pre, 1);
    lemma_issued(pre, 2);
    if 0 <= i < instances.len() {
        lemma_issued(pre, 3 + i);
    }
}

/// After a build its structure can be read by builds, by compute shaders and by ray
/// tracing, and its scratch memory is given back.
pub proof fn build_leaves_its_structure_readable(dest: AccelState, b: BufferBarrier, c: BufferBarrier)
    requires
        b.resource == dest.resource,
        b.offset == 0,
        b.size == u64::MAX,
        b.sync_before == SYNC_BUILD_RAYTRACING_ACCELERATION_STRUCTURE,
        b.sync_after == SYNC_BUILD_RAYTRACING_ACCELERATION_STRUCTURE | SYNC_COMPUTE_SHADING
            | SYNC_RAYTRACING,
        b.access_before == ACCESS_RAYTRACING_ACCELERATION_STRUCTURE_WRITE,
        b.access_after == ACCESS_RAYTRACING_ACCELERATION_STRUCTURE_READ,
        c.resource == dest.scratch,
        c.offset == 0,
        c.size == u64::MAX,
        c.sync_before == SYNC_BUILD_RAYTRACING_ACCELERATION_STRUCTURE,
        c.sync_after == SYNC_ALL,
        c.access_before == ACCESS_UNORDERED_ACCESS,
        c.access_after == ACCESS_COMMON,
    ensures
        issues(issued(post_barriers(dest)), b),
        issues(issued(post_barriers(dest)), c),
{
    lemma_issued(post_barriers(dest), 0);
    lemma_issued(post_barriers(dest), 1);
}

/// A structure is made large enough for either way of building it, and no larger than the
/// larger of the two asks for, but for its least sizes; it is made for what was asked for.
/// It is refused exactly where the device knows no size.
pub proof fn structure_is_made_for_either_build(
    device_handle: u64,
    desc: GpuAccelCreate,
    first: PrebuildInfo,
    second: PrebuildInfo,
)
    ensures
        needed_sizes(desc, first, second) is Ok <==> first.result_size > 0 && (
        desc is BlasTriangles ==> second.result_size > 0),
        needed_sizes(desc, first, second) matches Ok(sizes) ==> {
            let plan = accel_plan(device_handle, desc, sizes);
            &&& plan.device_handle == device_handle
            &&& plan.result_width >= first.result_size
            &&& plan.scratch_width >= first.scratch_size
            &&& plan.scratch_width >= 256
            &&& desc matches GpuAccelCreate::BlasTriangles {
                max_triangles,
                max_vertices,
                vertex_stride,
            } ==> {
                &&& !plan.is_tlas
                &&& plan.max_primitives == max_triangles
                &&& plan.max_vertices == max_vertices
                &&& plan.vertex_stride == vertex_stride
                &&& plan.result_width >= second.result_size
                &&& plan.scratch_width >= second.scratch_size
                &&& plan.result_width == first.result_size || plan.result_width
                    == second.result_size
                &&& plan.scratch_width == first.scratch_size || plan.scratch_width
                    == second.scratch_size || plan.scratch_width == 256
            }
            &&& desc matches GpuAccelCreate::Tlas { max_instances } ==> {
                &&& plan.is_tlas
                &&& plan.max_primitives == max_instances
                &&& plan.result_width == first.result_size
                &&& plan.scratch_width == first.scratch_size || plan.scratch_width == 256
            }
        },
{
}

/// What a structure is sized for is no less than any build that it takes: as many vertices,
/// as many indices, and the same stride. A plain build is sized without indices.
pub proof fn recorded_build_fits_what_was_sized(
    buffers: Map<u64, BufferState>,
    accels: Map<u64, AccelState>,
    cmd: BlasBuildCommand,
    max_triangles: u32,
    max_vertices: u32,
    vertex_stride: u32,
)
    requires
        blas_refused(buffers, accels, cmd) is None,
        accels[cmd.dest].max_primitives == max_triangles,
        accels[cmd.dest].max_vertices == max_vertices,
        accels[cmd.dest].vertex_stride == vertex_stride,
    ensures
        ({
            let indexed = sizing_geometry(max_vertices, max_triangles, vertex_stride, true);
            let plain = sizing_geometry(max_vertices, max_triangles, vertex_stride, false);
            let built = build_geometry(buffers, cmd);
            &&& built.vertex_count <= indexed.vertex_count
            &&& built.vertex_count <= plain.vertex_count
            &&& built.vertex_stride == indexed.vertex_stride
            &&& built.vertex_stride == plain.vertex_stride
            &&& built.index_count <= indexed.index_count
            &&& built.index_buffer is Some ==> built.index_format == indexed.index_format
            &&& built.index_buffer is None ==> built.index_format == plain.index_format
            &&& plain.index_count == 0
        }),
{
}

/// A build marks its own structure as built and changes nothing else.
pub proof fn build_marks_its_structure(accels: Map<u64, AccelState>, dest: u64, other: u64)
    requires
        accels.contains_key(dest),
        other != dest,
    ensures
        with_built(accels, dest)[dest].built,
        with_built(accels, dest)[dest].resource == accels[dest].resource,
        with_built(accels, dest)[dest].scratch == accels[dest].scratch,
        with_built(accels, dest)[dest].is_tlas == accels[dest].is_tlas,
        with_built(accels, dest)[dest].max_primitives == accels[dest].max_primitives,
        with_built(accels, dest)[dest].max_vertices == accels[dest].max_vertices,
        with_built(accels, dest)[dest].vertex_stride == accels[dest].vertex_stride,
        with_built(accels, dest)[dest].bindless_offset == accels[dest].bindless_offset,
        with_built(accels, dest).contains_key(other) == accels.contains_key(other),
        with_built(accels, dest)[other] == accels[other],
{
}

} // verus!
