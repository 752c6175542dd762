//! What recording does: commands on a list, builds of acceleration structures.

use std::collections::HashMap;
use vstd::prelude::*;

use super::accel::{
    AccelBuildCommand, AccelError, AccelInstance, AccelPlan, AccelState, AccelTable,
    BlasBuildCommand, RecordedBuild, ReleasedAccel,
};
use super::accel_laws::{
    blas_build_is_recorded_where_it_fits, build_reads_its_triangles, reads_index, reads_vertex,
};
use super::command_list::Call;
use super::commands::GpuCommand;
use super::context::ContextFence;
use super::device::LogicalDevice;
use super::list_laws::{
    dispatch_runs_the_groups_of_its_command, executions, runs_group,
};
use super::outcome_laws::unattributed_resource_waits_for_every_context;
use super::record::{RecordError, RecordInputs, Recorder};
use super::record_laws::added_calls;
use super::types::{BufferState, RecordTables, TextureState};

verus! {

broadcast use vstd::std_specs::hash::group_hash_axioms;

/// Recording a dispatch puts calls behind those that are there, which run shaders once:
/// group `(x, y, z)` runs exactly where each of its numbers is below the number of groups
/// that the command gives along that axis. No texture changes its layout.
pub proof fn recorded_dispatch_runs_its_groups(
    recorder: &mut Recorder,
    tables: &RecordTables,
    inputs: &RecordInputs,
    textures: &mut HashMap<u64, TextureState>,
    cmd: &GpuCommand,
    result: Result<(), RecordError>,
    x: int,
    y: int,
    z: int,
)
    requires
        call_ensures(Recorder::record_gpu_command, (recorder, tables, inputs, textures, cmd), result),
        0 <= old(recorder)@.dispatch_idx < 0x7fff_fff0,
        *cmd is Dispatch,
    ensures
        ({
            let before = old(recorder)@.calls;
            let after = final(recorder)@.calls;
            let added = after.subrange(before.len() as int, after.len() as int);
            &&& result is Ok
            &&& before.len() <= after.len()
            &&& after.take(before.len() as int) == before
            &&& executions(added) == 1
            &&& runs_group(added, x, y, z) <==> x < cmd->workgroups_x && y < cmd->workgroups_y && z
                < cmd->workgroups_z
            &&& final(textures)@ == old(textures)@
        }),
{
    dispatch_runs_the_groups_of_its_command(
        *tables,
        *inputs,
        old(textures)@,
        old(recorder)@,
        cmd->Dispatch_label,
        cmd->workgroups_x,
        cmd->workgroups_y,
        cmd->workgroups_z,
        x,
        y,
        z,
    );
    let before = old(recorder)@.calls;
    let after = final(recorder)@.calls;
    let added = added_calls(*tables, *inputs, old(textures)@, old(recorder)@, *cmd);
    assert(after == before + added);
    assert(after.take(before.len() as int) =~= before);
    assert(after.subrange(before.len() as int, after.len() as int) =~= added);
}

/// A command that cannot be recorded leaves the list and the layouts as they are.
pub proof fn refused_command_leaves_the_list(
    recorder: &mut Recorder,
    tables: &RecordTables,
    inputs: &RecordInputs,
    textures: &mut HashMap<u64, TextureState>,
    cmd: &GpuCommand,
    result: Result<(), RecordError>,
)
    requires
        call_ensures(Recorder::record_gpu_command, (recorder, tables, inputs, textures, cmd), result),
        result is Err,
    ensures
        final(recorder)@ == old(recorder)@,
        final(textures)@ == old(textures)@,
{
}

/// A build of triangles is recorded exactly where it fits its structure. It builds the
/// structure that it names, in that structure's scratch memory, from one description that
/// reads vertex `i` at the byte `vertex_offset + i * vertex_stride` of the vertex buffer
/// and index `i` at the byte `index_offset + 4 * i` of the index buffer. Only that
/// structure counts as built then.
pub proof fn recorded_build_reads_its_triangles(
    table: &mut AccelTable,
    buffers: &HashMap<u64, BufferState>,
    cmd: &BlasBuildCommand,
    result: Result<RecordedBuild, AccelError>,
    i: int,
    resource: u64,
    at: int,
    other: u64,
)
    requires
        call_ensures(AccelTable::record_build_blas, (table, buffers, cmd), result),
    ensures
        result is Ok <==> {
            let dest = old(table).entries@[cmd.dest];
            &&& old(table).entries@.contains_key(cmd.dest)
            &&& !dest.is_tlas
            &&& cmd.vertex_count <= dest.max_vertices
            &&& cmd.vertex_stride == dest.vertex_stride
            &&& cmd.index_count % 3 == 0
            &&& cmd.index_count <= 3 * dest.max_primitives
            &&& cmd.index_count == 0 ==> cmd.vertex_count < 3 * (dest.max_primitives + 1)
            &&& buffers@.contains_key(cmd.vertex_buffer)
            &&& cmd.index_buffer matches Some(ib) ==> buffers@.contains_key(ib)
        },
        result matches Ok(build) ==> {
            let dest = old(table).entries@[cmd.dest];
            &&& build.dest == dest.resource
            &&& build.scratch == dest.scratch
            &&& build.num_descs == 1
            &&& build.geometry is Some
            &&& reads_vertex(build.geometry->0, i, resource, at) <==> 0 <= i < cmd.vertex_count
                && resource == buffers@[cmd.vertex_buffer].resource && at == cmd.vertex_offset + i
                * cmd.vertex_stride
            &&& reads_index(build.geometry->0, i, resource, at) <==> cmd.index_buffer is Some && 0
                <= i < cmd.index_count && resource == buffers@[cmd.index_buffer->0].resource && at
                == cmd.index_offset + 4 * i
            &&& final(table).entries@.contains_key(cmd.dest)
            &&& final(table).entries@[cmd.dest].built
            &&& final(table).entries@[cmd.dest].resource == dest.resource
        },
        result is Err ==> final(table).entries@ == old(table).entries@,
        other != cmd.dest ==> (final(table).entries@.contains_key(other)
            <==> old(table).entries@.contains_key(other)) && final(table).entries@[other]
            == old(table).entries@[other],
{
    blas_build_is_recorded_where_it_fits(buffers@, old(table).entries@, *cmd);
    build_reads_its_triangles(buffers@, *cmd, i, resource, at);
}

/// A build of instances builds the structure that it names, in that structure's scratch
/// memory, from as many descriptions as there are instances; it has no triangles of its
/// own. Only that structure counts as built then.
pub proof fn recorded_build_has_its_instances(
    table: &mut AccelTable,
    dest: u64,
    instance_buffer: u64,
    instances: &Vec<AccelInstance>,
    result: Result<RecordedBuild, AccelError>,
    other: u64,
)
    requires
        call_ensures(AccelTable::record_build_tlas, (table, dest, instance_buffer, instances), result),
    ensures
        result matches Ok(build) ==> {
            let state = old(table).entries@[dest];
            &&& old(table).entries@.contains_key(dest)
            &&& state.is_tlas
            &&& build.dest == state.resource
            &&& build.scratch == state.scratch
            &&& build.num_descs == instances@.len()
            &&& build.geometry is None
            &&& final(table).entries@[dest].built
        },
        result is Err ==> final(table).entries@ == old(table).entries@,
        other != dest ==> (final(table).entries@.contains_key(other)
            <==> old(table).entries@.contains_key(other)) && final(table).entries@[other]
            == old(table).entries@[other],
{
}

/// A build of either kind is what recording it by its kind gives.
pub proof fn build_list_builds_what_it_names(
    table: &mut AccelTable,
    buffers: &HashMap<u64, BufferState>,
    instance_buffer: u64,
    build: &AccelBuildCommand,
    result: Result<RecordedBuild, AccelError>,
    i: int,
    resource: u64,
    at: int,
)
    requires
        call_ensures(AccelTable::record_build_list, (table, buffers, instance_buffer, build), result),
        result is Ok,
        build matches AccelBuildCommand::Tlas { instances, .. } ==> instances@.len() <= u32::MAX,
    ensures
        *build matches AccelBuildCommand::BlasTriangles { command: cmd } ==> {
            let dest = old(table).entries@[cmd.dest];
            &&& result->Ok_0.dest == dest.resource
            &&& result->Ok_0.scratch == dest.scratch
            &&& result->Ok_0.num_descs == 1
            &&& result->Ok_0.geometry is Some
            &&& reads_vertex(result->Ok_0.geometry->0, i, resource, at) <==> 0 <= i
                < cmd.vertex_count && resource == buffers@[cmd.vertex_buffer].resource && at
                == cmd.vertex_offset + i * cmd.vertex_stride
            &&& reads_index(result->Ok_0.geometry->0, i, resource, at) <==> cmd.index_buffer is Some
                && 0 <= i < cmd.index_count && resource == buffers@[cmd.index_buffer->0].resource
                && at == cmd.index_offset + 4 * i
            &&& final(table).entries@[cmd.dest].built
        },
        *build matches AccelBuildCommand::Tlas { dest, instances } ==> {
            let state = old(table).entries@[dest];
            &&& result->Ok_0.dest == state.resource
            &&& result->Ok_0.scratch == state.scratch
            &&& result->Ok_0.num_descs == instances@.len()
            &&& result->Ok_0.geometry is None
            &&& final(table).entries@[dest].built
        },
{
    if *build is BlasTriangles {
        build_reads_its_triangles(buffers@, build->BlasTriangles_command, i, resource, at);
    }
}

/// A structure that is entered is as it was planned, has the memory that was made for it,
/// and is not built.
pub proof fn entered_structure_is_as_planned(
    table: &mut AccelTable,
    plan: AccelPlan,
    resource: u64,
    scratch: u64,
    bindless_offset: u32,
    handle: u64,
    other: u64,
)
    requires
        call_ensures(
            AccelTable::finish_create,
            (table, plan, resource, scratch, bindless_offset),
            handle,
        ),
    ensures
        handle == old(table).next_handle,
        final(table).next_handle > handle,
        ({
            let state = final(table).entries@[handle];
            &&& final(table).entries@.contains_key(handle)
            &&& state.resource == resource
            &&& state.scratch == scratch
            &&& state.bindless_offset == Some(bindless_offset)
            &&& state.device_handle == plan.device_handle
            &&& state.is_tlas == plan.is_tlas
            &&& state.max_primitives == plan.max_primitives
            &&& state.max_vertices == plan.max_vertices
            &&& state.vertex_stride == plan.vertex_stride
            &&& !state.built
        }),
        other != handle && old(table).entries@.contains_key(other)
            ==> final(table).entries@.contains_key(other) && final(table).entries@[other]
            == old(table).entries@[other],
{
}

/// A structure that is taken out hands out its memory and its slot, which wait for what
/// every context of its device has submitted.
pub proof fn destroyed_structure_hands_out_what_it_owned(
    table: &mut AccelTable,
    devices: &HashMap<u64, LogicalDevice>,
    fences: &HashMap<u64, ContextFence>,
    handle: u64,
    released: Option<ReleasedAccel>,
    context: u64,
    other: u64,
)
    requires
        call_ensures(AccelTable::destroy, (table, devices, fences, handle), released),
    ensures
        !final(table).entries@.contains_key(handle),
        other != handle && old(table).entries@.contains_key(other)
            ==> final(table).entries@.contains_key(other) && final(table).entries@[other]
            == old(table).entries@[other],
        released matches Some(r) ==> {
            let was = old(table).entries@[handle];
            &&& old(table).entries@.contains_key(handle)
            &&& r.accel_handle == handle
            &&& r.resource == was.resource
            &&& r.scratch == was.scratch
            &&& r.bindless_offset == was.bindless_offset
            &&& r.device_handle == was.device_handle
            &&& fences@.contains_key(context) && fences@[context].device == was.device_handle
                ==> exists|i: int|
                0 <= i < r.requirements@.len() && #[trigger] r.requirements@[i] == (
                    context,
                    fences@[context].last_submitted_seq,
                )
        },
{
    if released is Some {
        unattributed_resource_waits_for_every_context(
            fences@,
            old(table).entries@[handle].device_handle,
            released->0.requirements@,
            context,
        );
    }
}

} // verus!
