//! What retained work keeps alive, and what it goes with.

use vstd::prelude::*;

use super::ops::{
    op_buffers, op_hosts, op_modules, op_textures, pinned_buffers, pinned_hosts, pinned_modules,
    pinned_textures, stream_part, CudaOp, LaunchRecord, Pins,
};
use super::raster::RasterError;
use super::raster_pass::{RasterScene, RenderCommand};
use super::raster_record::{lowering_error, slots_of};
use super::surface::CudaSurfaceState;
use super::surface_evict::{
    any_in, command_touches, image_doomed, touches, Doomed, RetainedEntry, ScratchImage,
};
use super::surface_laws::slots_of_a_texture_go_with_it;
use super::surface_table::{slots_of_handles, slots_of_texture};
use super::texture::CudaTexture;
use super::timeline::{unshared, RetiredEvent};
use crate::dx12::commands::{GpuCommand, GraphCommand};

verus! {

broadcast use vstd::std_specs::hash::group_hash_axioms;

proof fn lemma_either<T>(a: Seq<T>, b: Seq<T>, x: T)
    ensures
        (a + b).contains(x) <==> a.contains(x) || b.contains(x),
{
    if a.contains(x) {
        let k = choose|k: int| 0 <= k < a.len() && a[k] == x;
        assert((a + b)[k] == x);
    }
    if b.contains(x) {
        let k = choose|k: int| 0 <= k < b.len() && b[k] == x;
        assert((a + b)[a.len() + k] == x);
    }
    if (a + b).contains(x) {
        let k = choose|k: int| 0 <= k < (a + b).len() && (a + b)[k] == x;
        if k < a.len() {
            assert(a[k] == x);
        } else {
            assert(b[k - a.len()] == x);
        }
    }
}

/// Memory is pinned for operations exactly where one of them touches it.
pub proof fn memory_is_pinned_where_it_is_touched(
    launches: Seq<LaunchRecord>,
    ops: Seq<CudaOp>,
    id: u64,
)
    ensures
        pinned_buffers(launches, ops).contains(id) <==> exists|i: int|
            0 <= i < ops.len() && op_buffers(launches, #[trigger] ops[i]).contains(id),
    decreases ops.len(),
{
    if ops.len() > 0 {
        let rest = ops.drop_last();
        memory_is_pinned_where_it_is_touched(launches, rest, id);
        lemma_either(pinned_buffers(launches, rest), op_buffers(launches, ops.last()), id);
        if pinned_buffers(launches, rest).contains(id) {
            let i = choose|i: int|
                0 <= i < rest.len() && op_buffers(launches, #[trigger] rest[i]).contains(id);
            assert(ops[i] == rest[i]);
        }
        if op_buffers(launches, ops.last()).contains(id) {
            assert(ops[ops.len() - 1] == ops.last());
        }
        assert forall|i: int|
            0 <= i < ops.len() && op_buffers(launches, #[trigger] ops[i]).contains(
                id,
            ) implies pinned_buffers(launches, ops).contains(id) by {
            if i < rest.len() {
                assert(rest[i] == ops[i]);
            }
        }
    }
}

/// A texture is pinned for operations exactly where one of them touches it.
pub proof fn textures_are_pinned_where_they_are_touched(
    launches: Seq<LaunchRecord>,
    ops: Seq<CudaOp>,
    id: u64,
)
    ensures
        pinned_textures(launches, ops).contains(id) <==> exists|i: int|
            0 <= i < ops.len() && op_textures(launches, #[trigger] ops[i]).contains(id),
    decreases ops.len(),
{
    if ops.len() > 0 {
        let rest = ops.drop_last();
        textures_are_pinned_where_they_are_touched(launches, rest, id);
        lemma_either(pinned_textures(launches, rest), op_textures(launches, ops.last()), id);
        if pinned_textures(launches, rest).contains(id) {
            let i = choose|i: int|
                0 <= i < rest.len() && op_textures(launches, #[trigger] rest[i]).contains(id);
            assert(ops[i] == rest[i]);
        }
        if op_textures(launches, ops.last()).contains(id) {
            assert(ops[ops.len() - 1] == ops.last());
        }
        assert forall|i: int|
            0 <= i < ops.len() && op_textures(launches, #[trigger] ops[i]).contains(
                id,
            ) implies pinned_textures(launches, ops).contains(id) by {
            if i < rest.len() {
                assert(rest[i] == ops[i]);
            }
        }
    }
}

/// Host staging is pinned for operations exactly where one of them reads it.
pub proof fn staging_is_pinned_where_it_is_read(ops: Seq<CudaOp>, id: u64)
    ensures
        pinned_hosts(ops).contains(id) <==> exists|i: int|
            0 <= i < ops.len() && op_hosts(#[trigger] ops[i]).contains(id),
    decreases ops.len(),
{
    if ops.len() > 0 {
        let rest = ops.drop_last();
        staging_is_pinned_where_it_is_read(rest, id);
        lemma_either(pinned_hosts(rest), op_hosts(ops.last()), id);
        if pinned_hosts(rest).contains(id) {
            let i = choose|i: int| 0 <= i < rest.len() && op_hosts(#[trigger] rest[i]).contains(id);
            assert(ops[i] == rest[i]);
        }
        if op_hosts(ops.last()).contains(id) {
            assert(ops[ops.len() - 1] == ops.last());
        }
        assert forall|i: int|
            0 <= i < ops.len() && op_hosts(#[trigger] ops[i]).contains(id) implies pinned_hosts(
            ops,
        ).contains(id) by {
            if i < rest.len() {
                assert(rest[i] == ops[i]);
            }
        }
    }
}

/// The operation runs code of the module: its kernel, or what sets its grid.
pub open spec fn runs_code_of(launches: Seq<LaunchRecord>, op: CudaOp, module: u64) -> bool {
    ||| op is Launch && launches[op->Launch_launch as int].module == module
    ||| op is LaunchIndirect && launches[op->LaunchIndirect_launch as int].module == module
    ||| op is LaunchIndirect && op->LaunchIndirect_shape.updater_module == module
}

/// A module is pinned for operations exactly where one of them runs its code.
pub proof fn modules_are_pinned_where_they_run(
    launches: Seq<LaunchRecord>,
    ops: Seq<CudaOp>,
    module: u64,
)
    ensures
        pinned_modules(launches, ops).contains(module) <==> exists|i: int|
            0 <= i < ops.len() && runs_code_of(launches, #[trigger] ops[i], module),
    decreases ops.len(),
{
    if ops.len() > 0 {
        let rest = ops.drop_last();
        let own = op_modules(launches, ops.last());
        modules_are_pinned_where_they_run(launches, rest, module);
        lemma_either(pinned_modules(launches, rest), own, module);
        if runs_code_of(launches, ops.last(), module) {
            assert(own[0] == module || own[1] == module);
        }
        if pinned_modules(launches, rest).contains(module) {
            let i = choose|i: int|
                0 <= i < rest.len() && runs_code_of(launches, #[trigger] rest[i], module);
            assert(ops[i] == rest[i]);
        }
        if own.contains(module) {
            assert(ops[ops.len() - 1] == ops.last());
        }
        assert forall|i: int|
            0 <= i < ops.len() && runs_code_of(
                launches,
                #[trigger] ops[i],
                module,
            ) implies pinned_modules(launches, ops).contains(module) by {
            if i < rest.len() {
                assert(rest[i] == ops[i]);
            }
        }
    }
}

/// The pins of operations hold all that each of them touches, reads or runs.
pub proof fn pins_hold_what_the_operations_need(
    pins: Pins,
    launches: Seq<LaunchRecord>,
    ops: Seq<CudaOp>,
    i: int,
    id: u64,
)
    requires
        pins.of(launches, ops),
        0 <= i < ops.len(),
    ensures
        op_buffers(launches, ops[i]).contains(id) ==> pins.buffers@.contains(id),
        op_textures(launches, ops[i]).contains(id) ==> pins.textures@.contains(id),
        op_hosts(ops[i]).contains(id) ==> pins.hosts@.contains(id),
        runs_code_of(launches, ops[i], id) ==> pins.modules@.contains(id),
{
    memory_is_pinned_where_it_is_touched(launches, ops, id);
    textures_are_pinned_where_they_are_touched(launches, ops, id);
    staging_is_pinned_where_it_is_read(ops, id);
    modules_are_pinned_where_they_run(launches, ops, id);
}

/// A command goes with each texture it writes, copies or makes ready, and with each
/// bindless slot it hands to a shader; it goes with nothing else.
pub proof fn command_goes_with_what_it_names(doomed: Doomed, command: GpuCommand, i: int)
    ensures
        ({
            let goes = command_touches(doomed, GraphCommand::Compute(command));
            let handles = doomed.handles@;
            &&& command matches GpuCommand::WriteTexture { texture, .. } ==> goes
                == handles.contains(texture)
            &&& command matches GpuCommand::WriteTextureRegion { texture, .. } ==> goes
                == handles.contains(texture)
            &&& command matches GpuCommand::CopyRenderTarget { dst, .. } ==> goes
                == handles.contains(dst)
            &&& command matches GpuCommand::CopyBufferToTexture { dst, .. } ==> goes
                == handles.contains(dst)
            &&& command matches GpuCommand::CopyTextureToReadback { src, .. } ==> goes
                == handles.contains(src)
            &&& command matches GpuCommand::CopyTexture { src, dst } ==> goes == (handles.contains(
                src,
            ) || handles.contains(dst))
            &&& command matches GpuCommand::BindResourcesRaw { indices, .. } ==> (0 <= i
                < indices@.len() && doomed.slots@.contains(indices@[i]) ==> goes)
            &&& command matches GpuCommand::FrameTableStaging { words } ==> (0 <= i < words@.len()
                && doomed.slots@.contains(words@[i]) ==> goes)
            &&& command matches GpuCommand::ResourceBarrier { textures, .. } ==> (0 <= i
                < textures@.len() && handles.contains(textures@[i].0) ==> goes)
            &&& handles.is_empty() && doomed.slots@.is_empty() ==> !goes
            &&& command is SetPipeline || command is BindResourcesTyped || command is Dispatch
                || command is DispatchIndirect || command is DispatchBatch || command is Barrier
                || command is ClearBuffer || command is WriteBuffer || command is CopyBuffer
                ==> !goes
        }),
{
}

/// Retained operations go with each texture that one of them touches, and with nothing
/// else; so do retained segments for what they replay on the stream, and for the images
/// whose scratch they were made for. Retained commands go where one of them does.
pub proof fn work_goes_with_what_it_touches(
    surfaces: Map<u64, CudaSurfaceState>,
    doomed: Doomed,
    entry: RetainedEntry,
)
    ensures
        entry matches RetainedEntry::Ops { launches, ops } ==> (touches(surfaces, doomed, entry)
            <==> exists|i: int, id: u64|
            0 <= i < ops@.len() && #[trigger] op_textures(launches@, ops@[i]).contains(id)
                && doomed.textures@.contains(id)),
        entry matches RetainedEntry::Segmented { launches, segments, scratch_images } ==> (touches(
            surfaces,
            doomed,
            entry,
        ) <==> (exists|i: int, id: u64|
            0 <= i < stream_part(segments@).len() && #[trigger] op_textures(
                launches@,
                stream_part(segments@)[i],
            ).contains(id) && doomed.textures@.contains(id)) || (exists|k: int|
            0 <= k < scratch_images@.len() && image_doomed(
                surfaces,
                doomed,
                #[trigger] scratch_images@[k],
            ))),
        entry matches RetainedEntry::Render { commands } ==> (touches(surfaces, doomed, entry)
            <==> exists|i: int|
            0 <= i < commands@.len() && command_touches(doomed, #[trigger] commands@[i])),
        entry is PresentRenderTarget ==> !touches(surfaces, doomed, entry),
{
    match entry {
        RetainedEntry::Ops { launches, ops } => {
            lemma_touched_textures(launches@, ops@, doomed.textures@);
        },
        RetainedEntry::Segmented { launches, segments, scratch_images } => {
            lemma_touched_textures(launches@, stream_part(segments@), doomed.textures@);
        },
        _ => {},
    }
}

proof fn lemma_touched_textures(launches: Seq<LaunchRecord>, ops: Seq<CudaOp>, gone: Set<u64>)
    ensures
        any_in(pinned_textures(launches, ops), gone) <==> exists|i: int, id: u64|
            0 <= i < ops.len() && #[trigger] op_textures(launches, ops[i]).contains(id)
                && gone.contains(id),
{
    let pinned = pinned_textures(launches, ops);
    if any_in(pinned, gone) {
        let k = choose|k: int| 0 <= k < pinned.len() && gone.contains(#[trigger] pinned[k]);
        let id = pinned[k];
        assert(pinned.contains(id));
        textures_are_pinned_where_they_are_touched(launches, ops, id);
        let i = choose|i: int|
            0 <= i < ops.len() && op_textures(launches, #[trigger] ops[i]).contains(id);
        assert(op_textures(launches, ops[i]).contains(id));
    }
    assert forall|i: int, id: u64|
        0 <= i < ops.len() && #[trigger] op_textures(launches, ops[i]).contains(id)
            && gone.contains(id) implies any_in(pinned, gone) by {
        textures_are_pinned_where_they_are_touched(launches, ops, id);
        let k = choose|k: int| 0 <= k < pinned.len() && pinned[k] == id;
        assert(gone.contains(pinned[k]));
    }
}

/// An image goes with its scratch, and only while its surface is there.
pub proof fn image_goes_with_its_scratch(
    surfaces: Map<u64, CudaSurfaceState>,
    doomed: Doomed,
    image: ScratchImage,
)
    ensures
        image_doomed(surfaces, doomed, image) ==> surfaces.contains_key(image.surface) && image.image
            < surfaces[image.surface].scratch@.len(),
        surfaces.contains_key(image.surface) && image.image
            < surfaces[image.surface].scratch@.len() ==> (
        match surfaces[image.surface].scratch@[image.image as int] {
            Some(slot) => image_doomed(surfaces, doomed, image) == doomed.handles@.contains(
                slot.texture_handle,
            ),
            None => !image_doomed(surfaces, doomed, image),
        }),
{
}

/// The bindless slots of textures are those of each texture that is known.
pub proof fn slots_of_textures_are_those_of_each(
    textures: Map<u64, CudaTexture>,
    handles: Seq<u64>,
    slot: u32,
)
    ensures
        slots_of_handles(textures, handles).contains(slot) <==> exists|i: int|
            0 <= i < handles.len() && textures.contains_key(#[trigger] handles[i]) && (
            textures[handles[i]].storage_slot == Some(slot) || textures[handles[i]].sampled_slot
                == Some(slot)),
    decreases handles.len(),
{
    if handles.len() > 0 {
        let rest = handles.drop_last();
        let h = handles.last();
        slots_of_textures_are_those_of_each(textures, rest, slot);
        let own = if textures.contains_key(h) {
            slots_of_texture(textures[h])
        } else {
            Seq::empty()
        };
        lemma_either(slots_of_handles(textures, rest), own, slot);
        if textures.contains_key(h) {
            slots_of_a_texture_go_with_it(Map::empty(), textures[h], slot);
        }
        if slots_of_handles(textures, rest).contains(slot) {
            let i = choose|i: int|
                0 <= i < rest.len() && textures.contains_key(#[trigger] rest[i]) && (
                textures[rest[i]].storage_slot == Some(slot) || textures[rest[i]].sampled_slot
                    == Some(slot));
            assert(handles[i] == rest[i]);
        }
        assert(handles[handles.len() - 1] == h);
        assert forall|i: int|
            0 <= i < handles.len() && textures.contains_key(#[trigger] handles[i]) && (
            textures[handles[i]].storage_slot == Some(slot) || textures[handles[i]].sampled_slot
                == Some(slot)) implies slots_of_handles(textures, handles).contains(slot) by {
            if i < rest.len() {
                assert(rest[i] == handles[i]);
            }
        }
    }
}

/// An event is free for another use exactly where no waiter holds it.
pub proof fn events_are_free_where_nobody_waits(events: Seq<RetiredEvent>, event: u64)
    ensures
        unshared(events).contains(event) <==> exists|i: int|
            0 <= i < events.len() && (#[trigger] events[i]).event == event && !events[i].shared,
    decreases events.len(),
{
    if events.len() > 0 {
        let rest = events.drop_last();
        events_are_free_where_nobody_waits(rest, event);
        let own = if events.last().shared {
            Seq::empty()
        } else {
            seq![events.last().event]
        };
        lemma_either(unshared(rest), own, event);
        assert(unshared(events) =~= unshared(rest) + own);
        if !events.last().shared {
            assert(own[0] == events.last().event);
        }
        if unshared(rest).contains(event) {
            let i = choose|i: int|
                0 <= i < rest.len() && (#[trigger] rest[i]).event == event && !rest[i].shared;
            assert(events[i] == rest[i]);
        }
        assert(events[events.len() - 1] == events.last());
        assert forall|i: int|
            0 <= i < events.len() && (#[trigger] events[i]).event == event
                && !events[i].shared implies unshared(events).contains(event) by {
            if i < rest.len() {
                assert(rest[i] == events[i]);
            }
        }
    }
}

/// A pass can be lowered exactly where each of its binds names buffers that have a
/// bindless slot, and is refused for the first that does not.
pub proof fn pass_is_lowered_where_its_buffers_have_slots(
    scene: RasterScene,
    commands: Seq<RenderCommand>,
)
    ensures
        lowering_error(scene, commands) is None <==> forall|i: int|
            0 <= i < commands.len() ==> (#[trigger] commands[i] matches RenderCommand::BindResources {
                buffers,
            } ==> slots_of(scene, buffers@) is Ok),
        lowering_error(scene, commands) matches Some(e) ==> exists|i: int|
            0 <= i < commands.len() && (#[trigger] commands[i] matches RenderCommand::BindResources {
                buffers,
            } && slots_of(scene, buffers@) == Err::<Seq<u32>, RasterError>(e)) && lowering_error(
                scene,
                commands.take(i),
            ) is None,
    decreases commands.len(),
{
    if commands.len() > 0 {
        let rest = commands.drop_last();
        pass_is_lowered_where_its_buffers_have_slots(scene, rest);
        assert(forall|i: int| 0 <= i < rest.len() ==> #[trigger] rest[i] == commands[i]);
        if lowering_error(scene, rest) is Some {
            let e = lowering_error(scene, rest)->0;
            let i = choose|i: int|
                0 <= i < rest.len() && (#[trigger] rest[i] matches RenderCommand::BindResources {
                    buffers,
                } && slots_of(scene, buffers@) == Err::<Seq<u32>, RasterError>(e))
                    && lowering_error(scene, rest.take(i)) is None;
            assert(commands[i] == rest[i]);
            assert(commands.take(i) =~= rest.take(i));
        } else {
            let last = commands.len() - 1;
            assert(commands.take(last) =~= rest);
            assert(commands[last] == commands.last());
            assert forall|i: int|
                0 <= i < commands.len() && lowering_error(scene, commands) is None implies (
            #[trigger] commands[i] matches RenderCommand::BindResources { buffers } ==> slots_of(
                scene,
                buffers@,
            ) is Ok) by {
                if i < last {
                    assert(rest[i] == commands[i]);
                }
            }
        }
    }
}

} // verus!
