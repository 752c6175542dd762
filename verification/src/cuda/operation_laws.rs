//! What the operations on textures, passes and surfaces do.

use std::collections::HashMap;
use vstd::prelude::*;

use super::execute::{
    execute_ops, op_calls, run_ops, texture_copy, CudaCall, ExecEnv, ExecutionPlan,
};
use super::flow_laws::finished_present_guards_what_it_used;
use super::memory::HostMemory;
use super::ops::{CudaOp, LaunchArg};
use super::pixels::{carried_out, texture_write_places_the_pixels, DeviceState};
use super::present::{FrameToken, PresentFinish};
use super::raster::{CudaRenderTarget, RasterError, RasterTables, TargetCopy, TargetParts};
use super::raster_backing::{RasterBuffer, SharedBacking};
use super::raster_laws::{
    draw_commands, draws, draws_index, draws_vertex, each_draw_draws_its_vertices,
};
use super::raster_pass::{RasterScene, RenderCommand, TargetLoad};
use super::raster_record::{can_reuse, check_target, record_pass, RasterCall};
use super::submit::buffer_device_arg;
use super::surface::{
    live, may_retire, CudaSurfaceState, PendingScratchDrop, PresentListCache, PresentMode,
    PresentSource, ScratchSlot, SharedScratch, SurfaceError,
};
use super::surface_flow::{handles_of, without_textures, ResizeStart};
use super::surface_frame::ImageSignal;
use super::surface_laws::surface_waits_for_all_it_uses;
use super::surface_table::{DestroyedSurface, SurfaceTables};
use super::texture::{
    memcpy_array_to_array, memcpy_array_to_device, memcpy_dtod_array, memcpy_htod_array, CopyEnd,
    CudaTexture, Memcpy2D, Region, TextureError, TextureFormat, TextureKind,
};
use super::timeline::{BlockCall, BlockingWait, TimedWaitNext, WaitError};

verus! {

broadcast use vstd::std_specs::hash::group_hash_axioms;

/// Executing a write of a texture puts pixel `(i, j)` of the payload at pixel `(x + i, y +
/// j)` of the texture, and changes no other byte of any texture.
pub proof fn executed_write_places_the_pixels(
    env: &ExecEnv,
    ops: &Vec<CudaOp>,
    validate: bool,
    plan: ExecutionPlan,
    host: HostMemory,
    states: Seq<DeviceState>,
    texture: CudaTexture,
    region: Region,
    payload: usize,
    len: u64,
    src_row_pitch: u32,
    i: int,
    j: int,
    k: int,
    other: u64,
    row: int,
    col: int,
)
    requires
        call_ensures(execute_ops, (env, ops, validate), plan),
        ops@ == seq![CudaOp::WriteTexture { texture, region, payload, len, src_row_pitch }],
        texture.wf(),
        0 <= i < region.width,
        0 <= j < region.height,
        0 <= k < texture.format.pixel_bytes(),
        plan.error is None,
        carried_out(*env, host, states, plan.calls@),
    ensures
        ({
            let bytes = texture.format.pixel_bytes() as int;
            let pitch = if src_row_pitch == 0 {
                region.width * bytes
            } else {
                src_row_pitch as int
            };
            &&& (states.last().arrays)(texture.id, region.y + j, (region.x + i) * bytes + k)
                == host.payloads[payload as int][j * pitch + i * bytes + k]
            &&& !(other == texture.id && region.y <= row < region.y + region.height && region.x
                * bytes <= col < (region.x + region.width) * bytes) ==> (states.last().arrays)(
                other,
                row,
                col,
            ) == (states[0].arrays)(other, row, col)
        }),
{
    let op = ops@[0];
    texture_write_places_the_pixels(
        *env,
        host,
        states,
        texture,
        region,
        payload,
        len,
        src_row_pitch,
        0,
        validate,
        i,
        j,
        k,
        other,
        row,
        col,
    );
    reveal_with_fuel(run_ops, 2);
    assert(ops@.drop_last() =~= Seq::<CudaOp>::empty());
    assert(ops@.last() == op);
    let calls = op_calls(*env, op, 0, validate)->Ok_0;
    assert(Seq::<CudaCall>::empty() + calls =~= calls);
}

/// A pass that is recorded draws, by its `j`th draw, vertex `vertex` of instance `instance`
/// exactly where both lie in the ranges that the `j`th draw command names.
pub proof fn recorded_pass_draws_its_vertices(
    scene: &RasterScene,
    rt: &CudaRenderTarget,
    load: TargetLoad,
    has_bindings: bool,
    commands: &Vec<RenderCommand>,
    result: Result<Vec<RasterCall>, RasterError>,
    j: int,
    vertex: int,
    instance: int,
    base: int,
)
    requires
        call_ensures(record_pass, (scene, rt, load, has_bindings, commands), result),
        result is Ok,
        0 <= j < draw_commands(commands@).len(),
    ensures
        ({
            let drawn = draws(result->Ok_0@);
            &&& drawn.len() == draw_commands(commands@).len()
            &&& draw_commands(commands@)[j] matches RenderCommand::Draw {
                vertex_count,
                instance_count,
                first_vertex,
                first_instance,
            } ==> (draws_vertex(drawn[j], vertex, instance) <==> first_vertex <= vertex
                < first_vertex + vertex_count && first_instance <= instance < first_instance
                + instance_count)
            &&& draw_commands(commands@)[j] matches RenderCommand::DrawIndexed {
                index_count,
                instance_count,
                first_index,
                base_vertex,
                first_instance,
            } ==> (draws_index(drawn[j], vertex, base, instance) <==> first_index <= vertex
                < first_index + index_count && base == base_vertex && first_instance <= instance
                < first_instance + instance_count)
        }),
{
    each_draw_draws_its_vertices(
        *scene,
        *rt,
        load,
        has_bindings,
        commands@,
        j,
        vertex,
        instance,
        base,
    );
}

/// A target is found exactly where it is known and belongs to the device.
pub proof fn target_is_found_on_its_device(
    scene: &RasterScene,
    device: u64,
    target: u64,
    result: Result<CudaRenderTarget, RasterError>,
)
    requires
        call_ensures(check_target, (scene, device, target), result),
    ensures
        result is Ok <==> scene.render_targets@.contains_key(target)
            && scene.render_targets@[target].device == device,
        result matches Ok(rt) ==> rt == scene.render_targets@[target],
        result matches Err(e) ==> (e == RasterError::InvalidRenderTarget
            <==> !scene.render_targets@.contains_key(target)),
{
}

/// A list is used again only for the pass that it was recorded for last.
pub proof fn list_is_used_again_for_the_same_pass(
    scene: &RasterScene,
    target: u64,
    fingerprint: u64,
    other: u64,
    reuse: bool,
    other_reuse: bool,
)
    requires
        call_ensures(can_reuse, (scene, target, fingerprint), reuse),
        call_ensures(can_reuse, (scene, target, other), other_reuse),
    ensures
        reuse ==> scene.list_cache@.contains_key(target),
        reuse && other_reuse ==> fingerprint == other,
        scene.list_cache@.contains_key(target) && scene.list_cache@[target] == fingerprint ==> reuse,
{
}

/// A copy of a render target waits for the pass that rendered to it, and goes from the
/// first byte of the target's texture to the first byte of the other, over every row of
/// both. It is made only between textures of one size and format.
pub proof fn target_is_copied_whole(
    tables: &RasterTables,
    src: u64,
    dst: u64,
    copy: Result<TargetCopy, RasterError>,
)
    requires
        call_ensures(RasterTables::copy_render_target, (tables, src, dst), copy),
        tables.render_targets@.contains_key(src) ==> tables.render_targets@[src].cuda_texture.wf(),
        copy is Ok,
    ensures
        ({
            let from = tables.render_targets@[src].cuda_texture;
            let to = tables.textures@[dst];
            &&& tables.render_targets@.contains_key(src)
            &&& tables.textures@.contains_key(dst)
            &&& from.width == to.width && from.height == to.height && from.format == to.format
            &&& copy->Ok_0.wait == tables.render_targets@[src].last_dx12_fence
            &&& copy->Ok_0.copy.src == (CopyEnd::Array { texture: from.id, x_bytes: 0, y: 0 })
            &&& copy->Ok_0.copy.dst == (CopyEnd::Array { texture: to.id, x_bytes: 0, y: 0 })
            &&& copy->Ok_0.copy.width_bytes == from.width * from.format.pixel_bytes()
            &&& copy->Ok_0.copy.height == from.height
        }),
{
    let from = tables.render_targets@[src].cuda_texture;
    let to = tables.textures@[dst];
    assert(tables.render_targets@.contains_key(src));
    assert(tables.textures@.contains_key(dst));
    assert(from.format == to.format);
    assert(from.width == to.width && from.height == to.height);
    assert(copy->Ok_0.copy == texture_copy(from, to)->Ok_0);
    assert(from.width * from.format.pixel_bytes() <= u32::MAX);
}

/// A render target that is entered is of the size asked for, over the memory that was made
/// for it; its texture is found under its storage slot. No other target, texture or slot
/// changes.
pub proof fn entered_target_is_found_under_its_slot(
    tables: &mut RasterTables,
    device: u64,
    width: u32,
    height: u32,
    parts: TargetParts,
    handle: u64,
    other: u64,
    slot: u32,
)
    requires
        call_ensures(
            RasterTables::finish_render_target,
            (tables, device, width, height, parts),
            handle,
        ),
    ensures
        ({
            let target = final(tables).render_targets@[handle];
            let texture = final(tables).texture_slots@[parts.storage_slot];
            &&& final(tables).render_targets@.contains_key(handle)
            &&& target.device == device
            &&& target.width == width
            &&& target.height == height
            &&& target.resource == parts.resource
            &&& target.rtv_offset == parts.rtv_offset
            &&& target.last_dx12_fence == 0
            &&& target.cuda_texture.id == parts.texture_id
            &&& target.cuda_texture.width == width
            &&& target.cuda_texture.height == height
            &&& target.cuda_texture.imported
            &&& final(tables).texture_slots@.contains_key(parts.storage_slot)
            &&& final(tables).textures@.contains_key(texture)
            &&& final(tables).textures@[texture] == target.cuda_texture
        }),
        other != handle && old(tables).render_targets@.contains_key(other)
            ==> final(tables).render_targets@.contains_key(other)
            && final(tables).render_targets@[other] == old(tables).render_targets@[other],
        slot != parts.storage_slot && old(tables).texture_slots@.contains_key(slot)
            ==> final(tables).texture_slots@.contains_key(slot)
            && final(tables).texture_slots@[slot] == old(tables).texture_slots@[slot],
{
}

/// An upload goes from the host to the region of the texture that it names, row by row; a
/// copy from device memory and one to it go the way that their names say, through the
/// address that they are given.
pub proof fn copies_go_the_way_they_are_asked(
    texture: &CudaTexture,
    region: &Region,
    len: u64,
    pitch: u32,
    ptr: u64,
    upload: Result<Memcpy2D, TextureError>,
    to_array: Result<Memcpy2D, TextureError>,
    from_array: Result<Memcpy2D, TextureError>,
)
    requires
        call_ensures(memcpy_htod_array, (texture, region, len, pitch), upload),
        call_ensures(memcpy_dtod_array, (ptr, pitch, texture, region), to_array),
        call_ensures(memcpy_array_to_device, (texture, region, ptr, pitch), from_array),
        texture.wf(),
    ensures
        upload matches Ok(copy) ==> copy.src is Host && copy.dst is Array && copy.dst->texture
            == texture.id && copy.dst->y == region.y && copy.height == region.height,
        to_array matches Ok(copy) ==> copy.src is Device && copy.src->ptr == ptr && copy.dst is Array
            && copy.dst->texture == texture.id && copy.dst->y == region.y && copy.height
            == region.height,
        from_array matches Ok(copy) ==> copy.dst is Device && copy.dst->ptr == ptr
            && copy.src is Array && copy.src->texture == texture.id && copy.src->y == region.y
            && copy.height == region.height,
        upload is Ok ==> region.x + region.width <= texture.width && region.y + region.height
            <= texture.height,
        to_array is Ok <==> from_array is Ok,
{
}

/// A texture is copied to another of its own size and format, from its first row to its
/// last.
pub proof fn texture_is_copied_whole(
    src: &CudaTexture,
    dst: &CudaTexture,
    copy: Result<Memcpy2D, TextureError>,
)
    requires
        call_ensures(memcpy_array_to_array, (src, dst), copy),
        src.wf(),
    ensures
        copy is Ok <==> src.width == dst.width && src.height == dst.height && src.format
            == dst.format,
        copy matches Ok(c) ==> {
            &&& c.src == (CopyEnd::Array { texture: src.id, x_bytes: 0, y: 0 })
            &&& c.dst == (CopyEnd::Array { texture: dst.id, x_bytes: 0, y: 0 })
            &&& c.width_bytes == src.width * src.format.pixel_bytes()
            &&& c.height == src.height
        },
{
}

/// A texture that is described is the one asked for, and has room for shader stores exactly
/// where its kind is written by shaders. It is refused where it has no pixels, where it is
/// to be rendered to, and where its format has no array.
pub proof fn described_texture_is_the_one_asked_for(
    id: u64,
    width: u32,
    height: u32,
    format: TextureFormat,
    kind: TextureKind,
    render_target: bool,
    storage_slot: Option<u32>,
    sampled_slot: Option<u32>,
    created: Result<(CudaTexture, bool), TextureError>,
)
    requires
        call_ensures(
            CudaTexture::create,
            (id, width, height, format, kind, render_target, storage_slot, sampled_slot),
            created,
        ),
    ensures
        created is Ok <==> width > 0 && height > 0 && !render_target
            && !(format is Bgra8Unorm || format is Bgra8UnormSrgb),
        created matches Ok((texture, stores)) ==> {
            &&& texture.id == id
            &&& texture.width == width
            &&& texture.height == height
            &&& texture.format == format
            &&& texture.kind == kind
            &&& !texture.imported
            &&& texture.srgb <==> format is Rgba8UnormSrgb
            &&& texture.storage_slot == storage_slot
            &&& texture.sampled_slot == sampled_slot
            &&& stores <==> kind is Direct || kind is DirectInterpolated
        },
{
}

/// A texture over an imported array is the one asked for, and is known to be imported.
pub proof fn imported_texture_is_the_one_asked_for(
    id: u64,
    array_is_null: bool,
    width: u32,
    height: u32,
    format: TextureFormat,
    kind: TextureKind,
    storage_slot: Option<u32>,
    sampled_slot: Option<u32>,
    created: Result<CudaTexture, TextureError>,
)
    requires
        call_ensures(
            CudaTexture::from_imported_array,
            (id, array_is_null, width, height, format, kind, storage_slot, sampled_slot),
            created,
        ),
    ensures
        created is Ok <==> !array_is_null && width > 0 && height > 0
            && !(format is Bgra8Unorm || format is Bgra8UnormSrgb),
        created matches Ok(texture) ==> {
            &&& texture.id == id
            &&& texture.width == width
            &&& texture.height == height
            &&& texture.format == format
            &&& texture.kind == kind
            &&& texture.imported
            &&& texture.srgb <==> format is Rgba8UnormSrgb
            &&& texture.storage_slot == storage_slot
            &&& texture.sampled_slot == sampled_slot
        },
{
}

/// A kernel is handed the address of the first byte of a range of a buffer, and as many
/// elements as lie in it whole; a range that leaves the allocation is not handed out.
pub proof fn argument_names_the_range(
    base: u64,
    allocation_len: u64,
    offset: u64,
    size: u64,
    element_stride: Option<u32>,
    arg: Option<LaunchArg>,
)
    requires
        call_ensures(buffer_device_arg, (base, allocation_len, offset, size, element_stride), arg),
        offset + size <= u64::MAX,
        base + allocation_len <= u64::MAX,
    ensures
        arg is Some <==> offset + size <= allocation_len,
        arg is Some ==> {
            let stride = if element_stride is Some && element_stride->0 > 0 {
                element_stride->0 as int
            } else {
                1
            };
            &&& arg->0 matches LaunchArg::Buffer { data, count }
            &&& data == base + offset
            &&& count * stride <= size
            &&& (count + 1) * stride > size
        },
{
    let stride = if element_stride is Some && element_stride->0 > 0 {
        element_stride->0 as int
    } else {
        1
    };
    let n = size as int / stride;
    assert(0 <= n <= size && n * stride <= size && (n + 1) * stride > size) by (nonlinear_arith)
        requires
            n == size as int / stride,
            stride > 0,
            size >= 0,
    ;
}

/// A frame that begins draws to the image it is given, and is presented in the slot whose
/// turn it is; its own context, and no other, is told that the image was acquired.
pub proof fn begun_frame_draws_to_its_image(
    tables: &mut SurfaceTables,
    queues: &mut HashMap<u64, Vec<ImageSignal>>,
    surface: u64,
    context: u64,
    image: u32,
    texture: u64,
    token: Result<FrameToken, SurfaceError>,
    other: u64,
)
    requires
        call_ensures(
            SurfaceTables::begin_frame,
            (tables, queues, surface, context, image, texture),
            token,
        ),
    ensures
        token is Ok <==> old(tables).surfaces@.contains_key(surface),
        token matches Ok(t) ==> {
            let after = final(tables).surfaces@[surface];
            &&& t.surface == surface
            &&& t.context == context
            &&& t.image == image
            &&& t.frame_slot == image
            &&& t.present_slot == old(tables).surfaces@[surface].current_frame
            &&& after.current_image_index == Some(image)
            &&& after.current_texture_handle == Some(texture)
            &&& old(queues)@.contains_key(context) ==> final(queues)@[context]@
                == old(queues)@[context]@.push(ImageSignal::Acquired { image })
        },
        other != context && old(queues)@.contains_key(other) ==> final(queues)@.contains_key(other)
            && final(queues)@[other] == old(queues)@[other],
        other != surface && old(tables).surfaces@.contains_key(other)
            ==> final(tables).surfaces@.contains_key(other) && final(tables).surfaces@[other]
            == old(tables).surfaces@[other],
{
}

/// A present that was submitted gives back its timeline value where it was shown. Its copy
/// guards its slot and its scratch, and its own context is told that the image is back.
pub proof fn finished_present_returns_its_image(
    tables: &mut SurfaceTables,
    queues: &mut HashMap<u64, Vec<ImageSignal>>,
    finish: &PresentFinish,
    result: Result<u64, SurfaceError>,
    other: u64,
)
    requires
        call_ensures(SurfaceTables::finish_present, (tables, queues, finish), result),
        old(tables).surfaces@.contains_key(finish.frame.surface),
        ({
            let state = old(tables).surfaces@[finish.frame.surface];
            &&& finish.frame.present_slot < state.slot_fence@.len()
            &&& finish.frame.image < state.scratch@.len()
            &&& finish.frame.image < state.backbuffer_in_common@.len()
            &&& finish.frame.image <= u32::MAX
        }),
    ensures
        result is Ok <==> finish.present_ok,
        result matches Ok(value) ==> value == finish.present_timeline,
        result matches Err(e) ==> e == (SurfaceError::PresentFailed {
            return_fence: finish.return_fence,
        }),
        ({
            let after = final(tables).surfaces@[finish.frame.surface];
            &&& finish.return_fence > 0 ==> after.slot_fence@[finish.frame.present_slot as int]
                == finish.return_fence
            &&& finish.return_fence > 0 ==> (after.scratch@[finish.frame.image as int] matches Some(
                now,
            ) ==> now.dx12_complete == finish.return_fence)
            &&& finish.present_ok ==> !after.backbuffer_in_common@[finish.frame.image as int]
        }),
        old(queues)@.contains_key(finish.frame.context) ==> final(queues)@[finish.frame.context]@
            == old(queues)@[finish.frame.context]@.push(
            ImageSignal::Returned { image: finish.frame.image as u32 },
        ),
        other != finish.frame.context && old(queues)@.contains_key(other)
            ==> final(queues)@.contains_key(other) && final(queues)@[other] == old(queues)@[other],
{
    let before = old(tables).surfaces@[finish.frame.surface];
    let after = final(tables).surfaces@[finish.frame.surface];
    finished_present_guards_what_it_used(before, after, *finish, finish.frame.image as int);
}

/// Before its next frame a surface waits for both the present and the list of the slot
/// whose turn it is, and for no later value.
pub proof fn next_frame_waits_for_its_slot(
    tables: &SurfaceTables,
    surface: u64,
    device_known: bool,
    companion: Option<u64>,
    wait: Result<u64, SurfaceError>,
)
    requires
        call_ensures(SurfaceTables::frame_wait, (tables, surface, device_known, companion), wait),
    ensures
        wait is Ok <==> tables.surfaces@.contains_key(surface) && device_known && companion is Some,
        wait matches Ok(value) ==> {
            let state = tables.surfaces@[surface];
            let present = state.slot_fence@[state.current_frame as int];
            let list = state.cmd_fence@[state.current_frame as int];
            &&& value >= present
            &&& value >= list
            &&& value == present || value == list
        },
{
}

proof fn lemma_live(scratch: Seq<Option<ScratchSlot>>, i: int)
    requires
        0 <= i < scratch.len(),
        scratch[i] is Some,
    ensures
        live(scratch).contains(scratch[i]->0),
    decreases scratch.len(),
{
    let rest = scratch.drop_last();
    if i < rest.len() {
        lemma_live(rest, i);
        let k = choose|k: int| 0 <= k < live(rest).len() && live(rest)[k] == scratch[i]->0;
        assert(live(scratch)[k] == scratch[i]->0);
    } else {
        assert(live(scratch)[live(rest).len() as int] == scratch[i]->0);
    }
}

/// A resize that begins takes out the scratch of every image, with its textures, and waits
/// for each of its uses; the surface has no scratch then. Another surface is not touched.
pub proof fn begun_resize_takes_all_scratch(
    tables: &mut SurfaceTables,
    surface: u64,
    width: u32,
    height: u32,
    start: Result<Option<ResizeStart>, SurfaceError>,
    i: int,
    other: u64,
)
    requires
        call_ensures(SurfaceTables::begin_resize, (tables, surface, width, height), start),
        start is Ok,
        start->Ok_0 is Some,
        0 <= i < old(tables).surfaces@[surface].scratch@.len(),
    ensures
        ({
            let state = old(tables).surfaces@[surface];
            let begun = start->Ok_0->0;
            &&& old(tables).surfaces@.contains_key(surface)
            &&& begun.device == state.device
            &&& state.scratch@[i] matches Some(slot) ==> begun.slots@.contains(slot)
                && begun.handles@.contains(slot.texture_handle) && begun.fence_high
                >= slot.dx12_complete
            &&& final(tables).surfaces@[surface].scratch@[i] is None
        }),
        other != surface && old(tables).surfaces@.contains_key(other)
            ==> final(tables).surfaces@.contains_key(other) && final(tables).surfaces@[other]
            == old(tables).surfaces@[other],
{
    let state = old(tables).surfaces@[surface];
    let begun = start->Ok_0->0;
    if state.scratch@[i] is Some {
        let slot = state.scratch@[i]->0;
        lemma_live(state.scratch@, i);
        let k = choose|k: int| 0 <= k < begun.slots@.len() && begun.slots@[k] == slot;
        assert(handles_of(begun.slots@)[k] == slot.texture_handle);
        surface_waits_for_all_it_uses(state, i);
    }
}

/// Scratch that is let go waits for its own last use and for the value it is given, behind
/// what waits already; its texture is forgotten.
pub proof fn retired_scratch_waits_for_its_last_use(
    tables: &mut SurfaceTables,
    surface: u64,
    slots: &Vec<ScratchSlot>,
    high: u64,
    i: int,
)
    requires
        call_ensures(SurfaceTables::retire_scratch, (tables, surface, slots, high), ()),
        old(tables).surfaces@.contains_key(surface),
        0 <= i < slots@.len(),
    ensures
        ({
            let before = old(tables).surfaces@[surface].pending_scratch@;
            let after = final(tables).surfaces@[surface].pending_scratch@;
            &&& after.len() == before.len() + slots@.len()
            &&& after.take(before.len() as int) == before
            &&& after[before.len() + i].slot == slots@[i]
            &&& after[before.len() + i].retire_at >= high
            &&& after[before.len() + i].retire_at >= slots@[i].dx12_complete
            &&& !final(tables).textures@.contains_key(slots@[i].texture_handle)
        }),
{
    let before = old(tables).surfaces@[surface].pending_scratch@;
    let after = final(tables).surfaces@[surface].pending_scratch@;
    assert(after.take(before.len() as int) =~= before);
    let handles = handles_of(slots@);
    assert(handles[i] == slots@[i].texture_handle);
    lemma_forgotten(old(tables).textures@, old(tables).texture_slots@, handles, i);
}

proof fn lemma_forgotten(
    textures: Map<u64, CudaTexture>,
    slots: Map<u32, u64>,
    handles: Seq<u64>,
    i: int,
)
    requires
        0 <= i < handles.len(),
    ensures
        !without_textures(textures, slots, handles).0.contains_key(handles[i]),
    decreases handles.len(),
{
    if i < handles.len() - 1 {
        lemma_forgotten(textures, slots, handles.drop_last(), i);
    }
}

/// A resized surface has the new size and buffers, waits for no present of the old ones,
/// and uses no list of them again.
pub proof fn resized_surface_forgets_the_old_buffers(
    state: &mut CudaSurfaceState,
    width: u32,
    height: u32,
    backbuffers: Vec<u64>,
    dsv_offset: Option<u32>,
    i: int,
)
    requires
        call_ensures(
            CudaSurfaceState::finish_resize,
            (state, width, height, backbuffers, dsv_offset),
            (),
        ),
        0 <= i < backbuffers@.len(),
    ensures
        final(state).width == width,
        final(state).height == height,
        final(state).backbuffers == backbuffers,
        final(state).dsv_offset == dsv_offset,
        final(state).slot_fence@[i] == 0,
        final(state).backbuffer_in_common@[i],
        final(state).current_texture_handle is None,
        final(state).current_image_index is None,
        final(state).scratch == old(state).scratch,
        final(state).pending_scratch == old(state).pending_scratch,
        final(state).device == old(state).device,
{
}

/// Scratch of a size is taken from the pool exactly where the pool has some of that size,
/// and what is taken is in the pool once less.
pub proof fn pooled_scratch_is_taken_once(
    state: &mut CudaSurfaceState,
    width: u32,
    height: u32,
    taken: Option<SharedScratch>,
    i: int,
)
    requires
        call_ensures(CudaSurfaceState::take_pooled_scratch, (state, width, height), taken),
        0 <= i < old(state).scratch_pool@.len(),
    ensures
        taken matches Some(shared) ==> {
            &&& shared.width == width
            &&& shared.height == height
            &&& old(state).scratch_pool@.contains(shared)
            &&& final(state).scratch_pool@.len() == old(state).scratch_pool@.len() - 1
        },
        old(state).scratch_pool@[i].width == width && old(state).scratch_pool@[i].height == height
            ==> taken is Some,
        taken is None ==> final(state).scratch_pool@ == old(state).scratch_pool@,
{
}

/// Scratch waits on exactly where its last use has not passed.
pub proof fn pending_scratch_waits_for_its_last_use(
    state: &mut CudaSurfaceState,
    completed: u64,
    i: int,
)
    requires
        call_ensures(CudaSurfaceState::drain_pending_scratch, (state, completed), ()),
    ensures
        0 <= i < old(state).pending_scratch@.len() && old(state).pending_scratch@[i].retire_at
            > completed ==> final(state).pending_scratch@.contains(old(state).pending_scratch@[i]),
        0 <= i < final(state).pending_scratch@.len() ==> final(state).pending_scratch@[i].retire_at
            > completed,
        final(state).scratch == old(state).scratch,
{
    let keep = |p: PendingScratchDrop| !may_retire(p, completed);
    let before = old(state).pending_scratch@;
    if 0 <= i < before.len() && before[i].retire_at > completed {
        before.lemma_filter_contains(keep, i);
    }
    if 0 <= i < final(state).pending_scratch@.len() {
        before.lemma_filter_pred(keep, i);
    }
}

/// A scratch texture that is forgotten is no longer known, nor found under a slot of its
/// own; the other textures are.
pub proof fn forgotten_texture_is_not_found(
    tables: &mut SurfaceTables,
    handle: u64,
    texture: Option<CudaTexture>,
    slot: u32,
    other: u64,
)
    requires
        call_ensures(SurfaceTables::unregister_scratch_texture, (tables, handle), texture),
    ensures
        !final(tables).textures@.contains_key(handle),
        texture is Some <==> old(tables).textures@.contains_key(handle),
        texture matches Some(t) ==> {
            &&& t == old(tables).textures@[handle]
            &&& final(tables).texture_slots@.contains_key(slot)
                <==> old(tables).texture_slots@.contains_key(slot) && t.storage_slot != Some(slot)
                && t.sampled_slot != Some(slot)
        },
        other != handle && old(tables).textures@.contains_key(other)
            ==> final(tables).textures@.contains_key(other) && final(tables).textures@[other]
            == old(tables).textures@[other],
{
}

/// A surface that is taken out hands out all its scratch, also that which still waits.
pub proof fn destroyed_surface_hands_out_its_scratch(
    tables: &mut SurfaceTables,
    surface: u64,
    destroyed: Option<DestroyedSurface>,
    i: int,
    other: u64,
)
    requires
        call_ensures(SurfaceTables::destroy_surface, (tables, surface), destroyed),
    ensures
        !final(tables).surfaces@.contains_key(surface),
        other != surface && old(tables).surfaces@.contains_key(other)
            ==> final(tables).surfaces@.contains_key(other) && final(tables).surfaces@[other]
            == old(tables).surfaces@[other],
        destroyed is Some <==> old(tables).surfaces@.contains_key(surface),
        destroyed matches Some(d) ==> {
            let state = old(tables).surfaces@[surface];
            &&& d.device == state.device
            &&& d.dsv_offset == state.dsv_offset
            &&& 0 <= i < state.scratch@.len() && state.scratch@[i] is Some ==> d.slots@.contains(
                state.scratch@[i]->0,
            )
            &&& 0 <= i < state.pending_scratch@.len() ==> d.slots@.contains(
                state.pending_scratch@[i].slot,
            )
        },
{
    if destroyed is Some {
        let state = old(tables).surfaces@[surface];
        let d = destroyed->0;
        let alive = live(state.scratch@);
        if 0 <= i < state.scratch@.len() && state.scratch@[i] is Some {
            lemma_live(state.scratch@, i);
            let k = choose|k: int| 0 <= k < alive.len() && alive[k] == state.scratch@[i]->0;
            assert(d.slots@[k] == state.scratch@[i]->0);
        }
        if 0 <= i < state.pending_scratch@.len() {
            assert(d.slots@[alive.len() + i] == state.pending_scratch@[i].slot);
        }
    }
}

/// A present mode is set for its own surface alone.
pub proof fn present_mode_is_set_for_its_surface(
    tables: &mut SurfaceTables,
    surface: u64,
    mode: PresentMode,
    result: Result<(), SurfaceError>,
    other: u64,
)
    requires
        call_ensures(SurfaceTables::surface_set_present_mode, (tables, surface, mode), result),
    ensures
        result is Ok <==> old(tables).surfaces@.contains_key(surface),
        result is Ok ==> final(tables).surfaces@[surface].present_mode == mode,
        other != surface && old(tables).surfaces@.contains_key(other)
            ==> final(tables).surfaces@.contains_key(other) && final(tables).surfaces@[other]
            == old(tables).surfaces@[other],
{
}

/// A present source is taken once: the image has none then, and keeps its scratch.
pub proof fn present_source_is_taken_once(
    state: &mut CudaSurfaceState,
    image: usize,
    source: Result<Option<PresentSource>, SurfaceError>,
    i: int,
)
    requires
        call_ensures(CudaSurfaceState::take_present_source, (state, image), source),
        0 <= i < old(state).scratch@.len(),
    ensures
        source is Ok <==> image < old(state).scratch@.len() && old(state).scratch@[image as int]
            is Some,
        source matches Ok(taken) ==> {
            let was = old(state).scratch@[image as int]->0;
            &&& taken == was.present_source
            &&& final(state).scratch@[image as int] matches Some(now)
            &&& now.present_source is None
            &&& now.texture_handle == was.texture_handle
            &&& now.shared == was.shared
            &&& now.dx12_complete == was.dx12_complete
        },
        i != image ==> final(state).scratch@[i] == old(state).scratch@[i],
        final(state).current_texture_handle is None,
{
}

/// New scratch is that of its image alone; scratch that is replaced waits for its last use.
pub proof fn scratch_is_that_of_its_image(
    state: &mut CudaSurfaceState,
    image: usize,
    shared: SharedScratch,
    texture_handle: u64,
    i: int,
)
    requires
        call_ensures(CudaSurfaceState::install_scratch, (state, image, shared, texture_handle), ()),
        image < old(state).scratch@.len(),
        0 <= i < old(state).scratch@.len(),
    ensures
        final(state).scratch@[image as int] matches Some(slot) && slot.shared == shared
            && slot.texture_handle == texture_handle && slot.present_source is None
            && slot.dx12_complete == 0,
        i != image ==> final(state).scratch@[i] == old(state).scratch@[i],
{
}

/// Scratch that is put aside waits for its last use, which is what is told.
pub proof fn replaced_scratch_waits_for_its_last_use(
    state: &mut CudaSurfaceState,
    image: usize,
    retire_at: u64,
    i: int,
)
    requires
        call_ensures(CudaSurfaceState::replace_scratch, (state, image), retire_at),
        image < old(state).scratch@.len(),
        old(state).scratch@[image as int] is Some,
        0 <= i < old(state).scratch@.len(),
    ensures
        final(state).scratch@[image as int] is None,
        i != image ==> final(state).scratch@[i] == old(state).scratch@[i],
        retire_at >= old(state).scratch@[image as int]->0.dx12_complete,
        final(state).pending_scratch@.len() == old(state).pending_scratch@.len() + 1,
        final(state).pending_scratch@.last().slot == old(state).scratch@[image as int]->0,
        final(state).pending_scratch@.last().retire_at == retire_at,
{
}

/// The list of a present slot that was submitted is guarded by its fence value; it is known
/// for what it was recorded for, where it was recorded anew.
pub proof fn submitted_list_is_guarded(
    state: &mut CudaSurfaceState,
    slot: usize,
    fence: u64,
    recorded: &Option<PresentListCache>,
    i: int,
)
    requires
        call_ensures(CudaSurfaceState::note_submitted, (state, slot, fence, recorded), ()),
        slot < old(state).cmd_fence@.len(),
        slot < old(state).present_cache@.len(),
        0 <= i,
    ensures
        final(state).cmd_fence@[slot as int] == fence,
        i != slot && i < old(state).cmd_fence@.len() ==> final(state).cmd_fence@[i] == old(state).cmd_fence@[i],
        *recorded matches Some(entry) ==> final(state).present_cache@[slot as int] == entry,
        i < old(state).present_cache@.len() && (i != slot || *recorded is None) ==> final(state).present_cache@[i] == old(state).present_cache@[i],
{
}

/// A demand for a host wait is taken off shared memory once.
pub proof fn host_wait_is_demanded_once(buffer: &mut RasterBuffer, sync: bool)
    requires
        call_ensures(RasterBuffer::take_host_sync, (buffer,), sync),
    ensures
        sync ==> final(buffer).shared is Some && !final(buffer).shared->0.pending_host_sync,
        !sync ==> *final(buffer) == *old(buffer),
        final(buffer).size == old(buffer).size,
        final(buffer).content_epoch == old(buffer).content_epoch,
        final(buffer).shared_epoch == old(buffer).shared_epoch,
        final(buffer).shared is Some <==> old(buffer).shared is Some,
{
}

/// A twin that takes the place of another has none of the contents yet, and the old one is
/// waited for where CUDA has written it under a fence value.
pub proof fn new_twin_has_no_contents(
    buffer: &mut RasterBuffer,
    backing: SharedBacking,
    wait: Option<u64>,
)
    requires
        call_ensures(RasterBuffer::install_backing, (buffer, backing), wait),
    ensures
        final(buffer).shared == Some(backing),
        final(buffer).shared_epoch == u64::MAX,
        final(buffer).size == old(buffer).size,
        final(buffer).content_epoch == old(buffer).content_epoch,
        wait is Some <==> old(buffer).shared is Some && old(buffer).shared->0.last_cuda_fence > 0,
        wait matches Some(value) ==> value == old(buffer).shared->0.last_cuda_fence,
{
}

/// A wait without a timeout waits for the very event or fence value that it is for; what
/// was never submitted, and a fence without a value, cannot be waited for.
pub proof fn wait_blocks_on_what_it_is_for(wait: &BlockingWait, call: Result<BlockCall, WaitError>)
    requires
        call_ensures(BlockingWait::block, (wait,), call),
    ensures
        *wait matches BlockingWait::Event { event: e } ==> (call matches Ok(
            BlockCall::SynchronizeEvent { event },
        ) && event == e),
        *wait matches BlockingWait::Fence { companion: c, fence: f, recycle: r } ==> (call is Ok
            <==> f != 0) && (call is Ok ==> (call->Ok_0 matches BlockCall::WaitFence {
            companion,
            fence,
            recycle,
        } && companion == c && fence == f && recycle == r)),
        *wait is Absent ==> call is Err,
{
}

/// A wait with a timeout goes on only while what it waits for may still complete, has not
/// completed, and the time is not over; it reports a completion only where it saw one.
pub proof fn timed_wait_reports_what_it_saw(
    wait: &BlockingWait,
    timeout_ms: u32,
    past_deadline: bool,
    complete: bool,
    next: TimedWaitNext,
)
    requires
        call_ensures(BlockingWait::block_timeout, (wait, timeout_ms, past_deadline, complete), next),
    ensures
        next is Sleep ==> !complete && !past_deadline && timeout_ms > 0 && !(*wait is Absent),
        next matches TimedWaitNext::Finished { complete: seen } ==> (seen ==> complete),
        complete && (*wait is Event || (*wait is Fence && wait->fence != 0)) ==> next == (
        TimedWaitNext::Finished { complete: true }),
        *wait is Absent || (*wait is Fence && wait->fence == 0) ==> next == (
        TimedWaitNext::Finished { complete: false }),
{
}

} // verus!
