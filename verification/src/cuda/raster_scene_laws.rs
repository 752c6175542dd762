//! What the buffers, pipelines and targets of raster passes are made ready as, and what
//! tells one pass from another.

use vstd::prelude::*;

use super::raster::{
    input_element, is_color, pipeline_check, target_check, target_texture, texcoords,
    RasterError, RasterTables, Semantic, TargetParts, VertexAttribute,
};
use super::raster_backing::{
    backing_size, needs_backing, refresh_fence, refresh_of, refreshed, twin_current,
    without_host_sync, RasterBuffer, Refresh,
};
use super::raster_pass::{
    command_key, handle_words, load_key, pass_key, wide, RasterScene, RenderCommand, TargetLoad,
};
use super::raster_record::{
    bound_indices, command_requirements, commands_requirements, handle_requirements, needed,
    read_under, slot_requirement, slots_of, staging_requirements, twin_lags, Requirement,
};
use super::texture::TextureFormat;
use crate::dx12::commands::TypedHandle;

verus! {

broadcast use vstd::std_specs::hash::group_hash_axioms;

/// Each attribute becomes one element, at its own offset: the position at location zero, a
/// color at location one if it has three or four components, a texture coordinate else.
pub proof fn attribute_becomes_its_element(attributes: Seq<VertexAttribute>, i: int)
    requires
        0 <= i < attributes.len() <= u32::MAX,
    ensures
        ({
            let a = attributes[i];
            let e = input_element(attributes, i);
            let colored = a.format is Float32x3 || a.format is Float32x4 || a.format is Unorm8x4
                || a.format is Uint8x4;
            &&& e.offset == a.offset
            &&& e.semantic is Position <==> a.location == 0
            &&& e.semantic is Color <==> a.location == 1 && colored
            &&& e.semantic is TexCoord <==> a.location > 1 || a.location == 1 && !colored
        }),
{
}

proof fn lemma_texcoords(attributes: Seq<VertexAttribute>, i: int, j: int)
    requires
        0 <= i <= j <= attributes.len(),
        forall|k: int|
            i <= k < j ==> (#[trigger] attributes[k]).location == 0 || is_color(attributes[k]),
    ensures
        texcoords(attributes.take(j)) == texcoords(attributes.take(i)),
    decreases j - i,
{
    if i < j {
        lemma_texcoords(attributes, i, j - 1);
        assert(attributes.take(j).drop_last() =~= attributes.take(j - 1));
        assert(attributes.take(j).last() == attributes[j - 1]);
    }
}

proof fn lemma_texcoords_bound(attributes: Seq<VertexAttribute>)
    ensures
        texcoords(attributes) <= attributes.len(),
    decreases attributes.len(),
{
    if attributes.len() > 0 {
        lemma_texcoords_bound(attributes.drop_last());
    }
}

/// Texture coordinates are numbered from zero on, one after the other, in the order of
/// their attributes.
pub proof fn texture_coordinates_are_numbered_in_order(
    attributes: Seq<VertexAttribute>,
    i: int,
    j: int,
)
    requires
        0 <= i < j < attributes.len() <= u32::MAX,
        input_element(attributes, j).semantic is TexCoord,
        forall|k: int|
            i < k < j ==> (#[trigger] attributes[k]).location == 0 || is_color(attributes[k]),
    ensures
        input_element(attributes, i).semantic matches Semantic::TexCoord { index }
            ==> input_element(attributes, j).semantic->index == index + 1,
        i == 0 && !(input_element(attributes, i).semantic is TexCoord) ==> input_element(
            attributes,
            j,
        ).semantic->index == 0,
{
    lemma_texcoords(attributes, i + 1, j);
    assert(attributes.take(i + 1).drop_last() =~= attributes.take(i));
    assert(attributes.take(i + 1).last() == attributes[i]);
    lemma_texcoords_bound(attributes.take(j));
    if i == 0 {
        assert(attributes.take(0) =~= Seq::<VertexAttribute>::empty());
    }
}

/// A pipeline is made exactly for the format that targets have, on a device with a
/// companion, from two shaders of that device.
pub proof fn pipeline_is_made_of_shaders_of_its_device(
    tables: RasterTables,
    device: u64,
    vertex_shader: u64,
    fragment_shader: u64,
    target_format: TextureFormat,
)
    ensures
        pipeline_check(tables, device, vertex_shader, fragment_shader, target_format) is Ok <==> {
            &&& target_format is Rgba32Float
            &&& tables.devices@.contains_key(device)
            &&& tables.devices@[device]
            &&& tables.shaders@.contains_key(vertex_shader)
            &&& tables.shaders@[vertex_shader] == device
            &&& tables.shaders@.contains_key(fragment_shader)
            &&& tables.shaders@[fragment_shader] == device
        },
        pipeline_check(tables, device, vertex_shader, fragment_shader, target_format) matches Err(
            e,
        ) ==> match e {
            RasterError::UnsupportedTargetFormat { format } => format == target_format
                && !(target_format is Rgba32Float),
            RasterError::InvalidDevice { device: d } => d == device
                && !tables.devices@.contains_key(device),
            RasterError::CompanionRequired => !tables.devices@[device],
            RasterError::InvalidVertexShader => !tables.shaders@.contains_key(vertex_shader),
            RasterError::VertexShaderOnOtherDevice => tables.shaders@[vertex_shader] != device,
            RasterError::InvalidFragmentShader => !tables.shaders@.contains_key(fragment_shader),
            RasterError::FragmentShaderOnOtherDevice => tables.shaders@[fragment_shader] != device,
            _ => false,
        },
{
}

/// A render target is made exactly where it has pixels and no depth, has the one format,
/// and its device has a companion. Its texture has its size and its storage slot.
pub proof fn target_is_made_with_pixels(
    tables: RasterTables,
    device: u64,
    width: u32,
    height: u32,
    color_format: TextureFormat,
    depth: bool,
    parts: TargetParts,
)
    ensures
        target_check(tables, device, width, height, color_format, depth) is Ok <==> {
            &&& width > 0
            &&& height > 0
            &&& !depth
            &&& color_format is Rgba32Float
            &&& tables.devices@.contains_key(device)
            &&& tables.devices@[device]
        },
        target_texture(parts, width, height).width == width,
        target_texture(parts, width, height).height == height,
        target_texture(parts, width, height).id == parts.texture_id,
        target_texture(parts, width, height).storage_slot == Some(parts.storage_slot),
        target_texture(parts, width, height).sampled_slot is None,
        target_texture(parts, width, height).format is Rgba32Float,
        target_texture(parts, width, height).imported,
{
}

/// A buffer is made ready so that the companion sees all of its bytes: byte `k` of the
/// buffer goes to byte `k` of its twin, for every byte of it. Nothing is copied where the
/// memory is shared, where the twin has the contents already, or where there are none.
pub proof fn refresh_copies_every_byte(buffer: RasterBuffer, k: int, from: int, to: int)
    requires
        buffer.phys_kind is NativeAndTwin,
        buffer.shared is Some,
        buffer.memory_base + buffer.offset <= u64::MAX,
    ensures
        refresh_of(buffer) is Ok <==> buffer.size == 0 || buffer.content_epoch
            == buffer.shared_epoch || buffer.offset + buffer.size <= buffer.memory_len,
        refresh_of(buffer) matches Ok(Refresh::Copy { dst_ptr, src_ptr, size }) ==> {
            &&& buffer.content_epoch != buffer.shared_epoch
            &&& from == buffer.memory_base + buffer.offset + k && to == buffer.shared->0.device_ptr
                + k ==> (src_ptr <= from < src_ptr + size && from - src_ptr == to - dst_ptr <==> 0
                <= k < buffer.size)
        },
        refresh_of(buffer) matches Ok(Refresh::Current { fence, counts_as_bind }) ==> {
            &&& buffer.content_epoch == buffer.shared_epoch
            &&& fence == buffer.shared->0.last_cuda_fence
            &&& !counts_as_bind
        },
        refresh_of(buffer) matches Ok(Refresh::Empty) ==> buffer.size == 0,
{
}

/// Shared memory needs no copy: the companion waits for the last write of CUDA.
pub proof fn shared_memory_waits_for_its_last_write(buffer: RasterBuffer)
    requires
        buffer.phys_kind is Shared,
    ensures
        refresh_of(buffer) is Ok <==> buffer.shared is Some,
        refresh_of(buffer) matches Ok(r) ==> r == (Refresh::Current {
            fence: buffer.shared->0.last_cuda_fence,
            counts_as_bind: true,
        }),
{
}

/// After a copy the companion waits for the value that the copy signaled, and the buffer
/// remembers it; the contents and the place of the buffer stay.
pub proof fn copied_twin_waits_for_its_copy(buffer: RasterBuffer, refresh: Refresh, signaled: u64)
    requires
        buffer.shared is Some,
    ensures
        refresh is Copy ==> refresh_fence(refresh, signaled) == signaled && refreshed(
            buffer,
            refresh,
            signaled,
        ).shared->0.last_cuda_fence == signaled && refreshed(buffer, refresh, signaled).shared_epoch
            == buffer.content_epoch,
        refresh is Empty ==> refresh_fence(refresh, signaled) == 0 && refreshed(
            buffer,
            refresh,
            signaled,
        ).shared_epoch == buffer.content_epoch,
        refresh matches Refresh::Current { fence, counts_as_bind } ==> refresh_fence(
            refresh,
            signaled,
        ) == fence && refreshed(buffer, refresh, signaled) == buffer,
        refreshed(buffer, refresh, signaled).content_epoch == buffer.content_epoch,
        refreshed(buffer, refresh, signaled).offset == buffer.offset,
        refreshed(buffer, refresh, signaled).size == buffer.size,
        refreshed(buffer, refresh, signaled).shared->0.gpu_va == buffer.shared->0.gpu_va,
        refreshed(buffer, refresh, signaled).shared->0.device_ptr == buffer.shared->0.device_ptr,
        refreshed(buffer, refresh, signaled).shared->0.last_dx12_ia_fence
            == buffer.shared->0.last_dx12_ia_fence,
{
}

/// A twin is made exactly where there is none, or one that cannot hold all that the buffer
/// may hold; it is made for that, and for four bytes at the least.
pub proof fn twin_is_made_large_enough(buffer: RasterBuffer)
    ensures
        backing_size(buffer.capacity) >= buffer.capacity,
        backing_size(buffer.capacity) >= 4,
        backing_size(buffer.capacity) == 4 || backing_size(buffer.capacity) == buffer.capacity,
        needs_backing(buffer) <==> buffer.phys_kind is NativeAndTwin && (buffer.shared matches Some(
            s,
        ) ==> s.size < buffer.capacity || s.size < 4),
        buffer.shared is Some && buffer.phys_kind is Shared ==> !without_host_sync(
            buffer,
        ).shared->0.pending_host_sync,
        without_host_sync(buffer).content_epoch == buffer.content_epoch,
{
}

/// After a pass has read a buffer, its memory is guarded by the value of the pass, or by a
/// later one that guarded it before.
pub proof fn read_buffer_is_guarded(buffer: RasterBuffer, signal: u64)
    requires
        buffer.shared is Some,
    ensures
        read_under(buffer, signal).shared matches Some(s) && s.last_dx12_ia_fence >= signal
            && s.last_dx12_ia_fence >= buffer.shared->0.last_dx12_ia_fence && (s.last_dx12_ia_fence
            == signal || s.last_dx12_ia_fence == buffer.shared->0.last_dx12_ia_fence)
            && s.last_cuda_fence == buffer.shared->0.last_cuda_fence && s.gpu_va
            == buffer.shared->0.gpu_va && s.size == buffer.shared->0.size,
        read_under(buffer, signal).content_epoch == buffer.content_epoch,
        read_under(buffer, signal).shared_epoch == buffer.shared_epoch,
        read_under(buffer, signal).size == buffer.size,
{
}

/// A raw bind binds its own indices where it has some; else as many words of the frame
/// table as its pipeline reads, from its base on; none where these leave the table.
pub proof fn raw_bind_binds_its_indices(
    indices: Seq<u32>,
    frame_table_base: u32,
    slot_kinds: usize,
    staging: Seq<u32>,
    i: int,
)
    ensures
        ({
            let bound = bound_indices(indices, frame_table_base, slot_kinds, staging);
            &&& indices.len() > 0 ==> bound == indices
            &&& indices.len() == 0 && frame_table_base + slot_kinds <= staging.len()
                ==> bound.len() == slot_kinds && (0 <= i < slot_kinds ==> bound[i]
                == staging[frame_table_base + i])
            &&& indices.len() == 0 && frame_table_base + slot_kinds > staging.len() ==> bound.len()
                == 0
        }),
{
}

/// The bindless indices of buffers are those of each buffer, in order; they are refused for
/// the first buffer that is not known or has none.
pub proof fn lowered_indices_are_those_of_the_buffers(
    scene: RasterScene,
    buffers: Seq<u64>,
    i: int,
)
    requires
        0 <= i < buffers.len(),
        forall|k: int|
            0 <= k < i ==> scene.buffers@.contains_key(#[trigger] buffers[k])
                && scene.buffers@[buffers[k]].slot is Some,
    ensures
        slots_of(scene, buffers) matches Ok(slots) ==> slots.len() == buffers.len()
            && scene.buffers@.contains_key(buffers[i]) && scene.buffers@[buffers[i]].slot == Some(
            slots[i],
        ),
        !scene.buffers@.contains_key(buffers[i]) || scene.buffers@[buffers[i]].slot is None
            ==> slots_of(scene, buffers) == Err::<Seq<u32>, RasterError>(
            RasterError::BufferWithoutSlot { buffer: buffers[i] },
        ),
        i == buffers.len() - 1 && scene.buffers@.contains_key(buffers[i])
            && scene.buffers@[buffers[i]].slot is Some ==> slots_of(scene, buffers) is Ok,
    decreases buffers.len(),
{
    let rest = buffers.drop_last();
    assert(forall|k: int| 0 <= k < rest.len() ==> #[trigger] rest[k] == buffers[k]);
    if i < rest.len() {
        assert forall|k: int| 0 <= k < i implies scene.buffers@.contains_key(#[trigger] rest[k])
            && scene.buffers@[rest[k]].slot is Some by {
            assert(rest[k] == buffers[k]);
        }
        lowered_indices_are_those_of_the_buffers(scene, rest, i);
    } else if rest.len() > 0 {
        assert forall|k: int| 0 <= k < rest.len() - 1 implies scene.buffers@.contains_key(
            #[trigger] rest[k],
        ) && scene.buffers@[rest[k]].slot is Some by {
            assert(rest[k] == buffers[k]);
        }
        assert(scene.buffers@.contains_key(buffers[i - 1]));
        lowered_indices_are_those_of_the_buffers(scene, rest, i - 1);
    }
}

proof fn lemma_contains_both(a: Seq<Requirement>, b: Seq<Requirement>, r: Requirement)
    ensures
        (a + b).contains(r) <==> a.contains(r) || b.contains(r),
{
    if a.contains(r) {
        let k = choose|k: int| 0 <= k < a.len() && a[k] == r;
        assert((a + b)[k] == r);
    }
    if b.contains(r) {
        let k = choose|k: int| 0 <= k < b.len() && b[k] == r;
        assert((a + b)[a.len() + k] == r);
    }
}

/// A slot of the bindless table holds a buffer.
pub open spec fn slot_holds(scene: RasterScene, slot: u32, buffer: u64) -> bool {
    scene.buffer_slots@.contains_key(slot) && scene.buffer_slots@[slot] == buffer
}

/// A command needs a buffer: the input assembler reads it, or a shader does through a
/// handle of a buffer.
pub open spec fn command_needs(scene: RasterScene, command: RenderCommand, r: Requirement) -> bool {
    match command {
        RenderCommand::SetVertexBuffer { slot, buffer, offset } => r.vertex && r.buffer == buffer,
        RenderCommand::SetIndexBuffer { buffer, offset, format } => r.vertex && r.buffer == buffer,
        RenderCommand::BindResourcesTyped { handles } => !r.vertex && exists|i: int|
            {
                &&& 0 <= i < handles@.len()
                &&& (#[trigger] handles@[i]).category is Scattered || handles@[i].category
                    is Broadcast
                &&& slot_holds(scene, handles@[i].index, r.buffer)
            },
        _ => false,
    }
}

proof fn lemma_slot(scene: RasterScene, slot: u32, r: Requirement)
    ensures
        slot_requirement(scene, slot).contains(r) <==> !r.vertex && slot_holds(
            scene,
            slot,
            r.buffer,
        ),
{
    let s = slot_requirement(scene, slot);
    if slot_holds(scene, slot, r.buffer) && !r.vertex {
        assert(s[0] == r);
    }
}

proof fn lemma_handles(scene: RasterScene, handles: Seq<TypedHandle>, r: Requirement)
    ensures
        handle_requirements(scene, handles).contains(r) <==> !r.vertex && exists|i: int|
            {
                &&& 0 <= i < handles.len()
                &&& (#[trigger] handles[i]).category is Scattered || handles[i].category
                    is Broadcast
                &&& slot_holds(scene, handles[i].index, r.buffer)
            },
    decreases handles.len(),
{
    if handles.len() > 0 {
        let rest = handles.drop_last();
        let h = handles.last();
        let own = if h.category is Scattered || h.category is Broadcast {
            slot_requirement(scene, h.index)
        } else {
            Seq::empty()
        };
        lemma_handles(scene, rest, r);
        lemma_slot(scene, h.index, r);
        lemma_contains_both(handle_requirements(scene, rest), own, r);
        assert(forall|i: int| 0 <= i < rest.len() ==> #[trigger] rest[i] == handles[i]);
        if handle_requirements(scene, rest).contains(r) {
            let i = choose|i: int|
                {
                    &&& 0 <= i < rest.len()
                    &&& (#[trigger] rest[i]).category is Scattered || rest[i].category is Broadcast
                    &&& slot_holds(scene, rest[i].index, r.buffer)
                };
            assert(handles[i] == rest[i]);
        }
        if !r.vertex && exists|i: int|
            {
                &&& 0 <= i < handles.len()
                &&& (#[trigger] handles[i]).category is Scattered || handles[i].category
                    is Broadcast
                &&& slot_holds(scene, handles[i].index, r.buffer)
            } {
            let i = choose|i: int|
                {
                    &&& 0 <= i < handles.len()
                    &&& (#[trigger] handles[i]).category is Scattered || handles[i].category
                        is Broadcast
                    &&& slot_holds(scene, handles[i].index, r.buffer)
                };
            if i < rest.len() {
                assert(rest[i] == handles[i]);
            }
        }
        assert(handles[handles.len() - 1] == h);
    }
}

/// What is listed for commands is exactly what some command needs.
pub proof fn commands_list_what_they_need(
    scene: RasterScene,
    commands: Seq<RenderCommand>,
    r: Requirement,
)
    ensures
        commands_requirements(scene, commands).contains(r) <==> exists|i: int|
            0 <= i < commands.len() && command_needs(scene, #[trigger] commands[i], r),
    decreases commands.len(),
{
    if commands.len() > 0 {
        let rest = commands.drop_last();
        let last = commands.last();
        let own = command_requirements(scene, last);
        commands_list_what_they_need(scene, rest, r);
        lemma_contains_both(commands_requirements(scene, rest), own, r);
        match last {
            RenderCommand::SetVertexBuffer { slot, buffer, offset } => {
                assert(own[0] == (Requirement { buffer, vertex: true }));
            },
            RenderCommand::SetIndexBuffer { buffer, offset, format } => {
                assert(own[0] == (Requirement { buffer, vertex: true }));
            },
            RenderCommand::BindResourcesTyped { handles } => {
                lemma_handles(scene, handles@, r);
            },
            _ => {},
        }
        assert(own.contains(r) <==> command_needs(scene, last, r));
        if exists|i: int| 0 <= i < rest.len() && command_needs(scene, #[trigger] rest[i], r) {
            let i = choose|i: int|
                0 <= i < rest.len() && command_needs(scene, #[trigger] rest[i], r);
            assert(commands[i] == rest[i]);
        }
        if exists|i: int|
            0 <= i < commands.len() && command_needs(scene, #[trigger] commands[i], r) {
            let i = choose|i: int|
                0 <= i < commands.len() && command_needs(scene, #[trigger] commands[i], r);
            if i < rest.len() {
                assert(rest[i] == commands[i]);
            }
        }
        if command_needs(scene, last, r) {
            assert(commands[commands.len() - 1] == last);
        }
    }
}

/// What is listed for a frame table are exactly the buffers that its words name.
pub proof fn table_lists_the_buffers_it_names(scene: RasterScene, words: Seq<u32>, r: Requirement)
    ensures
        staging_requirements(scene, words).contains(r) <==> !r.vertex && exists|i: int|
            0 <= i < words.len() && slot_holds(scene, #[trigger] words[i], r.buffer),
    decreases words.len(),
{
    if words.len() > 0 {
        let rest = words.drop_last();
        table_lists_the_buffers_it_names(scene, rest, r);
        lemma_slot(scene, words.last(), r);
        lemma_contains_both(
            staging_requirements(scene, rest),
            slot_requirement(scene, words.last()),
            r,
        );
        if exists|i: int| 0 <= i < rest.len() && slot_holds(scene, #[trigger] rest[i], r.buffer) {
            let i = choose|i: int|
                0 <= i < rest.len() && slot_holds(scene, #[trigger] rest[i], r.buffer);
            assert(words[i] == rest[i]);
        }
        if exists|i: int| 0 <= i < words.len() && slot_holds(scene, #[trigger] words[i], r.buffer) {
            let i = choose|i: int|
                0 <= i < words.len() && slot_holds(scene, #[trigger] words[i], r.buffer);
            if i < rest.len() {
                assert(rest[i] == words[i]);
            }
        }
        assert(words[words.len() - 1] == words.last());
    }
}

/// Two commands do the same, on the contents that their buffers have.
pub open spec fn same_command(
    s: RasterScene,
    a: RenderCommand,
    t: RasterScene,
    b: RenderCommand,
) -> bool {
    match a {
        RenderCommand::SetPipeline { pipeline } => b == (RenderCommand::SetPipeline { pipeline }),
        RenderCommand::SetVertexBuffer { slot, buffer, offset } => b == (
        RenderCommand::SetVertexBuffer { slot, buffer, offset }) && s.buffers@[buffer].content_epoch
            == t.buffers@[buffer].content_epoch,
        RenderCommand::SetIndexBuffer { buffer, offset, format } => b == (
        RenderCommand::SetIndexBuffer { buffer, offset, format })
            && s.buffers@[buffer].content_epoch == t.buffers@[buffer].content_epoch,
        RenderCommand::Draw { vertex_count, instance_count, first_vertex, first_instance } => b == (
        RenderCommand::Draw { vertex_count, instance_count, first_vertex, first_instance }),
        RenderCommand::DrawIndexed {
            index_count,
            instance_count,
            first_index,
            base_vertex,
            first_instance,
        } => b == (RenderCommand::DrawIndexed {
            index_count,
            instance_count,
            first_index,
            base_vertex,
            first_instance,
        }),
        RenderCommand::ClearDepth { depth } => b == (RenderCommand::ClearDepth { depth }),
        RenderCommand::BindResources { buffers } => b matches RenderCommand::BindResources {
            buffers: other,
        } && other@ == buffers@,
        RenderCommand::BindResourcesRaw { indices, user, frame_table_base } => {
            &&& b matches RenderCommand::BindResourcesRaw {
                indices: i,
                user: u,
                frame_table_base: f,
            }
            &&& i@ == indices@
            &&& u@ == user@
            &&& f == frame_table_base
        },
        RenderCommand::BindResourcesTyped { handles } => b matches
            RenderCommand::BindResourcesTyped { handles: other } && other@ == handles@,
    }
}

proof fn lemma_handle_words(a: Seq<TypedHandle>, b: Seq<TypedHandle>)
    requires
        handle_words(a) == handle_words(b),
    ensures
        a == b,
    decreases a.len(),
{
    lemma_handle_words_len(a);
    lemma_handle_words_len(b);
    if a.len() == 0 {
        assert(a =~= b);
    } else {
        let x = handle_words(a);
        let y = handle_words(b);
        let n = x.len() as int;
        assert(x[n - 1] == y[n - 1] && x[n - 2] == y[n - 2]);
        let p = handle_words(a.drop_last());
        let q = handle_words(b.drop_last());
        assert(p =~= x.take(n - 2));
        assert(q =~= y.take(n - 2));
        lemma_handle_words(a.drop_last(), b.drop_last());
        assert(a.last() == b.last());
        assert(a =~= a.drop_last().push(a.last()));
        assert(b =~= b.drop_last().push(b.last()));
    }
}

proof fn lemma_handle_words_len(a: Seq<TypedHandle>)
    ensures
        handle_words(a).len() == 2 * a.len(),
    decreases a.len(),
{
    if a.len() > 0 {
        lemma_handle_words_len(a.drop_last());
    }
}

/// What tells one command from another: commands with the same key do the same, on buffers
/// whose contents have not changed in between. A list that is used again so draws what a
/// new one would.
pub proof fn same_key_is_the_same_command(
    s: RasterScene,
    a: RenderCommand,
    t: RasterScene,
    b: RenderCommand,
)
    requires
        command_key(s, a) is Ok,
        command_key(s, a) == command_key(t, b),
        a matches RenderCommand::BindResourcesRaw { indices, user, frame_table_base }
            ==> indices@.len() <= u64::MAX && user@.len() <= u64::MAX,
        b matches RenderCommand::BindResourcesRaw { indices, user, frame_table_base }
            ==> indices@.len() <= u64::MAX && user@.len() <= u64::MAX,
    ensures
        same_command(s, a, t, b),
{
    let x = command_key(s, a)->Ok_0;
    let y = command_key(t, b)->Ok_0;
    assert(x == y);
    assert(x[0] == y[0]);
    match a {
        RenderCommand::SetPipeline { pipeline } => {
            assert(x[1] == y[1]);
        },
        RenderCommand::SetVertexBuffer { .. } => {
            assert(x[1] == y[1] && x[2] == y[2] && x[3] == y[3] && x[4] == y[4]);
        },
        RenderCommand::SetIndexBuffer { .. } => {
            assert(x[1] == y[1] && x[2] == y[2] && x[3] == y[3] && x[4] == y[4]);
        },
        RenderCommand::Draw { .. } => {
            assert(x[1] == y[1] && x[2] == y[2] && x[3] == y[3] && x[4] == y[4]);
        },
        RenderCommand::DrawIndexed { base_vertex, .. } => {
            assert(x[1] == y[1] && x[2] == y[2] && x[3] == y[3] && x[4] == y[4] && x[5] == y[5]);
            if b is DrawIndexed {
                let other = b->base_vertex;
                assert(base_vertex as u32 == other as u32 ==> base_vertex == other) by (bit_vector);
            }
        },
        RenderCommand::ClearDepth { .. } => {
            assert(x[1] == y[1]);
        },
        RenderCommand::BindResources { buffers } => {
            if b is BindResources {
                let other = b->BindResources_buffers@;
                assert(x.skip(1) =~= buffers@);
                assert(y.skip(1) =~= other);
            }
        },
        RenderCommand::BindResourcesRaw { indices, user, frame_table_base } => {
            if b is BindResourcesRaw {
                let i = b->indices@;
                let u = b->user@;
                assert(x[1] == y[1]);
                let n = indices@.len() as int;
                assert(n == i.len());
                assert forall|k: int| 0 <= k < n implies indices@[k] == i[k] by {
                    assert(x[2 + k] == wide(indices@)[k]);
                    assert(y[2 + k] == wide(i)[k]);
                }
                assert(indices@ =~= i);
                assert(x[2 + n] == user@.len() as u64);
                assert(y[2 + n] == u.len() as u64);
                let m = user@.len() as int;
                assert forall|k: int| 0 <= k < m implies user@[k] == u[k] by {
                    assert(x[3 + n + k] == wide(user@)[k]);
                    assert(y[3 + n + k] == wide(u)[k]);
                }
                assert(user@ =~= u);
                assert(x[3 + n + m] == frame_table_base as u64);
                assert(y[3 + n + m] == b->frame_table_base as u64);
            }
        },
        RenderCommand::BindResourcesTyped { handles } => {
            if b is BindResourcesTyped {
                let other = b->handles@;
                assert(x.skip(1) =~= handle_words(handles@));
                assert(y.skip(1) =~= handle_words(other));
                lemma_handle_words(handles@, other);
            }
        },
    }
}

/// Passes with the same key render to the same target, of the same size, and begin with the
/// same load and the same colour.
pub proof fn same_key_is_the_same_target(
    s: RasterScene,
    t: RasterScene,
    target: u64,
    other: u64,
    load: TargetLoad,
    load2: TargetLoad,
    commands: Seq<RenderCommand>,
    commands2: Seq<RenderCommand>,
    staging: Seq<u32>,
    staging2: Seq<u32>,
    row_stride: nat,
)
    requires
        pass_key(s, target, load, commands, staging, row_stride) is Ok,
        pass_key(s, target, load, commands, staging, row_stride) == pass_key(
            t,
            other,
            load2,
            commands2,
            staging2,
            row_stride,
        ),
    ensures
        target == other,
        s.render_targets@[target].width == t.render_targets@[other].width,
        s.render_targets@[target].height == t.render_targets@[other].height,
        load == load2,
{
    let x = pass_key(s, target, load, commands, staging, row_stride)->Ok_0;
    let y = pass_key(t, other, load2, commands2, staging2, row_stride)->Ok_0;
    assert(x[0] == y[0] && x[1] == y[1] && x[2] == y[2] && x[3] == y[3]);
    assert(x[3] == load_key(load)[0]);
    assert(y[3] == load_key(load2)[0]);
    if load is Clear && load2 is Clear {
        assert(x[4] == load_key(load)[1] && x[5] == load_key(load)[2] && x[6] == load_key(load)[3]
            && x[7] == load_key(load)[4]);
        assert(y[4] == load_key(load2)[1] && y[5] == load_key(load2)[2] && y[6] == load_key(
            load2,
        )[3] && y[7] == load_key(load2)[4]);
    }
}

/// A twin that was brought up to date has the contents of its buffer, and no longer has
/// them once the contents have changed.
pub proof fn changed_contents_leave_the_twin_behind(
    buffer: RasterBuffer,
    refresh: Refresh,
    signaled: u64,
    epoch: u64,
)
    requires
        refresh is Copy,
        epoch != buffer.content_epoch,
    ensures
        twin_current(refreshed(buffer, refresh, signaled)),
        !twin_current(
            RasterBuffer { content_epoch: epoch, ..refreshed(buffer, refresh, signaled) },
        ),
{
}

/// A buffer of a scene lags behind exactly where it has a twin without its contents.
pub proof fn buffer_lags_where_its_twin_does(scene: RasterScene, handle: u64)
    ensures
        twin_lags(scene, handle) ==> scene.buffers@.contains_key(handle),
        scene.buffers@.contains_key(handle) ==> {
            let b = scene.buffers@[handle];
            twin_lags(scene, handle) == (b.phys_kind is NativeAndTwin && b.shared_epoch
                != b.content_epoch)
        },
{
}

/// The buffers needed in one way are exactly those that some requirement asks for in that
/// way, each once.
pub proof fn needed_buffers_are_those_asked_for(
    requirements: Seq<Requirement>,
    vertex: bool,
    buffer: u64,
)
    ensures
        needed(requirements, vertex).contains(buffer) <==> exists|i: int|
            0 <= i < requirements.len() && (#[trigger] requirements[i]).buffer == buffer
                && requirements[i].vertex == vertex,
        needed(requirements, vertex).no_duplicates(),
    decreases requirements.len(),
{
    if requirements.len() > 0 {
        let rest = requirements.drop_last();
        let r = requirements.last();
        let before = needed(rest, vertex);
        let after = needed(requirements, vertex);
        needed_buffers_are_those_asked_for(rest, vertex, buffer);
        needed_buffers_are_those_asked_for(rest, vertex, r.buffer);
        assert(requirements[requirements.len() - 1] == r);
        if before.contains(buffer) {
            let k = choose|k: int| 0 <= k < before.len() && before[k] == buffer;
            assert(after[k] == buffer);
            let i = choose|i: int|
                0 <= i < rest.len() && (#[trigger] rest[i]).buffer == buffer && rest[i].vertex
                    == vertex;
            assert(requirements[i] == rest[i]);
        }
        if r.vertex == vertex && !before.contains(r.buffer) {
            assert(after == before.push(r.buffer));
            assert(after[before.len() as int] == r.buffer);
            if after.contains(buffer) && buffer != r.buffer {
                let k = choose|k: int| 0 <= k < after.len() && after[k] == buffer;
                assert(before[k] == buffer);
            }
        }
        assert forall|i: int|
            0 <= i < requirements.len() && (#[trigger] requirements[i]).buffer == buffer
                && requirements[i].vertex == vertex implies after.contains(buffer) by {
            if i < rest.len() {
                assert(rest[i] == requirements[i]);
            }
        }
    }
}

} // verus!
