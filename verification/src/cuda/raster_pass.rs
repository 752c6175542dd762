//! A raster pass: what it reads, when its list can be used again, and what it records.

use std::collections::hash_map::DefaultHasher;
use std::collections::HashMap;
use std::hash::Hasher;
use vstd::bytes::{spec_u64_to_le_bytes, u64_to_le_bytes};
use vstd::prelude::*;
use vstd::std_specs::hash::DefaultHasherAdditionalSpecFns;

use super::raster::{CudaGraphicsPipeline, CudaRenderTarget, IndexFormat, RasterError};
use super::raster_backing::RasterBuffer;
use crate::dx12::commands::{ResourceCategory, TypedHandle};

verus! {

broadcast use vstd::std_specs::hash::group_hash_axioms;

/// What becomes of the contents of a target when a pass begins. The components of a
/// color are the bits of floating-point numbers.
#[derive(Clone, Copy, Debug, PartialEq, Eq, Structural)]
pub enum TargetLoad {
    Clear { r: u32, g: u32, b: u32, a: u32 },
    Load,
    Discard,
}

/// One command of a raster pass.
pub enum RenderCommand {
    SetPipeline { pipeline: u64 },
    SetVertexBuffer { slot: u32, buffer: u64, offset: u64 },
    SetIndexBuffer { buffer: u64, offset: u64, format: IndexFormat },
    Draw { vertex_count: u32, instance_count: u32, first_vertex: u32, first_instance: u32 },
    DrawIndexed {
        index_count: u32,
        instance_count: u32,
        first_index: u32,
        base_vertex: i32,
        first_instance: u32,
    },
    /// The depth is the bits of a floating-point number.
    ClearDepth { depth: u32 },
    BindResources { buffers: Vec<u64> },
    BindResourcesRaw { indices: Vec<u32>, user: Vec<u32>, frame_table_base: u32 },
    BindResourcesTyped { handles: Vec<TypedHandle> },
}

/// What a pass refers to.
pub struct RasterScene {
    pub pipelines: HashMap<u64, CudaGraphicsPipeline>,
    pub buffers: HashMap<u64, RasterBuffer>,
    /// Buffers by bindless slot.
    pub buffer_slots: HashMap<u32, u64>,
    pub render_targets: HashMap<u64, CudaRenderTarget>,
    /// Fingerprint of the list recorded last for a target.
    pub list_cache: HashMap<u64, u64>,
}

/// A number for a category.
pub open spec fn category_word(category: ResourceCategory) -> u64 {
    match category {
        ResourceCategory::Scattered => 0,
        ResourceCategory::Broadcast => 1,
        ResourceCategory::Texture => 2,
        ResourceCategory::Sampler => 3,
    }
}

/// The words of typed handles.
pub open spec fn handle_words(handles: Seq<TypedHandle>) -> Seq<u64>
    decreases handles.len(),
{
    if handles.len() == 0 {
        Seq::empty()
    } else {
        handle_words(handles.drop_last()).push(handles.last().index as u64).push(
            category_word(handles.last().category),
        )
    }
}

/// Words as larger words.
pub open spec fn wide(words: Seq<u32>) -> Seq<u64> {
    words.map_values(|w: u32| w as u64)
}

/// What of a command decides whether a recorded list can be used again.
pub open spec fn command_key(scene: RasterScene, command: RenderCommand) -> Result<
    Seq<u64>,
    RasterError,
> {
    match command {
        RenderCommand::SetPipeline { pipeline } => if scene.pipelines@.contains_key(pipeline) {
            Ok(seq![0u64, pipeline])
        } else {
            Err(RasterError::InvalidPipeline)
        },
        RenderCommand::SetVertexBuffer { slot, buffer, offset } => if scene.buffers@.contains_key(
            buffer,
        ) {
            Ok(seq![1u64, slot as u64, buffer, offset, scene.buffers@[buffer].content_epoch])
        } else {
            Err(RasterError::InvalidVertexBuffer)
        },
        RenderCommand::Draw { vertex_count, instance_count, first_vertex, first_instance } => Ok(
            seq![
                2u64,
                vertex_count as u64,
                instance_count as u64,
                first_vertex as u64,
                first_instance as u64,
            ],
        ),
        RenderCommand::ClearDepth { depth } => Ok(seq![3u64, depth as u64]),
        RenderCommand::SetIndexBuffer { buffer, offset, format } => if scene.buffers@.contains_key(
            buffer,
        ) {
            Ok(
                seq![
                    4u64,
                    buffer,
                    offset,
                    match format {
                        IndexFormat::Uint16 => 0u64,
                        IndexFormat::Uint32 => 1u64,
                    },
                    scene.buffers@[buffer].content_epoch,
                ],
            )
        } else {
            Err(RasterError::InvalidIndexBuffer)
        },
        RenderCommand::DrawIndexed {
            index_count,
            instance_count,
            first_index,
            base_vertex,
            first_instance,
        } => Ok(
            seq![
                5u64,
                index_count as u64,
                instance_count as u64,
                first_index as u64,
                (base_vertex as u32) as u64,
                first_instance as u64,
            ],
        ),
        RenderCommand::BindResources { buffers } => Ok(seq![6u64] + buffers@),
        RenderCommand::BindResourcesRaw { indices, user, frame_table_base } => Ok(
            seq![7u64, indices@.len() as u64] + wide(indices@) + seq![user@.len() as u64] + wide(
                user@,
            ) + seq![frame_table_base as u64],
        ),
        RenderCommand::BindResourcesTyped { handles } => Ok(seq![8u64] + handle_words(handles@)),
    }
}

/// The keys of commands, or the error of the first that refers to nothing.
pub open spec fn commands_key(scene: RasterScene, commands: Seq<RenderCommand>) -> Result<
    Seq<u64>,
    RasterError,
>
    decreases commands.len(),
{
    if commands.len() == 0 {
        Ok(Seq::empty())
    } else {
        match commands_key(scene, commands.drop_last()) {
            Ok(before) => match command_key(scene, commands.last()) {
                Ok(words) => Ok(before + words),
                Err(e) => Err(e),
            },
            Err(e) => Err(e),
        }
    }
}

/// The key of a load operation.
pub open spec fn load_key(load: TargetLoad) -> Seq<u64> {
    match load {
        TargetLoad::Clear { r, g, b, a } => seq![0u64, r as u64, g as u64, b as u64, a as u64],
        TargetLoad::Load => seq![1u64],
        TargetLoad::Discard => seq![2u64],
    }
}

/// The first words, as many as there are up to `n`.
pub open spec fn leading(words: Seq<u32>, n: nat) -> Seq<u32> {
    if n <= words.len() {
        words.take(n as int)
    } else {
        words
    }
}

/// What decides whether the list of a pass can be used again: the target and its
/// size, how it is loaded, the first row of the frame table and the commands with the
/// epochs of the buffers they read.
pub open spec fn pass_key(
    scene: RasterScene,
    target: u64,
    load: TargetLoad,
    commands: Seq<RenderCommand>,
    staging: Seq<u32>,
    row_stride: nat,
) -> Result<Seq<u64>, RasterError> {
    if !scene.render_targets@.contains_key(target) {
        Err(RasterError::InvalidRenderTarget)
    } else {
        let rt = scene.render_targets@[target];
        match commands_key(scene, commands) {
            Ok(words) => Ok(
                seq![target, rt.width as u64, rt.height as u64] + load_key(load) + wide(
                    leading(staging, row_stride),
                ) + words,
            ),
            Err(e) => Err(e),
        }
    }
}

/// The fingerprint of a key.
pub open spec fn key_fingerprint(key: Seq<u64>) -> u64 {
    DefaultHasher::spec_finish(key.map_values(|w: u64| spec_u64_to_le_bytes(w)))
}

fn push_wide(key: &mut Vec<u64>, words: &Vec<u32>, count: usize)
    requires
        count <= words@.len(),
    ensures
        final(key)@ == old(key)@ + wide(words@.take(count as int)),
{
    let mut i: usize = 0;
    assert(key@ =~= old(key)@ + wide(words@.take(0)));
    while i < count
        invariant
            i <= count <= words@.len(),
            key@ == old(key)@ + wide(words@.take(i as int)),
        decreases count - i,
    {
        key.push(words[i] as u64);
        assert(key@ =~= old(key)@ + wide(words@.take(i + 1)));
        i += 1;
    }
}

fn push_handles(key: &mut Vec<u64>, handles: &Vec<TypedHandle>)
    ensures
        final(key)@ == old(key)@ + handle_words(handles@),
{
    let mut i: usize = 0;
    assert(key@ =~= old(key)@ + handle_words(handles@.take(0)));
    while i < handles.len()
        invariant
            i <= handles.len(),
            key@ == old(key)@ + handle_words(handles@.take(i as int)),
        decreases handles.len() - i,
    {
        assert(handles@.take(i + 1).drop_last() =~= handles@.take(i as int));
        key.push(handles[i].index as u64);
        key.push(
            match handles[i].category {
                ResourceCategory::Scattered => 0,
                ResourceCategory::Broadcast => 1,
                ResourceCategory::Texture => 2,
                ResourceCategory::Sampler => 3,
            },
        );
        assert(key@ =~= old(key)@ + handle_words(handles@.take(i + 1)));
        i += 1;
    }
    assert(handles@.take(i as int) =~= handles@);
}

fn push_command(scene: &RasterScene, key: &mut Vec<u64>, command: &RenderCommand) -> (result: Result<
    (),
    RasterError,
>)
    ensures
        match command_key(*scene, *command) {
            Ok(words) => result is Ok && final(key)@ == old(key)@ + words,
            Err(e) => result == Err::<(), RasterError>(e),
        },
{
    match command {
        RenderCommand::SetPipeline { pipeline } => {
            if !scene.pipelines.contains_key(pipeline) {
                return Err(RasterError::InvalidPipeline);
            }
            key.push(0);
            key.push(*pipeline);
        },
        RenderCommand::SetVertexBuffer { slot, buffer, offset } => {
            match scene.buffers.get(buffer) {
                Some(found) => {
                    key.push(1);
                    key.push(*slot as u64);
                    key.push(*buffer);
                    key.push(*offset);
                    key.push(found.content_epoch);
                },
                None => {
                    return Err(RasterError::InvalidVertexBuffer);
                },
            }
        },
        RenderCommand::Draw { vertex_count, instance_count, first_vertex, first_instance } => {
            key.push(2);
            key.push(*vertex_count as u64);
            key.push(*instance_count as u64);
            key.push(*first_vertex as u64);
            key.push(*first_instance as u64);
        },
        RenderCommand::ClearDepth { depth } => {
            key.push(3);
            key.push(*depth as u64);
        },
        RenderCommand::SetIndexBuffer { buffer, offset, format } => {
            match scene.buffers.get(buffer) {
                Some(found) => {
                    key.push(4);
                    key.push(*buffer);
                    key.push(*offset);
                    key.push(
                        match format {
                            IndexFormat::Uint16 => 0,
                            IndexFormat::Uint32 => 1,
                        },
                    );
                    key.push(found.content_epoch);
                },
                None => {
                    return Err(RasterError::InvalidIndexBuffer);
                },
            }
        },
        RenderCommand::DrawIndexed {
            index_count,
            instance_count,
            first_index,
            base_vertex,
            first_instance,
        } => {
            key.push(5);
            key.push(*index_count as u64);
            key.push(*instance_count as u64);
            key.push(*first_index as u64);
            key.push((*base_vertex as u32) as u64);
            key.push(*first_instance as u64);
        },
        RenderCommand::BindResources { buffers } => {
            key.push(6);
            let ghost start = key@;
            let mut i: usize = 0;
            while i < buffers.len()
                invariant
                    i <= buffers.len(),
                    key@ == start + buffers@.take(i as int),
                decreases buffers.len() - i,
            {
                key.push(buffers[i]);
                assert(key@ =~= start + buffers@.take(i + 1));
                i += 1;
            }
            assert(buffers@.take(i as int) =~= buffers@);
        },
        RenderCommand::BindResourcesRaw { indices, user, frame_table_base } => {
            key.push(7);
            key.push(indices.len() as u64);
            push_wide(key, indices, indices.len());
            key.push(user.len() as u64);
            push_wide(key, user, user.len());
            key.push(*frame_table_base as u64);
            assert(indices@.take(indices@.len() as int) =~= indices@);
            assert(user@.take(user@.len() as int) =~= user@);
        },
        RenderCommand::BindResourcesTyped { handles } => {
            key.push(8);
            push_handles(key, handles);
        },
    }
    assert(key@ =~= old(key)@ + command_key(*scene, *command)->Ok_0);
    Ok(())
}

proof fn lemma_key_error(scene: RasterScene, commands: Seq<RenderCommand>, n: int)
    requires
        0 <= n <= commands.len(),
        commands_key(scene, commands.take(n)) is Err,
    ensures
        commands_key(scene, commands) == commands_key(scene, commands.take(n)),
    decreases commands.len(),
{
    if n < commands.len() {
        assert(commands.drop_last().take(n) =~= commands.take(n));
        lemma_key_error(scene, commands.drop_last(), n);
    } else {
        assert(commands.take(n) =~= commands);
    }
}

fn fingerprint_of(key: &Vec<u64>) -> (fingerprint: u64)
    ensures
        fingerprint == key_fingerprint(key@),
{
    let mut hasher = DefaultHasher::new();
    let ghost bytes = |w: u64| spec_u64_to_le_bytes(w);
    let mut i: usize = 0;
    assert(hasher@ =~= key@.take(0).map_values(bytes));
    while i < key.len()
        invariant
            i <= key.len(),
            bytes == (|w: u64| spec_u64_to_le_bytes(w)),
            hasher@ == key@.take(i as int).map_values(bytes),
        decreases key.len() - i,
    {
        let word = u64_to_le_bytes(key[i]);
        hasher.write(word.as_slice());
        assert(hasher@ =~= key@.take(i + 1).map_values(bytes));
        i += 1;
    }
    assert(key@.take(i as int) =~= key@);
    hasher.finish()
}

/// The fingerprint of a pass. `row_stride` is the number of words of a row of the
/// frame table.
pub fn raster_fingerprint(
    scene: &RasterScene,
    target: u64,
    load: TargetLoad,
    commands: &Vec<RenderCommand>,
    staging: &Vec<u32>,
    row_stride: usize,
) -> (fingerprint: Result<u64, RasterError>)
    ensures
        fingerprint == (match pass_key(
            *scene,
            target,
            load,
            commands@,
            staging@,
            row_stride as nat,
        ) {
            Ok(key) => Ok(key_fingerprint(key)),
            Err(e) => Err::<u64, RasterError>(e),
        }),
{
    let rt = match scene.render_targets.get(&target) {
        Some(rt) => *rt,
        None => {
            return Err(RasterError::InvalidRenderTarget);
        },
    };
    let mut key: Vec<u64> = Vec::new();
    key.push(target);
    key.push(rt.width as u64);
    key.push(rt.height as u64);
    match load {
        TargetLoad::Clear { r, g, b, a } => {
            key.push(0);
            key.push(r as u64);
            key.push(g as u64);
            key.push(b as u64);
            key.push(a as u64);
        },
        TargetLoad::Load => {
            key.push(1);
        },
        TargetLoad::Discard => {
            key.push(2);
        },
    }
    assert(key@ =~= seq![target, rt.width as u64, rt.height as u64] + load_key(load));
    let count: usize = if row_stride <= staging.len() {
        row_stride
    } else {
        staging.len()
    };
    push_wide(&mut key, staging, count);
    assert(staging@.take(count as int) =~= leading(staging@, row_stride as nat));
    let ghost start = key@;
    let mut i: usize = 0;
    assert(key@ =~= start + commands_key(*scene, commands@.take(0))->Ok_0);
    while i < commands.len()
        invariant
            i <= commands.len(),
            scene.render_targets@.contains_key(target),
            commands_key(*scene, commands@.take(i as int)) is Ok,
            key@ == start + commands_key(*scene, commands@.take(i as int))->Ok_0,
        decreases commands.len() - i,
    {
        assert(commands@.take(i + 1).drop_last() =~= commands@.take(i as int));
        let ghost before = key@;
        match push_command(scene, &mut key, &commands[i]) {
            Ok(_) => {},
            Err(e) => {
                proof {
                    lemma_key_error(*scene, commands@, i + 1);
                }
                return Err(e);
            },
        }
        assert(key@ =~= start + commands_key(*scene, commands@.take(i + 1))->Ok_0);
        i += 1;
    }
    assert(commands@.take(i as int) =~= commands@);
    Ok(fingerprint_of(&key))
}

} // verus!
