//! Eviction of retained work that refers to scratch that is about to go.

use std::collections::{HashMap, HashSet};
use vstd::prelude::*;

use super::ops::{
    collect_pins, collect_stream_ops, launches_known, pinned_textures, stream_part, CudaOp,
    CudaOpSegment, LaunchRecord,
};
use super::retained_graph::{CudaRetainedPartition, GraphRegistry, RegistryView};
use super::surface::CudaSurfaceState;
use crate::dx12::commands::{GpuCommand, GraphCommand};
use crate::dx12::context::lemma_take_to_set;
use crate::dx12::lowering::BarrierUsage;

verus! {

broadcast use vstd::std_specs::hash::group_hash_axioms;

/// An image of a surface.
#[derive(Clone, Copy, Debug, PartialEq, Eq, Structural)]
pub struct ScratchImage {
    pub surface: u64,
    pub image: usize,
}

/// Work that is kept for replay.
pub enum RetainedEntry {
    /// Graph islands and stream segments.
    Segmented {
        launches: Vec<LaunchRecord>,
        segments: Vec<CudaOpSegment>,
        scratch_images: Vec<ScratchImage>,
    },
    Ops { launches: Vec<LaunchRecord>, ops: Vec<CudaOp> },
    /// Commands that are recorded again for each run.
    Render { commands: Vec<GraphCommand> },
    PresentRenderTarget,
}

/// What is about to go: handles and bindless slots of textures, and the textures
/// themselves.
pub struct Doomed {
    pub handles: HashSet<u64>,
    pub slots: HashSet<u32>,
    pub textures: HashSet<u64>,
}

/// The entry names only launches that it holds.
pub open spec fn entry_wf(entry: RetainedEntry) -> bool {
    match entry {
        RetainedEntry::Segmented { launches, segments, scratch_images } => launches_known(
            launches@,
            stream_part(segments@),
        ),
        RetainedEntry::Ops { launches, ops } => launches_known(launches@, ops@),
        _ => true,
    }
}

/// Some of the values is in the set.
pub open spec fn any_in<T>(values: Seq<T>, set: Set<T>) -> bool {
    exists|i: int| 0 <= i < values.len() && set.contains(#[trigger] values[i])
}

/// The image has scratch that is about to go.
pub open spec fn image_doomed(
    surfaces: Map<u64, CudaSurfaceState>,
    doomed: Doomed,
    image: ScratchImage,
) -> bool {
    surfaces.contains_key(image.surface) && image.image < surfaces[image.surface].scratch@.len()
        && (surfaces[image.surface].scratch@[image.image as int] matches Some(slot)
        && doomed.handles@.contains(slot.texture_handle))
}

/// The command refers to something that is about to go.
pub open spec fn command_touches(doomed: Doomed, command: GraphCommand) -> bool {
    match command {
        GraphCommand::Compute(GpuCommand::WriteTexture { texture, data, width, height }) => doomed.handles@.contains(
            texture,
        ),
        GraphCommand::Compute(
            GpuCommand::WriteTextureRegion { texture, x, y, width, height, data },
        ) => doomed.handles@.contains(texture),
        GraphCommand::Compute(GpuCommand::CopyRenderTarget { src, dst }) => doomed.handles@.contains(
            dst,
        ),
        GraphCommand::Compute(
            GpuCommand::CopyBufferToTexture {
                src,
                src_offset,
                src_row_pitch,
                dst,
                x,
                y,
                width,
                height,
            },
        ) => doomed.handles@.contains(dst),
        GraphCommand::Compute(GpuCommand::CopyTextureToReadback { src, dst, src_layout_after }) =>
            doomed.handles@.contains(src),
        GraphCommand::Compute(GpuCommand::CopyTexture { src, dst }) => doomed.handles@.contains(src)
            || doomed.handles@.contains(dst),
        GraphCommand::Compute(GpuCommand::BindResourcesRaw { indices, user, frame_table_base }) =>
            any_in(indices@, doomed.slots@),
        GraphCommand::Compute(GpuCommand::FrameTableStaging { words }) => any_in(
            words@,
            doomed.slots@,
        ),
        GraphCommand::Compute(GpuCommand::ResourceBarrier { buffers, textures }) => exists|i: int|
            0 <= i < textures@.len() && doomed.handles@.contains((#[trigger] textures@[i]).0),
        _ => false,
    }
}

/// The entry refers to something that is about to go.
pub open spec fn touches(
    surfaces: Map<u64, CudaSurfaceState>,
    doomed: Doomed,
    entry: RetainedEntry,
) -> bool {
    match entry {
        RetainedEntry::Segmented { launches, segments, scratch_images } => (exists|i: int|
            0 <= i < scratch_images@.len() && image_doomed(
                surfaces,
                doomed,
                #[trigger] scratch_images@[i],
            )) || any_in(pinned_textures(launches@, stream_part(segments@)), doomed.textures@),
        RetainedEntry::Ops { launches, ops } => any_in(
            pinned_textures(launches@, ops@),
            doomed.textures@,
        ),
        RetainedEntry::Render { commands } => exists|i: int|
            0 <= i < commands@.len() && command_touches(doomed, #[trigger] commands@[i]),
        RetainedEntry::PresentRenderTarget => false,
    }
}

fn any_texture(values: &Vec<u64>, set: &HashSet<u64>) -> (any: bool)
    ensures
        any == any_in(values@, set@),
{
    let mut i: usize = 0;
    while i < values.len()
        invariant
            i <= values.len(),
            forall|j: int| 0 <= j < i ==> !set@.contains(#[trigger] values@[j]),
        decreases values.len() - i,
    {
        if set.contains(&values[i]) {
            assert(set@.contains(values@[i as int]));
            return true;
        }
        i += 1;
    }
    false
}

fn any_slot(values: &Vec<u32>, set: &HashSet<u32>) -> (any: bool)
    ensures
        any == any_in(values@, set@),
{
    let mut i: usize = 0;
    while i < values.len()
        invariant
            i <= values.len(),
            forall|j: int| 0 <= j < i ==> !set@.contains(#[trigger] values@[j]),
        decreases values.len() - i,
    {
        if set.contains(&values[i]) {
            assert(set@.contains(values@[i as int]));
            return true;
        }
        i += 1;
    }
    false
}

fn any_barrier(doomed: &Doomed, textures: &Vec<(u64, BarrierUsage)>) -> (any: bool)
    ensures
        any == exists|i: int|
            0 <= i < textures@.len() && doomed.handles@.contains((#[trigger] textures@[i]).0),
{
    let mut i: usize = 0;
    while i < textures.len()
        invariant
            i <= textures.len(),
            forall|j: int| 0 <= j < i ==> !doomed.handles@.contains((#[trigger] textures@[j]).0),
        decreases textures.len() - i,
    {
        if doomed.handles.contains(&textures[i].0) {
            assert(doomed.handles@.contains(textures@[i as int].0));
            return true;
        }
        i += 1;
    }
    false
}

fn touches_command(doomed: &Doomed, command: &GraphCommand) -> (hit: bool)
    ensures
        hit == command_touches(*doomed, *command),
{
    match command {
        GraphCommand::Compute(command) => match command {
            GpuCommand::WriteTexture { texture, data, width, height } => doomed.handles.contains(
                texture,
            ),
            GpuCommand::WriteTextureRegion { texture, x, y, width, height, data } =>
                doomed.handles.contains(texture),
            GpuCommand::CopyRenderTarget { src, dst } => doomed.handles.contains(dst),
            GpuCommand::CopyBufferToTexture {
                src,
                src_offset,
                src_row_pitch,
                dst,
                x,
                y,
                width,
                height,
            } => doomed.handles.contains(dst),
            GpuCommand::CopyTextureToReadback { src, dst, src_layout_after } =>
                doomed.handles.contains(src),
            GpuCommand::CopyTexture { src, dst } => doomed.handles.contains(src)
                || doomed.handles.contains(dst),
            GpuCommand::BindResourcesRaw { indices, user, frame_table_base } => any_slot(
                indices,
                &doomed.slots,
            ),
            GpuCommand::FrameTableStaging { words } => any_slot(words, &doomed.slots),
            GpuCommand::ResourceBarrier { buffers, textures } => any_barrier(doomed, textures),
            _ => false,
        },
        GraphCommand::Render { .. } => false,
    }
}

fn any_image(
    surfaces: &HashMap<u64, CudaSurfaceState>,
    doomed: &Doomed,
    images: &Vec<ScratchImage>,
) -> (any: bool)
    ensures
        any == exists|i: int|
            0 <= i < images@.len() && image_doomed(surfaces@, *doomed, #[trigger] images@[i]),
{
    let mut i: usize = 0;
    while i < images.len()
        invariant
            i <= images.len(),
            forall|j: int|
                0 <= j < i ==> !image_doomed(surfaces@, *doomed, #[trigger] images@[j]),
        decreases images.len() - i,
    {
        let image = images[i];
        let mut hit = false;
        if let Some(state) = surfaces.get(&image.surface) {
            if image.image < state.scratch.len() {
                if let Some(slot) = &state.scratch[image.image] {
                    hit = doomed.handles.contains(&slot.texture_handle);
                }
            }
        }
        assert(hit == image_doomed(surfaces@, *doomed, images@[i as int]));
        if hit {
            return true;
        }
        i += 1;
    }
    false
}

fn any_command(doomed: &Doomed, commands: &Vec<GraphCommand>) -> (any: bool)
    ensures
        any == exists|i: int|
            0 <= i < commands@.len() && command_touches(*doomed, #[trigger] commands@[i]),
{
    let mut i: usize = 0;
    while i < commands.len()
        invariant
            i <= commands.len(),
            forall|j: int| 0 <= j < i ==> !command_touches(*doomed, #[trigger] commands@[j]),
        decreases commands.len() - i,
    {
        if touches_command(doomed, &commands[i]) {
            assert(command_touches(*doomed, commands@[i as int]));
            return true;
        }
        i += 1;
    }
    false
}

fn touches_entry(
    surfaces: &HashMap<u64, CudaSurfaceState>,
    doomed: &Doomed,
    entry: &RetainedEntry,
) -> (hit: bool)
    requires
        entry_wf(*entry),
    ensures
        hit == touches(surfaces@, *doomed, *entry),
{
    match entry {
        RetainedEntry::Segmented { launches, segments, scratch_images } => {
            if any_image(surfaces, doomed, scratch_images) {
                return true;
            }
            let ops = collect_stream_ops(segments);
            let pins = collect_pins(launches, &ops);
            any_texture(&pins.textures, &doomed.textures)
        },
        RetainedEntry::Ops { launches, ops } => {
            let pins = collect_pins(launches, ops);
            any_texture(&pins.textures, &doomed.textures)
        },
        RetainedEntry::Render { commands } => any_command(doomed, commands),
        RetainedEntry::PresentRenderTarget => false,
    }
}

fn any_island(islands: &Vec<CudaRetainedPartition>, doomed: &HashSet<u64>) -> (any: bool)
    ensures
        any == exists|i: int|
            0 <= i < islands@.len() && any_in((#[trigger] islands@[i]).pins.textures@, doomed@),
{
    let mut i: usize = 0;
    while i < islands.len()
        invariant
            i <= islands.len(),
            forall|j: int|
                0 <= j < i ==> !any_in((#[trigger] islands@[j]).pins.textures@, doomed@),
        decreases islands.len() - i,
    {
        if any_texture(&islands[i].pins.textures, doomed) {
            assert(any_in(islands@[i as int].pins.textures@, doomed@));
            return true;
        }
        i += 1;
    }
    false
}

/// Some island of the program pins a texture that is about to go.
pub open spec fn program_pins(view: RegistryView, ctx: u64, key: u64, doomed: Set<u64>) -> bool {
    view.graphs.contains_key((ctx, key)) && exists|i: int|
        0 <= i < view.graphs[(ctx, key)].islands@.len() && any_in(
            (#[trigger] view.graphs[(ctx, key)].islands@[i]).pins.textures@,
            doomed,
        )
}

impl GraphRegistry {
    /// Whether some island of a program pins one of the textures.
    pub fn program_holds_texture(&self, ctx: u64, key: u64, doomed: &HashSet<u64>) -> (holds: bool)
        ensures
            holds == program_pins(self@, ctx, key, doomed@),
    {
        match self.get(ctx, key) {
            Some(program) => any_island(&program.islands, doomed),
            None => false,
        }
    }
}

/// What the back end holds that eviction looks at. Retained work is keyed by context
/// and partition key, packed into one number.
pub struct RetainedTables {
    pub retained: HashMap<u128, RetainedEntry>,
    pub surfaces: HashMap<u64, CudaSurfaceState>,
    /// The device of each context.
    pub contexts: HashMap<u64, u64>,
    /// The registry of each device.
    pub registries: HashMap<u64, GraphRegistry>,
}

/// The context of a packed key.
pub open spec fn packed_ctx(k: u128) -> u64 {
    (k / 0x1_0000_0000_0000_0000) as u64
}

/// The partition key of a packed key.
pub open spec fn packed_key(k: u128) -> u64 {
    (k % 0x1_0000_0000_0000_0000) as u64
}

/// The captured graphs of the entry pin something that is about to go.
pub open spec fn graph_pins(tables: RetainedTables, doomed: Doomed, k: u128) -> bool {
    let ctx = packed_ctx(k);
    tables.retained@[k] is Segmented && tables.contexts@.contains_key(ctx)
        && tables.registries@.contains_key(tables.contexts@[ctx]) && program_pins(
        tables.registries@[tables.contexts@[ctx]]@,
        ctx,
        packed_key(k),
        doomed.textures@,
    )
}

/// The retained work under the key has to go.
pub open spec fn stale(tables: RetainedTables, doomed: Doomed, k: u128) -> bool {
    tables.retained@.contains_key(k) && (touches(
        tables.surfaces@,
        doomed,
        tables.retained@[k],
    ) || graph_pins(tables, doomed, k))
}

/// The keys in increasing order.
pub open spec fn ascending(keys: Seq<u128>) -> bool {
    forall|i: int, j: int| 0 <= i < j < keys.len() ==> keys[i] < keys[j]
}

fn insert_ascending(keys: &mut Vec<u128>, k: u128)
    requires
        ascending(old(keys)@),
    ensures
        ascending(final(keys)@),
        final(keys)@.to_set() == old(keys)@.to_set().insert(k),
{
    let ghost before = keys@;
    let mut i: usize = 0;
    while i < keys.len() && keys[i] < k
        invariant
            i <= keys@.len(),
            keys@ == before,
            ascending(before),
            forall|j: int| 0 <= j < i ==> before[j] < k,
        decreases keys.len() - i,
    {
        i += 1;
    }
    if i < keys.len() && keys[i] == k {
        assert(before.contains(before[i as int]));
        assert(before.to_set().insert(k) =~= before.to_set());
        return;
    }
    keys.insert(i, k);
    proof {
        let after = keys@;
        assert(after == before.insert(i as int, k));
        assert forall|a: int, b: int| 0 <= a < b < after.len() implies after[a] < after[b] by {
            let x = if a < i {
                a
            } else {
                a - 1
            };
            let y = if b <= i {
                b
            } else {
                b - 1
            };
            if a == i {
                if i < before.len() {
                    assert(before[i as int] > k);
                    if y > i {
                        assert(before[i as int] < before[y]);
                    }
                }
            } else if b == i {
                assert(before[a] < k);
            } else {
                assert(before[x] < before[y]);
            }
        }
        assert forall|v: u128| #[trigger] after.to_set().contains(v) == before.to_set().insert(k).contains(
            v,
        ) by {
            if after.contains(v) {
                let a = choose|a: int| 0 <= a < after.len() && after[a] == v;
                if a < i {
                    assert(before[a] == v);
                } else if a > i {
                    assert(before[a - 1] == v);
                }
            }
            if before.contains(v) {
                let a = choose|a: int| 0 <= a < before.len() && before[a] == v;
                if a < i {
                    assert(after[a] == v);
                } else {
                    assert(after[a + 1] == v);
                }
            }
            if v == k {
                assert(after[i as int] == k);
            }
        }
        assert(after.to_set() =~= before.to_set().insert(k));
    }
}

impl RetainedTables {
    fn is_stale(&self, doomed: &Doomed, k: u128, entry: &RetainedEntry) -> (hit: bool)
        requires
            entry_wf(*entry),
            self.retained@.contains_key(k),
            self.retained@[k] == *entry,
        ensures
            hit == stale(*self, *doomed, k),
    {
        if touches_entry(&self.surfaces, doomed, entry) {
            return true;
        }
        let ctx: u64 = (k / 0x1_0000_0000_0000_0000) as u64;
        let key: u64 = (k % 0x1_0000_0000_0000_0000) as u64;
        match entry {
            RetainedEntry::Segmented { .. } => match self.contexts.get(&ctx) {
                Some(device) => match self.registries.get(device) {
                    Some(registry) => registry.program_holds_texture(ctx, key, &doomed.textures),
                    None => false,
                },
                None => false,
            },
            _ => false,
        }
    }

    fn stale_keys(&self, doomed: &Doomed) -> (keys: Vec<u128>)
        requires
            forall|k: u128| #[trigger]
                self.retained@.contains_key(k) ==> entry_wf(self.retained@[k]),
        ensures
            ascending(keys@),
            keys@.to_set() == Set::new(|k: u128| stale(*self, *doomed, k)),
    {
        let mut keys: Vec<u128> = Vec::new();
        let ghost all = self.retained@;
        let ghost seen = |n: int, seq: Seq<(&u128, &RetainedEntry)>|
            Set::new(
                |k: u128|
                    stale(*self, *doomed, k) && exists|i: int|
                        0 <= i < n && *(#[trigger] seq[i]).0 == k,
            );
        for entry in iter: self.retained.iter()
            invariant
                all == self.retained@,
                seen == (|n: int, seq: Seq<(&u128, &RetainedEntry)>|
                    Set::new(
                        |k: u128|
                            stale(*self, *doomed, k) && exists|i: int|
                                0 <= i < n && *(#[trigger] seq[i]).0 == k,
                    )),
                forall|k: u128| #[trigger] all.contains_key(k) ==> entry_wf(all[k]),
                forall|i: int|
                    0 <= i < iter.seq().len() ==> all.contains_key(*(#[trigger] iter.seq()[i]).0)
                        && all[*iter.seq()[i].0] == *iter.seq()[i].1,
                forall|k: u128| #[trigger]
                    all.contains_key(k) ==> iter.seq().contains((&k, &all[k])),
                ascending(keys@),
                keys@.to_set() == seen(iter.index() as int, iter.seq()),
        {
            let k: u128 = *entry.0;
            let ghost n = iter.index() as int;
            let ghost before = keys@.to_set();
            assert(*iter.seq()[n].0 == k);
            if self.is_stale(doomed, k, entry.1) {
                insert_ascending(&mut keys, k);
            }
            proof {
                assert forall|x: u128| #[trigger] keys@.to_set().contains(x) == seen(
                    n + 1,
                    iter.seq(),
                ).contains(x) by {
                    if seen(n + 1, iter.seq()).contains(x) {
                        let i = choose|i: int|
                            0 <= i < n + 1 && *(#[trigger] iter.seq()[i]).0 == x;
                        if i < n {
                            assert(seen(n, iter.seq()).contains(x));
                        }
                    }
                    if before.contains(x) {
                        let i = choose|i: int| 0 <= i < n && *(#[trigger] iter.seq()[i]).0 == x;
                        assert(*iter.seq()[i].0 == x);
                    }
                }
                assert(keys@.to_set() =~= seen(n + 1, iter.seq()));
            }
        }
        assert(keys@.to_set() =~= Set::new(|k: u128| stale(*self, *doomed, k)));
        keys
    }

    /// Removes the retained work that refers to what is about to go. Returns its keys,
    /// in increasing order: their graphs are evicted on the worker.
    pub fn evict_retained_touching_scratch(&mut self, doomed: &Doomed) -> (evicted: Vec<u128>)
        requires
            forall|k: u128| #[trigger]
                old(self).retained@.contains_key(k) ==> entry_wf(old(self).retained@[k]),
        ensures
            ascending(evicted@),
            evicted@.to_set() == Set::new(|k: u128| stale(*old(self), *doomed, k)),
            final(self).retained@ == old(self).retained@.remove_keys(evicted@.to_set()),
            *final(self) == (RetainedTables { retained: final(self).retained, ..*old(self) }),
    {
        let evicted = self.stale_keys(doomed);
        let ghost all = self.retained@;
        let mut i: usize = 0;
        assert(all.remove_keys(evicted@.take(0).to_set()) =~= all);
        while i < evicted.len()
            invariant
                i <= evicted.len(),
                self.retained@ == all.remove_keys(evicted@.take(i as int).to_set()),
                *self == (RetainedTables { retained: self.retained, ..*old(self) }),
            decreases evicted.len() - i,
        {
            proof {
                lemma_take_to_set(evicted@, i as int);
            }
            self.retained.remove(&evicted[i]);
            assert(self.retained@ =~= all.remove_keys(evicted@.take(i + 1).to_set()));
            i += 1;
        }
        assert(evicted@.take(i as int) =~= evicted@);
        evicted
    }
}

/// After eviction nothing retained refers to what is about to go.
pub proof fn eviction_leaves_nothing_stale(before: RetainedTables, after: RetainedTables, doomed: Doomed, k: u128)
    requires
        after.retained@ == before.retained@.remove_keys(
            Set::new(|k: u128| stale(before, doomed, k)),
        ),
        after.surfaces == before.surfaces,
        after.contexts == before.contexts,
        after.registries == before.registries,
    ensures
        !stale(after, doomed, k),
{
    if after.retained@.contains_key(k) {
        assert(before.retained@.contains_key(k));
        assert(!stale(before, doomed, k));
        assert(after.retained@[k] == before.retained@[k]);
    }
}

} // verus!
