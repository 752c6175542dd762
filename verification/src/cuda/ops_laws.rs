//! What becomes of the operations of a submission when they are split, merged, stripped,
//! captured and retained.

use vstd::prelude::*;

use super::ops::{
    coalesced, flattened, joined, stream_part, without_fences, CudaOp, CudaOpSegment, SegmentView,
};
use super::retained_graph::{
    deferred, evicted, island_graph, relaunched, unretired, CudaRetainedProgram, PendingDrop,
    RegistryView,
};
use super::texture::{
    cuda_format, sampler_key, ArrayFormat, SamplerDesc,
    TextureError, TextureFormat,
};
use super::texture_objects::{object_settings, TRSF_NORMALIZED_COORDINATES, TRSF_SRGB};

verus! {

broadcast use vstd::std_specs::hash::group_hash_axioms;

/// Dropping the operations on fences drops no other: each of the others comes right behind
/// those that were before it.
pub proof fn other_operations_stay_in_order(ops: Seq<CudaOp>, i: int)
    requires
        0 <= i < ops.len(),
    ensures
        ({
            let kept = without_fences(ops);
            let before = without_fences(ops.take(i)).len() as int;
            if ops[i] is WaitExternalFence || ops[i] is SignalExternalFence {
                without_fences(ops.take(i + 1)).len() == before
            } else {
                &&& without_fences(ops.take(i + 1)).len() == before + 1
                &&& before < kept.len()
                &&& kept[before] == ops[i]
            }
        }),
    decreases ops.len(),
{
    let rest = ops.drop_last();
    if i < rest.len() {
        other_operations_stay_in_order(rest, i);
        assert(rest.take(i) =~= ops.take(i));
        assert(rest.take(i + 1) =~= ops.take(i + 1));
        assert(rest[i] == ops[i]);
    } else {
        assert(ops.take(i) =~= rest);
        assert(ops.take(i + 1) =~= ops);
    }
}

/// Joining segments keeps every operation in its place: the `k`th operation of a segment
/// comes `k` places behind all operations of the segments before it.
pub proof fn flattened_operations_keep_their_places(
    segments: Seq<CudaOpSegment>,
    i: int,
    k: int,
)
    requires
        0 <= i < segments.len(),
        0 <= k < segments[i].operations().len(),
    ensures
        ({
            let before = flattened(segments.take(i)).len() as int;
            &&& before + segments[i].operations().len() <= flattened(segments).len()
            &&& flattened(segments)[before + k] == segments[i].operations()[k]
            &&& flattened(segments.take(i + 1)).len() == before + segments[i].operations().len()
        }),
    decreases segments.len(),
{
    let rest = segments.drop_last();
    if i < rest.len() {
        flattened_operations_keep_their_places(rest, i, k);
        assert(rest.take(i) =~= segments.take(i));
        assert(rest.take(i + 1) =~= segments.take(i + 1));
        assert(rest[i] == segments[i]);
    } else {
        assert(segments.take(i) =~= rest);
        assert(segments.take(i + 1) =~= segments);
    }
}

/// What is collected for the stream are the operations of the stream segments, each in its
/// place behind those of the stream segments before it, and none of a graph island.
pub proof fn collected_operations_are_those_of_the_stream(
    segments: Seq<CudaOpSegment>,
    i: int,
    k: int,
)
    requires
        0 <= i < segments.len(),
        0 <= k < segments[i].operations().len(),
    ensures
        ({
            let before = stream_part(segments.take(i)).len() as int;
            let after = stream_part(segments.take(i + 1)).len() as int;
            if segments[i] is Stream {
                &&& after == before + segments[i].operations().len()
                &&& after <= stream_part(segments).len()
                &&& stream_part(segments)[before + k] == segments[i].operations()[k]
            } else {
                after == before
            }
        }),
    decreases segments.len(),
{
    let rest = segments.drop_last();
    if i < rest.len() {
        collected_operations_are_those_of_the_stream(rest, i, k);
        assert(rest.take(i) =~= segments.take(i));
        assert(rest.take(i + 1) =~= segments.take(i + 1));
        assert(rest[i] == segments[i]);
    } else {
        assert(segments.take(i) =~= rest);
        assert(segments.take(i + 1) =~= segments);
    }
}

/// The operations of segments in order, each with whether it runs in a graph.
pub open spec fn with_ways(segments: Seq<SegmentView>) -> Seq<(CudaOp, bool)>
    decreases segments.len(),
{
    if segments.len() == 0 {
        Seq::empty()
    } else {
        with_ways(segments.drop_last()) + ways_of(segments.last())
    }
}

/// The operations of a segment, each with whether it runs in a graph.
pub open spec fn ways_of(segment: SegmentView) -> Seq<(CudaOp, bool)> {
    match segment {
        SegmentView::Graph(ops) => ops.map_values(|op: CudaOp| (op, true)),
        SegmentView::Stream(ops) => ops.map_values(|op: CudaOp| (op, false)),
    }
}

/// Merging stream segments changes neither the operations nor their order, nor which of
/// them run in a graph.
pub proof fn merging_keeps_every_operation(segments: Seq<SegmentView>)
    ensures
        with_ways(coalesced(segments)) == with_ways(segments),
    decreases segments.len(),
{
    if segments.len() > 0 {
        let before = coalesced(segments.drop_last());
        let next = segments.last();
        merging_keeps_every_operation(segments.drop_last());
        let after = joined(before, next);
        if before.len() > 0 && before.last() is Stream && next is Stream {
            assert(after.drop_last() =~= before.drop_last());
            assert(ways_of(after.last()) =~= ways_of(before.last()) + ways_of(next));
            assert(with_ways(after) =~= with_ways(before) + ways_of(next));
        } else {
            assert(after.drop_last() =~= before);
        }
    }
}

/// The island that is launched is the one kept at its place in the program of its context
/// and key.
pub proof fn launched_island_is_the_kept_one(view: RegistryView, ctx: u64, key: u64, island: usize)
    ensures
        island_graph(view, ctx, key, island) is Ok <==> view.graphs.contains_key((ctx, key))
            && island < view.graphs[(ctx, key)].islands@.len(),
        island_graph(view, ctx, key, island) matches Ok(graph) ==> graph == view.graphs[(
            ctx,
            key,
        )].islands@[island as int].graph,
{
}

/// A launched island remembers its launch, and so does its program; what the island is made
/// of and keeps alive stays, and so does every other island.
pub proof fn launched_island_remembers_its_launch(
    before: CudaRetainedProgram,
    after: CudaRetainedProgram,
    island: int,
    fence: u64,
    other: int,
)
    requires
        relaunched(before, after, island, fence),
        0 <= island < before.islands@.len(),
        0 <= other < before.islands@.len(),
        other != island,
    ensures
        after.last_launch_tv == fence,
        after.islands@.len() == before.islands@.len(),
        after.islands@[island].last_launch_tv == fence,
        after.islands@[island].graph == before.islands@[island].graph,
        after.islands@[island].pins == before.islands@[island].pins,
        after.islands@[other] == before.islands@[other],
{
}

/// A program that is put off until it may be dropped waits for its last launch and for the
/// value that was given, and for nothing later.
pub proof fn deferred_program_waits_for_both(
    programs: Seq<CudaRetainedProgram>,
    fallback: u64,
    i: int,
)
    requires
        0 <= i < programs.len(),
    ensures
        ({
            let drops = deferred(programs, fallback);
            &&& drops.len() == programs.len()
            &&& drops[i].program == programs[i]
            &&& drops[i].retire_at >= fallback
            &&& drops[i].retire_at >= programs[i].last_launch_tv
            &&& drops[i].retire_at == fallback || drops[i].retire_at == programs[i].last_launch_tv
        }),
{
}

/// Evicting a program takes it out, puts its drop off behind those that still wait, and
/// leaves every other program where it is.
pub proof fn evicted_program_waits_to_be_dropped(
    view: RegistryView,
    ctx: u64,
    key: u64,
    retired: u64,
    fallback: u64,
    other: (u64, u64),
)
    requires
        other != (ctx, key),
    ensures
        ({
            let after = evicted(view, ctx, key, retired, fallback);
            &&& !after.graphs.contains_key((ctx, key))
            &&& after.graphs.contains_key(other) == view.graphs.contains_key(other)
            &&& after.graphs[other] == view.graphs[other]
            &&& view.graphs.contains_key((ctx, key)) ==> {
                let n = after.pending_drops.len() as int;
                &&& n > 0
                &&& after.pending_drops[n - 1].program == view.graphs[(ctx, key)]
                &&& after.pending_drops.take(n - 1) == view.pending_drops.filter(
                    |p: PendingDrop| p.retire_at > retired,
                )
            }
        }),
{
    let after = evicted(view, ctx, key, retired, fallback);
    let drained = unretired(view.pending_drops, retired);
    if view.graphs.contains_key((ctx, key)) {
        assert(after.pending_drops.take(after.pending_drops.len() - 1) =~= drained);
    }
}

/// Bytes of one channel of an array.
pub open spec fn channel_bytes(format: ArrayFormat) -> int {
    match format {
        ArrayFormat::UnormInt8X1 => 1,
        ArrayFormat::UnormInt8X2 => 1,
        ArrayFormat::UnormInt8X4 => 1,
        ArrayFormat::Half => 2,
        ArrayFormat::Float => 4,
    }
}

/// The array of a texture format has the bytes of its pixels: as many channels as it has,
/// each of its own bytes. Formats in another channel order have none.
pub proof fn array_format_has_the_bytes_of_its_pixels(format: TextureFormat)
    ensures
        cuda_format(format) is Err <==> format is Bgra8Unorm || format is Bgra8UnormSrgb,
        cuda_format(format) matches Err(e) ==> e == (TextureError::UnsupportedFormat { format }),
        cuda_format(format) matches Ok(info) ==> {
            &&& info.bytes_per_pixel == info.num_channels * channel_bytes(info.array_format)
            &&& info.bytes_per_pixel == format.pixel_bytes()
            &&& info.srgb <==> format is Rgba8UnormSrgb
            &&& info.array_format is UnormInt8X1 ==> info.num_channels == 1
            &&& info.array_format is UnormInt8X2 ==> info.num_channels == 2
            &&& info.array_format is UnormInt8X4 ==> info.num_channels == 4
        },
{
}

/// Samplers that read alike have one object, and others have others: the settings of a
/// sampler can be told from its key, along each axis by itself.
pub proof fn sampler_key_tells_the_sampler(a: SamplerDesc, b: SamplerDesc)
    requires
        a.compare is None && b.compare is None,
        a.mag_filter == a.min_filter,
        b.mag_filter == b.min_filter,
    ensures
        sampler_key(a) == sampler_key(b) <==> a == b,
        sampler_key(a).address_u is Clamp <==> a.address_mode_u is ClampToEdge,
        sampler_key(a).address_u is Wrap <==> a.address_mode_u is Repeat,
        sampler_key(a).address_v is Clamp <==> a.address_mode_v is ClampToEdge,
        sampler_key(a).address_v is Wrap <==> a.address_mode_v is Repeat,
        sampler_key(a).address_w is Clamp <==> a.address_mode_w is ClampToEdge,
        sampler_key(a).address_w is Wrap <==> a.address_mode_w is Repeat,
        sampler_key(a).filter is Linear <==> a.mag_filter is Linear,
        sampler_key(a).mip_filter is Linear <==> a.mipmap_filter is Linear,
        sampler_key(a).max_anisotropy == a.max_anisotropy,
        sampler_key(a).lod_min_bits == a.lod_min_bits,
        sampler_key(a).lod_max_bits == a.lod_max_bits,
{
}

/// An object under a sampler reads as the sampler says along each axis, with normalized
/// coordinates, and converts exactly where its format is sRGB.
pub proof fn object_reads_as_its_sampler(desc: SamplerDesc, srgb: bool)
    ensures
        ({
            let key = sampler_key(desc);
            let object = object_settings(key, srgb);
            &&& object.address_u == key.address_u
            &&& object.address_v == key.address_v
            &&& object.address_w == key.address_w
            &&& object.filter == key.filter
            &&& object.mip_filter == key.mip_filter
            &&& object.max_anisotropy == desc.max_anisotropy
            &&& object.lod_min_bits == desc.lod_min_bits
            &&& object.lod_max_bits == desc.lod_max_bits
            &&& object.flags & TRSF_NORMALIZED_COORDINATES != 0
            &&& object.flags & TRSF_SRGB != 0 <==> srgb
        }),
{
    assert(18u32 & 2u32 != 0 && 18u32 & 16u32 != 0 && 2u32 & 2u32 != 0 && 2u32 & 16u32 == 0)
        by (bit_vector);
}

} // verus!
