//! How raster passes go on, and what their formats and shaders are told as.

use vstd::prelude::*;

use super::present::FrameToken;
use super::raster::{
    d3d12_topology, vertex_dxgi, PrimitiveTopology, RasterError, VertexFormat,
    DXGI_FORMAT_R32G32B32A32_FLOAT, DXGI_FORMAT_R32G32B32_FLOAT, DXGI_FORMAT_R32G32_FLOAT,
    DXGI_FORMAT_R32_FLOAT, DXGI_FORMAT_R32_SINT, DXGI_FORMAT_R32_UINT, DXGI_FORMAT_R8G8B8A8_UINT,
    DXGI_FORMAT_R8G8B8A8_UNORM,
};
use super::raster_backing::{
    needs_backing, RasterBuffer, RefreshBegun, SharedBacking,
};
use super::raster_pass::RasterScene;
use super::raster_record::finish_pass;
use super::raster_run::{PassAction, PassEvent, PassPhase, PassRun, RasterPass};
use super::raster_shader::reported_or;
use super::surface::{CudaSurfaceState, PresentListCache, SharedScratch, SurfaceError};
use super::surface_flow::{begin_present, PresentInputs, PresentStart, ScratchStart};
use super::surface_table::SurfaceTables;
use super::texture::{drop_space, is_space, skip_space, trimmed, CudaTexture};
use super::timeline::EventLedger;

verus! {

broadcast use vstd::std_specs::hash::group_hash_axioms;

/// How many values a vertex format holds.
pub open spec fn values_of(format: VertexFormat) -> int {
    match format {
        VertexFormat::Float32 => 1,
        VertexFormat::Float32x2 => 2,
        VertexFormat::Float32x3 => 3,
        VertexFormat::Float32x4 => 4,
        VertexFormat::Uint32 => 1,
        VertexFormat::Sint32 => 1,
        VertexFormat::Uint8x4 => 4,
        VertexFormat::Unorm8x4 => 4,
    }
}

/// How many channels a DXGI format has.
pub open spec fn channels_of(dxgi: u32) -> int {
    if dxgi == DXGI_FORMAT_R32G32_FLOAT {
        2
    } else if dxgi == DXGI_FORMAT_R32G32B32_FLOAT {
        3
    } else if dxgi == DXGI_FORMAT_R32G32B32A32_FLOAT || dxgi == DXGI_FORMAT_R8G8B8A8_UINT || dxgi
        == DXGI_FORMAT_R8G8B8A8_UNORM {
        4
    } else {
        1
    }
}

/// A vertex attribute is told to the companion with as many channels as it has values;
/// whole numbers stay whole, signed ones signed, and no two formats are told alike.
pub proof fn attributes_keep_their_values(format: VertexFormat, other: VertexFormat)
    ensures
        channels_of(vertex_dxgi(format)) == values_of(format),
        vertex_dxgi(format) == vertex_dxgi(other) ==> format == other,
        format is Uint32 ==> vertex_dxgi(format) == DXGI_FORMAT_R32_UINT,
        format is Sint32 ==> vertex_dxgi(format) == DXGI_FORMAT_R32_SINT,
        format is Float32 ==> vertex_dxgi(format) == DXGI_FORMAT_R32_FLOAT,
        format is Uint8x4 ==> vertex_dxgi(format) == DXGI_FORMAT_R8G8B8A8_UINT,
{
}

/// No two topologies are told alike, and strips come right after the lists they are made
/// of.
pub proof fn topologies_are_told_apart(a: PrimitiveTopology, b: PrimitiveTopology)
    ensures
        d3d12_topology(a) == d3d12_topology(b) ==> a == b,
        a is LineList && b is LineStrip ==> d3d12_topology(b) == d3d12_topology(a) + 1,
        a is TriangleList && b is TriangleStrip ==> d3d12_topology(b) == d3d12_topology(a) + 1,
        a is PointList && b is LineList ==> d3d12_topology(b) == d3d12_topology(a) + 1,
        a is LineStrip && b is TriangleList ==> d3d12_topology(b) == d3d12_topology(a) + 1,
{
}

/// What the compiler reported is kept; what it did not report is taken from the source.
pub proof fn reports_come_before_the_source<T>(reported: Seq<T>, of_source: Seq<T>)
    ensures
        reported.len() > 0 ==> reported_or(reported, of_source) == reported,
        reported.len() == 0 ==> reported_or(reported, of_source) == of_source,
{
}

proof fn lemma_skipped(s: Seq<char>, i: int)
    requires
        0 <= i <= s.len(),
    ensures
        i <= skip_space(s, i) <= s.len(),
        forall|k: int| i <= k < skip_space(s, i) ==> is_space(#[trigger] s[k]),
        skip_space(s, i) < s.len() ==> !is_space(s[skip_space(s, i)]),
    decreases s.len() - i,
{
    if i < s.len() && is_space(s[i]) {
        lemma_skipped(s, i + 1);
    }
}

proof fn lemma_dropped(s: Seq<char>, j: int)
    requires
        0 <= j <= s.len(),
    ensures
        0 <= drop_space(s, j) <= j,
        forall|k: int| drop_space(s, j) <= k < j ==> is_space(#[trigger] s[k]),
        drop_space(s, j) > 0 ==> !is_space(s[drop_space(s, j) - 1]),
    decreases j,
{
    if 0 < j && is_space(s[j - 1]) {
        lemma_dropped(s, j - 1);
    }
}

/// A trimmed text begins and ends with something that is no white space, and nothing but
/// white space was taken off either end.
pub proof fn trimming_takes_white_space_off(s: Seq<char>) -> (from: int)
    ensures
        0 <= from,
        from + trimmed(s).len() <= s.len(),
        trimmed(s) == s.subrange(from, (from + trimmed(s).len()) as int),
        forall|k: int| 0 <= k < from ==> is_space(#[trigger] s[k]),
        forall|k: int| from + trimmed(s).len() <= k < s.len() ==> is_space(#[trigger] s[k]),
        trimmed(s).len() > 0 ==> !is_space(trimmed(s)[0]) && !is_space(trimmed(s).last()),
{
    let a = skip_space(s, 0);
    let b = drop_space(s, s.len() as int);
    lemma_skipped(s, 0);
    lemma_dropped(s, s.len() as int);
    if a <= b {
        assert(trimmed(s) =~= s.subrange(a, b));
        if a < b {
            assert(s.subrange(a, b)[0] == s[a]);
            assert(s.subrange(a, b).last() == s[b - 1]);
        }
        a
    } else {
        assert(trimmed(s) =~= s.subrange(s.len() as int, s.len() as int));
        s.len() as int
    }
}

/// A pass asks for what its phase is about: the requirement or the buffer whose turn it is,
/// the value that its buffers were made ready under, the list that it was recorded for.
pub proof fn pass_asks_for_what_is_next(run: &PassRun, action: PassAction)
    requires
        call_ensures(PassRun::action, (run,), action),
    ensures
        action matches PassAction::Ensure { requirement } ==> (run.phase matches PassPhase::Ensure {
            next,
        } && requirement == run.requirements@[next as int]),
        action matches PassAction::Refresh { buffer } ==> (run.phase matches PassPhase::Refresh {
            next,
        } && buffer == run.handles@[next as int]),
        action matches PassAction::WaitQueue { value } ==> value == run.wait,
        action matches PassAction::Reuse { fingerprint } ==> fingerprint == run.fingerprint
            && run.phase is Reuse,
        action matches PassAction::Record { fingerprint } ==> fingerprint == run.fingerprint
            && run.phase is Record,
        action matches PassAction::Finished { signal } ==> run.phase == (PassPhase::Over { signal }),
        action is SyncTwins <==> run.phase is SyncTwins,
        action is SyncAllocStream <==> run.phase is SyncAllocStream,
{
}

/// A pass that was submitted, or whose list ran again, is over with its signal, and its
/// target waits for that; any other event leaves the scene alone.
pub proof fn reported_pass_is_over_with_its_signal(
    run: &mut PassRun,
    scene: &mut RasterScene,
    event: PassEvent,
    result: Result<(), RasterError>,
)
    requires
        call_ensures(PassRun::report, (run, scene, event), result),
    ensures
        event matches PassEvent::Submitted { signal } ==> {
            let target = old(run).pass.target;
            &&& result is Ok
            &&& final(run).phase == (PassPhase::Over { signal })
            &&& final(scene).render_targets@[target].last_dx12_fence == signal
            &&& final(scene).list_cache@.contains_key(target)
            &&& final(scene).list_cache@[target] == old(run).fingerprint
        },
        event matches PassEvent::Reused { again: Some(signal) } ==> {
            let target = old(run).pass.target;
            &&& result is Ok
            &&& final(run).phase == (PassPhase::Over { signal })
            &&& final(scene).render_targets@[target].last_dx12_fence == signal
            &&& final(scene).list_cache@ == old(scene).list_cache@
        },
        event is Performed || event is Refreshed ==> *final(scene) == *old(scene),
        final(run).pass == old(run).pass,
{
}

/// A pass starts exactly where its target is known on its device, the device is known and
/// has a companion, as far as nothing of the pass itself is refused.
pub proof fn pass_starts_on_the_device_of_its_target(
    scene: &RasterScene,
    pass: RasterPass,
    device_known: bool,
    companion: bool,
    run: Result<PassRun, RasterError>,
)
    requires
        call_ensures(PassRun::start, (scene, pass, device_known, companion), run),
    ensures
        run matches Ok(r) ==> r.pass == pass && scene.render_targets@.contains_key(pass.target)
            && scene.render_targets@[pass.target].device == pass.device && device_known && companion,
        !scene.render_targets@.contains_key(pass.target) ==> run is Err && run->Err_0
            == RasterError::InvalidRenderTarget,
        scene.render_targets@.contains_key(pass.target) && scene.render_targets@[pass.target].device
            != pass.device ==> run is Err && run->Err_0 == RasterError::TargetOnOtherDevice,
{
}

/// Making a buffer ready puts a new twin in place exactly where one was missing; the twin
/// then has none of the contents.
pub proof fn begun_refresh_has_its_twin(
    buffer: &mut RasterBuffer,
    created: &Option<SharedBacking>,
    begun: Result<RefreshBegun, RasterError>,
)
    requires
        call_ensures(RasterBuffer::begin_refresh, (buffer, created), begun),
    ensures
        needs_backing(*old(buffer)) ==> final(buffer).shared == *created && final(buffer).shared_epoch
            == u64::MAX,
        !needs_backing(*old(buffer)) ==> final(buffer).shared_epoch == old(buffer).shared_epoch,
        !needs_backing(*old(buffer)) ==> (begun matches Ok(b) ==> b.wait_old is None),
        final(buffer).size == old(buffer).size,
        final(buffer).content_epoch == old(buffer).content_epoch,
        final(buffer).memory_base == old(buffer).memory_base,
{
}

/// A list that is recorded anew gets a generation of its own for its slot, and no other
/// slot does.
pub proof fn recorded_list_has_a_new_generation(
    state: &mut CudaSurfaceState,
    slot: usize,
    entry: &PresentListCache,
    updated: PresentListCache,
    i: int,
)
    requires
        call_ensures(CudaSurfaceState::begin_recording, (state, slot, entry), updated),
        slot < old(state).cmd_generation@.len(),
        0 <= i < old(state).cmd_generation@.len(),
    ensures
        final(state).cmd_generation@[slot as int] == updated.slot_generation,
        updated.slot_generation != old(state).cmd_generation@[slot as int],
        i != slot ==> final(state).cmd_generation@[i] == old(state).cmd_generation@[i],
        updated.color_src == entry.color_src,
        updated.backbuffer == entry.backbuffer,
        updated.image_index == entry.image_index,
{
}

/// Scratch that is given to an image is that image's alone, over the texture that is found
/// under its slot; no list recorded before is used again.
pub proof fn given_scratch_is_that_of_its_image(
    tables: &mut SurfaceTables,
    surface: u64,
    image: usize,
    shared: SharedScratch,
    storage_slot: u32,
    texture: CudaTexture,
    handle: u64,
    i: int,
    other: u64,
)
    requires
        call_ensures(
            SurfaceTables::finish_scratch,
            (tables, surface, image, shared, storage_slot, texture),
            handle,
        ),
        image < old(tables).surfaces@[surface].scratch@.len(),
        0 <= i < old(tables).surfaces@[surface].scratch@.len(),
    ensures
        ({
            let before = old(tables).surfaces@[surface];
            let after = final(tables).surfaces@[surface];
            &&& after.scratch@[image as int] matches Some(slot)
            &&& slot.texture_handle == handle
            &&& slot.shared == shared
            &&& slot.present_source is None
            &&& i != image ==> after.scratch@[i] == before.scratch@[i]
            &&& after.present_generation != before.present_generation
        }),
        final(tables).textures@.contains_key(handle),
        final(tables).textures@[handle] == texture,
        final(tables).texture_slots@.contains_key(storage_slot),
        final(tables).texture_slots@[storage_slot] == handle,
        other != surface && old(tables).surfaces@.contains_key(other)
            ==> final(tables).surfaces@.contains_key(other) && final(tables).surfaces@[other]
            == old(tables).surfaces@[other],
{
}

/// A present that begins takes the source of its own image, which the image no longer has
/// then; another surface is not touched.
pub proof fn begun_present_takes_its_source(
    tables: &mut SurfaceTables,
    ledger: &EventLedger,
    frame: &FrameToken,
    submit_tv: u64,
    inputs: &PresentInputs,
    start: Result<PresentStart, SurfaceError>,
    other: u64,
)
    requires
        call_ensures(begin_present, (tables, ledger, frame, submit_tv, inputs), start),
    ensures
        start matches Ok(s) ==> {
            let before = old(tables).surfaces@[frame.surface];
            let after = final(tables).surfaces@[frame.surface];
            &&& old(tables).surfaces@.contains_key(frame.surface)
            &&& frame.image < before.scratch@.len()
            &&& before.scratch@[frame.image as int] is Some
            &&& s.source == before.scratch@[frame.image as int]->0.present_source
            &&& after.scratch@[frame.image as int] is Some
            &&& after.scratch@[frame.image as int]->0.present_source is None
            &&& after.current_texture_handle is None
            &&& inputs.companion == Some(s.companion)
        },
        other != frame.surface && old(tables).surfaces@.contains_key(other)
            ==> final(tables).surfaces@.contains_key(other) && final(tables).surfaces@[other]
            == old(tables).surfaces@[other],
{
}

/// A pass that is finished leaves its signal on its target alone, guards each buffer that it
/// read by it, and remembers a newly recorded list.
pub proof fn finished_pass_is_noted(
    scene: &mut RasterScene,
    target: u64,
    handles: &Vec<u64>,
    signal: u64,
    fingerprint: Option<u64>,
    buffer: u64,
    other: u64,
)
    requires
        call_ensures(finish_pass, (scene, target, handles, signal, fingerprint), ()),
        old(scene).render_targets@.contains_key(target),
    ensures
        final(scene).render_targets@[target].last_dx12_fence == signal,
        final(scene).render_targets@[target].resource == old(scene).render_targets@[target].resource,
        other != target && old(scene).render_targets@.contains_key(other)
            ==> final(scene).render_targets@.contains_key(other)
            && final(scene).render_targets@[other] == old(scene).render_targets@[other],
        old(scene).buffers@.contains_key(buffer) && handles@.contains(buffer)
            && old(scene).buffers@[buffer].shared is Some ==> final(scene).buffers@[buffer].shared
            is Some && final(scene).buffers@[buffer].shared->0.last_dx12_ia_fence >= signal,
        old(scene).buffers@.contains_key(buffer) && !handles@.contains(buffer)
            ==> final(scene).buffers@[buffer] == old(scene).buffers@[buffer],
        fingerprint matches Some(f) ==> final(scene).list_cache@.contains_key(target)
            && final(scene).list_cache@[target] == f,
        fingerprint is None ==> final(scene).list_cache@ == old(scene).list_cache@,
{
}

/// The image that was acquired is noted for its own surface alone.
pub proof fn acquired_image_is_noted_for_its_surface(
    tables: &mut SurfaceTables,
    surface: u64,
    image: u32,
    result: Result<(), SurfaceError>,
    other: u64,
)
    requires
        call_ensures(SurfaceTables::acquire_image, (tables, surface, image), result),
    ensures
        result is Ok <==> old(tables).surfaces@.contains_key(surface),
        result is Ok ==> final(tables).surfaces@[surface].current_image_index == Some(image),
        other != surface && old(tables).surfaces@.contains_key(other)
            ==> final(tables).surfaces@.contains_key(other) && final(tables).surfaces@[other]
            == old(tables).surfaces@[other],
{
}

/// Scratch of the right size is ready with its own texture, missing scratch has to be made,
/// and scratch of another size is replaced: the image has none then, and its texture is
/// forgotten.
pub proof fn begun_scratch_is_ready_where_it_fits(
    tables: &mut SurfaceTables,
    surface: u64,
    image: usize,
    completed: u64,
    start: Result<ScratchStart, SurfaceError>,
    other: u64,
)
    requires
        call_ensures(SurfaceTables::begin_scratch, (tables, surface, image, completed), start),
        old(tables).surfaces@.contains_key(surface),
        image < old(tables).surfaces@[surface].scratch@.len(),
    ensures
        ({
            let state = old(tables).surfaces@[surface];
            let after = final(tables).surfaces@[surface];
            &&& start is Ok
            &&& start->Ok_0 is Missing <==> state.scratch@[image as int] is None
            &&& state.scratch@[image as int] matches Some(slot) ==> {
                let fits = slot.shared.width == state.width && slot.shared.height == state.height;
                &&& fits ==> start->Ok_0 == (ScratchStart::Ready { texture: slot.texture_handle })
                &&& fits ==> after.scratch@[image as int] == Some(slot)
                &&& !fits ==> start->Ok_0 is Replaced && start->Ok_0->retire_at
                    >= slot.dx12_complete
                &&& !fits ==> after.scratch@[image as int] is None
                &&& !fits ==> !final(tables).textures@.contains_key(slot.texture_handle)
            }
        }),
        other != surface && old(tables).surfaces@.contains_key(other)
            ==> final(tables).surfaces@.contains_key(other) && final(tables).surfaces@[other]
            == old(tables).surfaces@[other],
{
    let state = old(tables).surfaces@[surface];
    if state.scratch@[image as int] is Some {
        let slot = state.scratch@[image as int]->0;
        if !(slot.shared.width == state.width && slot.shared.height == state.height) {
            let handles = seq![slot.texture_handle];
            assert(handles.last() == slot.texture_handle);
        }
    }
}

} // verus!
