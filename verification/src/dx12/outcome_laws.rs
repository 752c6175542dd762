//! What a submission and a wait leave behind.

use vstd::prelude::*;

use super::backend::{wait_finished, BackendError, Dx12Backend, FinishedWait};
use super::buffer_io::{chunk_count, chunk_width, fitting_upload, upload_chunk, UPLOAD_CHUNK_SIZE};
use super::commands::{RenderBinding, ResourceCategory};
use super::context::{covers_device, ContextFence, PendingDeletion, SubmissionContext};
use super::deletion::drain_splits_the_queue;
use super::device::without_trailing_zeros;
use super::finish::{finish_outcome, with_released, Finished, SubmitFinish};
use super::frame_table::{ContextFrameTable, FrameTableError};
use super::frame_table_init::{at_index, lower_error, offsets_of, NoBindlessOffset};
use super::types::BufferState;

verus! {

broadcast use vstd::std_specs::hash::group_hash_axioms;

proof fn lemma_filtered(values: Seq<u64>, keep: spec_fn(u64) -> bool, v: u64)
    ensures
        values.filter(keep).contains(v) <==> values.contains(v) && keep(v),
    decreases values.len(),
{
    reveal(Seq::filter);
    if values.len() > 0 {
        let rest = values.drop_last();
        lemma_filtered(rest, keep, v);
        assert(values =~= rest.push(values.last()));
        if rest.contains(v) {
            let k = choose|k: int| 0 <= k < rest.len() && rest[k] == v;
            assert(values[k] == v);
        }
        if values.contains(v) && v != values.last() {
            let k = choose|k: int| 0 <= k < values.len() && values[k] == v;
            assert(rest[k] == v);
        }
        let kept = rest.filter(keep);
        if keep(values.last()) {
            assert(values.filter(keep) == kept.push(values.last()));
            if kept.contains(v) {
                let k = choose|k: int| 0 <= k < kept.len() && kept[k] == v;
                assert(kept.push(values.last())[k] == v);
            }
            assert(kept.push(values.last())[kept.len() as int] == values.last());
            if kept.push(values.last()).contains(v) && v != values.last() {
                let k = choose|k: int|
                    0 <= k < kept.push(values.last()).len() && kept.push(values.last())[k] == v;
                assert(kept[k] == v);
            }
            assert(values[values.len() - 1] == values.last());
        }
    }
}

/// A submission that is noted is the last one of its context, to everyone who asks; one
/// that is refused leaves the fence where it was. It is refused exactly where it would
/// keep the row it staged while another retained list still holds that row.
pub proof fn finished_submission_is_the_last(
    context0: SubmissionContext,
    context1: SubmissionContext,
    table0: ContextFrameTable,
    table1: ContextFrameTable,
    fence0: ContextFence,
    fence1: ContextFence,
    submit: SubmitFinish,
    fence_value: u64,
    result: Result<Finished, FrameTableError>,
)
    requires
        finish_outcome(
            context0,
            context1,
            table0,
            table1,
            fence0,
            fence1,
            submit,
            fence_value,
            result,
        ),
    ensures
        result is Ok ==> context1.last_submitted_seq == fence_value && fence1.last_submitted_seq
            == fence_value,
        result is Err ==> fence1 == fence0 && context1.last_submitted_seq
            == context0.last_submitted_seq,
        fence1.completed == fence0.completed,
        context1.device == context0.device,
        submit.retain_key is None || !submit.staged || table0.submission_counter == 0
            || !table0.pinned(table0.active()) ==> result is Ok,
        submit.retain_key matches Some(key) ==> submit.staged && table0.submission_counter != 0
            && table0.pinned(table0.active()) ==> (result is Ok
            <==> context0.retained_graphs@.contains_key(key)
            && context0.retained_graphs@[key].frame_table_row == Some(table0.active())),
{
}

/// What waits for a context when a submission is noted, and the argument buffers of the
/// submission itself, is released where its value has passed and waits on where it has
/// not; nothing else is released. So are the timestamps of its submissions read once each
/// has retired, and those of a profiled submission wait for it.
pub proof fn submission_releases_what_has_retired(
    context0: SubmissionContext,
    context1: SubmissionContext,
    table0: ContextFrameTable,
    table1: ContextFrameTable,
    fence0: ContextFence,
    fence1: ContextFence,
    submit: SubmitFinish,
    fence_value: u64,
    result: Result<Finished, FrameTableError>,
    i: int,
    buffer: int,
    profile: u64,
)
    requires
        finish_outcome(
            context0,
            context1,
            table0,
            table1,
            fence0,
            fence1,
            submit,
            fence_value,
            result,
        ),
        result is Ok,
    ensures
        0 <= i < context0.deletion_queue@.len() ==> if context0.deletion_queue@[i].0
            <= fence0.completed {
            result->Ok_0.released@.contains(context0.deletion_queue@[i].1)
        } else {
            context1.deletion_queue@.contains(context0.deletion_queue@[i])
        },
        0 <= buffer < submit.argument_buffers@.len() ==> if fence_value <= fence0.completed {
            result->Ok_0.released@.contains(
                PendingDeletion::StandaloneResource(submit.argument_buffers@[buffer]),
            )
        } else {
            context1.deletion_queue@.contains(
                (fence_value, PendingDeletion::StandaloneResource(submit.argument_buffers@[buffer])),
            )
        },
        0 <= i < context1.deletion_queue@.len() ==> context1.deletion_queue@[i].0
            > fence0.completed,
        result->Ok_0.released@.len() + context1.deletion_queue@.len()
            == context0.deletion_queue@.len() + submit.argument_buffers@.len(),
        result->Ok_0.profiles@.contains(profile) <==> context0.pending_gpu_profiles@.contains(
            profile,
        ) && profile <= fence0.completed,
        context1.pending_gpu_profiles@.contains(profile) <==> (
        context0.pending_gpu_profiles@.contains(profile) && profile > fence0.completed) || (
        submit.profiled && profile == fence_value),
{
    let queue = with_released(context0.deletion_queue@, fence_value, submit.argument_buffers@);
    let old_len = context0.deletion_queue@.len() as int;
    drain_splits_the_queue(queue, fence0.completed);
    if 0 <= i < old_len {
        assert(queue[i] == context0.deletion_queue@[i]);
    }
    if 0 <= buffer < submit.argument_buffers@.len() {
        assert(queue[old_len + buffer] == (
            fence_value,
            PendingDeletion::StandaloneResource(submit.argument_buffers@[buffer]),
        ));
    }
    let done = |p: u64| p <= fence0.completed;
    let open = |p: u64| p > fence0.completed;
    let before = context0.pending_gpu_profiles@;
    lemma_filtered(before, done, profile);
    lemma_filtered(before, open, profile);
    let kept = before.filter(open);
    let after = context1.pending_gpu_profiles@;
    if submit.profiled {
        assert(after == kept.push(fence_value));
        assert(after[kept.len() as int] == fence_value);
        if kept.contains(profile) {
            let k = choose|k: int| 0 <= k < kept.len() && kept[k] == profile;
            assert(after[k] == profile);
        }
        if after.contains(profile) && profile != fence_value {
            let k = choose|k: int| 0 <= k < after.len() && after[k] == profile;
            assert(kept[k] == profile);
        }
    }
}

/// A wait of a live context releases exactly what waited for values that the context has
/// reached, and lets go of the device's resources no further than both the value waited
/// for and what has retired; the other contexts are not touched.
pub proof fn wait_releases_what_the_context_reached(
    before: Dx12Backend,
    after: Dx12Backend,
    context: u64,
    value: u64,
    completed: u64,
    retired: u64,
    result: Result<Option<FinishedWait>, BackendError>,
    i: int,
    other: u64,
)
    requires
        wait_finished(before, after, context, value, completed, retired, result),
        before.contexts.contexts@.contains_key(context),
        before.contexts.fences@.contains_key(context),
        completed != u64::MAX,
        before.devices@.contains_key(before.contexts.contexts@[context].device),
    ensures
        ({
            let queue = before.contexts.contexts@[context].deletion_queue@;
            let left = after.contexts.contexts@[context].deletion_queue@;
            &&& result matches Ok(Some(wait))
            &&& 0 <= i < queue.len() ==> if queue[i].0 <= completed {
                wait.released@.contains(queue[i].1)
            } else {
                left.contains(queue[i])
            }
            &&& wait.released@.len() + left.len() == queue.len()
            &&& wait.device_up_to <= value
            &&& wait.device_up_to <= retired
            &&& wait.device_up_to == value || wait.device_up_to == retired
        }),
        other != context && before.contexts.contexts@.contains_key(other)
            ==> after.contexts.contexts@.contains_key(other) && after.contexts.contexts@[other]
            == before.contexts.contexts@[other],
        after.contexts.contexts@[context].last_submitted_seq
            == before.contexts.contexts@[context].last_submitted_seq,
        after.device_removed == before.device_removed,
{
    drain_splits_the_queue(before.contexts.contexts@[context].deletion_queue@, completed);
    if other != context && before.contexts.contexts@.contains_key(other) {
        assert(after.contexts.contexts@.dom().contains(other));
    }
}

/// A wait fails, and releases nothing, exactly where the context has no fence or its fence
/// says that the device is gone; only the latter marks the device as removed.
pub proof fn wait_fails_where_the_device_is_gone(
    before: Dx12Backend,
    after: Dx12Backend,
    context: u64,
    value: u64,
    completed: u64,
    retired: u64,
    result: Result<Option<FinishedWait>, BackendError>,
)
    requires
        wait_finished(before, after, context, value, completed, retired, result),
    ensures
        result is Err <==> !before.contexts.fences@.contains_key(context) || completed == u64::MAX,
        result is Err ==> after.contexts == before.contexts,
        result matches Err(e) ==> (e == BackendError::DeviceRemoved
            <==> before.contexts.fences@.contains_key(context)),
        after.device_removed <==> before.device_removed || (
        before.contexts.fences@.contains_key(context) && completed == u64::MAX),
{
}

/// A resource that no context is known to use is free once every context of its device
/// has reached what it had submitted; contexts of other devices do not matter.
pub proof fn unattributed_resource_waits_for_every_context(
    fences: Map<u64, ContextFence>,
    device: u64,
    requirements: Seq<(u64, u64)>,
    context: u64,
)
    requires
        covers_device(fences, device, requirements),
    ensures
        fences.contains_key(context) && fences[context].device == device ==> exists|i: int|
            0 <= i < requirements.len() && #[trigger] requirements[i] == (
                context,
                fences[context].last_submitted_seq,
            ),
        forall|i: int|
            0 <= i < requirements.len() ==> fences.contains_key((#[trigger] requirements[i]).0)
                && fences[requirements[i].0].device == device,
{
    let named = requirements.map_values(|r: (u64, u64)| r.0);
    if fences.contains_key(context) && fences[context].device == device {
        assert(named.to_set().contains(context));
        let i = choose|i: int| 0 <= i < named.len() && named[i] == context;
        assert(requirements[i].0 == context);
        assert(requirements[i] == (context, fences[context].last_submitted_seq));
    }
    assert forall|i: int| 0 <= i < requirements.len() implies fences.contains_key(
        (#[trigger] requirements[i]).0,
    ) && fences[requirements[i].0].device == device by {
        assert(named[i] == requirements[i].0);
        assert(named.to_set().contains(requirements[i].0));
    }
}

/// An upload buffer is used again only where it holds the largest chunk of the write, and
/// always then; no chunk is larger than that width, and only the last one is smaller.
pub proof fn upload_buffer_is_used_where_it_fits(
    b: BufferState,
    offset: int,
    len: u64,
    fence_value: int,
    i: int,
)
    requires
        0 <= i < chunk_count(len as int),
        0 <= offset,
        offset + len <= u64::MAX,
        0 <= fence_value,
        fence_value + 2 * chunk_count(len as int) <= u64::MAX,
    ensures
        fitting_upload(b, chunk_width(len)) == b.upload_buffer || fitting_upload(
            b,
            chunk_width(len),
        ) is None,
        b.upload_buffer is Some ==> (fitting_upload(b, chunk_width(len)) is Some
            <==> b.upload_width >= upload_chunk(offset, len as int, fence_value, 0).size),
        upload_chunk(offset, len as int, fence_value, i).size <= chunk_width(len),
        upload_chunk(offset, len as int, fence_value, i).size > 0,
        i + 1 < chunk_count(len as int) ==> upload_chunk(offset, len as int, fence_value, i).size
            == UPLOAD_CHUNK_SIZE,
        upload_chunk(offset, len as int, fence_value, 0).size == chunk_width(len),
        chunk_width(len) <= len,
        chunk_width(len) <= UPLOAD_CHUNK_SIZE,
{
    let last = upload_chunk(offset, len as int, fence_value, i);
    assert(i * UPLOAD_CHUNK_SIZE < len);
}

/// A pass of its own can be lowered exactly where each of its binds names buffers that
/// have a place among the bindless descriptors, and is refused for the first that does not.
pub proof fn pass_is_lowered_where_its_buffers_have_places(
    buffers: Map<u64, BufferState>,
    commands: Seq<RenderBinding>,
)
    ensures
        lower_error(buffers, commands) is None <==> forall|i: int|
            0 <= i < commands.len() ==> (#[trigger] commands[i] matches RenderBinding::BindResources {
                buffers: handles,
            } ==> offsets_of(buffers, handles@) is Ok),
        lower_error(buffers, commands) matches Some(e) ==> exists|i: int|
            0 <= i < commands.len() && (#[trigger] commands[i] matches RenderBinding::BindResources {
                buffers: handles,
            } && offsets_of(buffers, handles@) == Err::<Seq<u32>, NoBindlessOffset>(e))
                && lower_error(buffers, commands.take(i)) is None,
    decreases commands.len(),
{
    if commands.len() > 0 {
        let rest = commands.drop_last();
        pass_is_lowered_where_its_buffers_have_places(buffers, rest);
        assert(forall|i: int| 0 <= i < rest.len() ==> #[trigger] rest[i] == commands[i]);
        if lower_error(buffers, rest) is Some {
            let e = lower_error(buffers, rest)->0;
            let i = choose|i: int|
                0 <= i < rest.len() && (#[trigger] rest[i] matches RenderBinding::BindResources {
                    buffers: handles,
                } && offsets_of(buffers, handles@) == Err::<Seq<u32>, NoBindlessOffset>(e))
                    && lower_error(buffers, rest.take(i)) is None;
            assert(commands[i] == rest[i]);
            assert(commands.take(i) =~= rest.take(i));
        } else {
            let last = commands.len() - 1;
            assert(commands.take(last) =~= rest);
            assert(commands[last] == commands.last());
            assert forall|i: int| 0 <= i < commands.len() && lower_error(buffers, commands) is None
                implies (#[trigger] commands[i] matches RenderBinding::BindResources {
                buffers: handles,
            } ==> offsets_of(buffers, handles@) is Ok) by {
                if i < last {
                    assert(rest[i] == commands[i]);
                }
            }
        }
    }
}

/// A buffer is found by every index that names one of its descriptors on its own device,
/// under the category its descriptors are read by, and by no other index.
pub proof fn buffer_is_found_by_its_descriptors(b: BufferState, device: u64, index: u32)
    ensures
        b.is_storage && b.bindless_offset == Some(index) ==> at_index(
            b,
            b.device_handle,
            index,
            ResourceCategory::Scattered,
        ),
        b.is_storage && b.bindless_srv_offset == Some(index) ==> at_index(
            b,
            b.device_handle,
            index,
            ResourceCategory::Scattered,
        ),
        !b.is_storage && b.bindless_offset == Some(index) ==> at_index(
            b,
            b.device_handle,
            index,
            ResourceCategory::Broadcast,
        ),
        forall|category: ResourceCategory| #[trigger]
            at_index(b, device, index, category) ==> device == b.device_handle && (
            b.bindless_offset == Some(index) || (b.is_storage && b.bindless_srv_offset == Some(
                index,
            ))) && b.is_storage == (category == ResourceCategory::Scattered) && (
            category == ResourceCategory::Scattered || category == ResourceCategory::Broadcast),
{
}

/// The name of an adapter is its description up to the zeros that fill it, and ends in
/// none of them.
pub proof fn name_ends_where_the_filling_begins(units: Seq<u16>, i: int)
    ensures
        without_trailing_zeros(units).len() <= units.len(),
        0 <= i < without_trailing_zeros(units).len() ==> without_trailing_zeros(units)[i]
            == units[i],
        without_trailing_zeros(units).len() <= i < units.len() ==> units[i] == 0,
        without_trailing_zeros(units).len() > 0 ==> without_trailing_zeros(units).last() != 0,
    decreases units.len(),
{
    if units.len() > 0 && units.last() == 0 {
        name_ends_where_the_filling_begins(units.drop_last(), i);
    }
}

} // verus!
