//! Bookkeeping of submissions: allocator slots, retained command lists, deferred
//! releases and timeline values once a list has been handed to the queue.

use vstd::prelude::*;

use super::context::{
    pins_match, released_pool, rows_in_table, slot_released, AllocatorSlot, ContextFence,
    DeferredSlot, PendingDeletion, RetainedGraph, SubmissionContext,
};
use super::deletion::{outstanding, reached};
use super::frame_table::{
    reserve_step, ContextFrameTable, FrameTableError, RowReservation, ROW_IN_USE,
};
use super::submit::{first_reusable, slot_reusable, with_slot};

verus! {

broadcast use vstd::std_specs::hash::group_hash_axioms;

/// What a recorded list hands to its submission.
pub struct SubmitFinish {
    pub slot_idx: usize,
    /// Keep the list under this key to be executed again.
    pub retain_key: Option<u64>,
    pub used_slots: Vec<DeferredSlot>,
    /// The list copies a frame-table row.
    pub staged: bool,
    /// Resources to release once the submission has retired.
    pub argument_buffers: Vec<u64>,
    /// The list carries timestamps to read back.
    pub profiled: bool,
}

/// The queue with resources that wait for a submission.
pub open spec fn with_released(
    queue: Seq<(u64, PendingDeletion)>,
    fence_value: u64,
    resources: Seq<u64>,
) -> Seq<(u64, PendingDeletion)> {
    queue + resources.map_values(
        |r: u64| (fence_value, PendingDeletion::StandaloneResource(r)),
    )
}

/// The pool with a slot stamped with the timeline value of its submission.
pub open spec fn stamped(pool: Seq<AllocatorSlot>, idx: int, fence_value: u64) -> Seq<AllocatorSlot> {
    if 0 <= idx < pool.len() {
        pool.update(idx, AllocatorSlot { fence_value, ..pool[idx] })
    } else {
        pool
    }
}

/// The frame-table row that a retained list keeps.
pub open spec fn row_to_keep(staged: bool, table: ContextFrameTable) -> Option<u32> {
    if staged && table.submission_counter != 0 {
        Some(table.active())
    } else {
        None
    }
}

/// The profiles whose submission has not retired.
pub open spec fn unread_profiles(profiles: Seq<u64>, completed: u64) -> Seq<u64> {
    profiles.filter(|p: u64| p > completed)
}

/// The pool and the retained lists after a submission, where it is retained.
pub open spec fn retained_pool(
    pool: Seq<AllocatorSlot>,
    retained: Map<u64, RetainedGraph>,
    key: u64,
    slot_idx: int,
) -> Seq<AllocatorSlot> {
    let freed = released_pool(pool, retained, set![key]);
    if slot_idx < freed.len() && freed[slot_idx].command_list is Some {
        freed.update(slot_idx, AllocatorSlot { retained: true, ..freed[slot_idx] })
    } else {
        freed
    }
}

fn stamp_slot(pool: &mut Vec<AllocatorSlot>, idx: usize, fence_value: u64)
    ensures
        final(pool)@ == stamped(old(pool)@, idx as int, fence_value),
{
    if idx < pool.len() {
        let slot = pool[idx];
        pool.set(idx, AllocatorSlot { fence_value, ..slot });
    }
}

/// Takes out the timeline values of the profiles whose submission has retired.
pub fn drain_profiles(profiles: &mut Vec<u64>, completed: u64) -> (ready: Vec<u64>)
    ensures
        final(profiles)@ == unread_profiles(old(profiles)@, completed),
        ready@ == old(profiles)@.filter(|p: u64| p <= completed),
{
    let mut kept: Vec<u64> = Vec::new();
    let mut ready: Vec<u64> = Vec::new();
    let ghost all = profiles@;
    let ghost late = |p: u64| p > completed;
    let ghost due = |p: u64| p <= completed;
    let mut i: usize = 0;
    assert(all.take(0) =~= Seq::<u64>::empty());
    reveal(Seq::filter);
    while i < profiles.len()
        invariant
            i <= profiles.len(),
            profiles@ == all,
            late == (|p: u64| p > completed),
            due == (|p: u64| p <= completed),
            kept@ == all.take(i as int).filter(late),
            ready@ == all.take(i as int).filter(due),
        decreases profiles.len() - i,
    {
        reveal(Seq::filter);
        assert(all.take(i + 1).drop_last() =~= all.take(i as int));
        let p: u64 = profiles[i];
        if p > completed {
            kept.push(p);
        } else {
            ready.push(p);
        }
        i += 1;
    }
    assert(all.take(i as int) =~= all);
    *profiles = kept;
    ready
}

/// A context after what waited for it was released up to a value.
pub open spec fn drained_context(
    before: SubmissionContext,
    after: SubmissionContext,
    completed: u64,
) -> bool {
    &&& after.device == before.device
    &&& after.compute_allocator_pool == before.compute_allocator_pool
    &&& after.retained_graphs == before.retained_graphs
    &&& after.last_submitted_seq == before.last_submitted_seq
    &&& after.deletion_queue@ == outstanding(before.deletion_queue@, completed)
    &&& after.pending_gpu_profiles@ == unread_profiles(before.pending_gpu_profiles@, completed)
}

impl SubmissionContext {
    /// Takes out what waited for the context up to a value.
    pub fn drain_context_deletion_queue_up_to(&mut self, completed: u64) -> (finished: Finished)
        ensures
            drained_context(*old(self), *final(self), completed),
            finished.released@ == reached(old(self).deletion_queue@, completed),
            finished.profiles@ == old(self).pending_gpu_profiles@.filter(|p: u64| p <= completed),
    {
        let released = self.deletion_queue.drain_up_to_completed(completed);
        let profiles = drain_profiles(&mut self.pending_gpu_profiles, completed);
        Finished { released, profiles }
    }
}

/// What a submission releases.
pub struct Finished {
    pub released: Vec<PendingDeletion>,
    /// Submissions whose timestamps can be read back.
    pub profiles: Vec<u64>,
}

/// The context after the fence value, the retained list and the queue were
/// updated, and before anything was drained.
pub open spec fn submitted(
    before: SubmissionContext,
    after: SubmissionContext,
    table: ContextFrameTable,
    submit: SubmitFinish,
    fence_value: u64,
) -> bool {
    let pool = stamped(before.compute_allocator_pool@, submit.slot_idx as int, fence_value);
    let retained = before.retained_graphs@;
    match submit.retain_key {
        None => after.compute_allocator_pool@ == pool && after.retained_graphs@ == retained,
        Some(key) => {
            &&& after.compute_allocator_pool@ == retained_pool(
                pool,
                retained,
                key,
                submit.slot_idx as int,
            )
            &&& if submit.slot_idx < pool.len() && pool[submit.slot_idx as int].command_list is Some {
                after.retained_graphs@ == retained.insert(
                    key,
                    RetainedGraph {
                        command_list: pool[submit.slot_idx as int].command_list->0,
                        slot_idx: submit.slot_idx,
                        used_slots: submit.used_slots,
                        frame_table_row: row_to_keep(submit.staged, table),
                        on_device_queue: false,
                    },
                )
            } else {
                after.retained_graphs@ == retained.remove(key)
            }
        },
    }
}

/// A row is pinned once the list retained under a key is gone.
pub open spec fn pinned_without(
    retained: Map<u64, RetainedGraph>,
    table: ContextFrameTable,
    key: u64,
    row: u32,
) -> bool {
    table.pinned(row) && !(retained.contains_key(key) && retained[key].frame_table_row == Some(row))
}

/// The submission keeps a row that another retained list holds.
pub open spec fn row_conflict(
    retained: Map<u64, RetainedGraph>,
    table: ContextFrameTable,
    submit: SubmitFinish,
) -> bool {
    submit.retain_key matches Some(key) && row_to_keep(submit.staged, table) matches Some(row)
        && pinned_without(retained, table, key, row)
}

/// What noting a submission comes to: everything but the tokens of the frame table.
pub open spec fn finish_outcome(
    context0: SubmissionContext,
    context1: SubmissionContext,
    table0: ContextFrameTable,
    table1: ContextFrameTable,
    fence0: ContextFence,
    fence1: ContextFence,
    submit: SubmitFinish,
    fence_value: u64,
    result: Result<Finished, FrameTableError>,
) -> bool {
    let retained = context0.retained_graphs@;
    let queue = with_released(context0.deletion_queue@, fence_value, submit.argument_buffers@);
    &&& context1.device == context0.device
    &&& fence1.device == fence0.device
    &&& fence1.completed == fence0.completed
    &&& table1.wf()
    &&& table1.same_resources(table0)
    &&& table1.submission_counter == table0.submission_counter
    &&& if row_conflict(retained, table0, submit) {
        &&& result == Err::<Finished, FrameTableError>(
            FrameTableError::AlreadyPinned { row: table0.active() },
        )
        &&& fence1 == fence0
        &&& context1.last_submitted_seq == context0.last_submitted_seq
        &&& context1.deletion_queue@ == queue
        &&& context1.pending_gpu_profiles == context0.pending_gpu_profiles
        &&& context1.retained_graphs@ == retained.remove(submit.retain_key->0)
        &&& context1.compute_allocator_pool@ == released_pool(
            stamped(context0.compute_allocator_pool@, submit.slot_idx as int, fence_value),
            retained,
            set![submit.retain_key->0],
        )
    } else {
        &&& result matches Ok(finished)
        &&& submitted(context0, context1, table0, submit, fence_value)
        &&& context1.last_submitted_seq == fence_value
        &&& fence1.last_submitted_seq == fence_value
        &&& context1.deletion_queue@ == outstanding(queue, fence0.completed)
        &&& finished.released@ == reached(queue, fence0.completed)
        &&& finished.profiles@ == context0.pending_gpu_profiles@.filter(
            |p: u64| p <= fence0.completed,
        )
        &&& context1.pending_gpu_profiles@ == if submit.profiled {
            unread_profiles(context0.pending_gpu_profiles@, fence0.completed).push(fence_value)
        } else {
            unread_profiles(context0.pending_gpu_profiles@, fence0.completed)
        }
    }
    &&& forall|r: u32|
        r < table0.layout.max_rows ==> (#[trigger] table1.pinned(r) <==> match submit.retain_key {
            None => table0.pinned(r),
            Some(key) => pinned_without(retained, table0, key, r) || row_to_keep(
                submit.staged,
                table0,
            ) == Some(r),
        })
}

/// Whether the submission keeps a row that another retained list holds. Such a
/// submission is refused before it reaches the queue.
pub fn keeps_pinned_row(
    context: &SubmissionContext,
    table: &ContextFrameTable,
    submit: &SubmitFinish,
) -> (conflict: bool)
    requires
        table.wf(),
    ensures
        conflict == row_conflict(context.retained_graphs@, *table, *submit),
{
    let row: Option<u32> = if submit.staged {
        table.last_prologue_row()
    } else {
        None
    };
    match (submit.retain_key, row) {
        (Some(key), Some(r)) => {
            let own: bool = match context.retained_graphs.get(&key) {
                Some(graph) => match graph.frame_table_row {
                    Some(held) => held == r,
                    None => false,
                },
                None => false,
            };
            table.is_pinned(r) && !own
        },
        _ => false,
    }
}

/// Notes a submission: its slot and its context take the timeline value, the list
/// is retained where a key is given (in place of the one retained under that key),
/// and whatever has retired by now is released. It is refused where the row it
/// keeps is pinned by another list.
pub fn execute_signal_and_finish(
    context: &mut SubmissionContext,
    table: &mut ContextFrameTable,
    fence: &mut ContextFence,
    submit: SubmitFinish,
    fence_value: u64,
) -> (result: Result<Finished, FrameTableError>)
    requires
        old(table).wf(),
        rows_in_table(old(context).retained_graphs@, *old(table)),
    ensures
        finish_outcome(
            *old(context),
            *final(context),
            *old(table),
            *final(table),
            *old(fence),
            *final(fence),
            submit,
            fence_value,
            result,
        ),
        final(table).tokens() == old(table).tokens(),
{
    let ghost context0 = *context;
    let ghost table0 = *table;
    let ghost retained = context.retained_graphs@;
    let SubmitFinish { slot_idx, retain_key, used_slots, staged, argument_buffers, profiled } =
        submit;
    let mut i: usize = 0;
    while i < argument_buffers.len()
        invariant
            i <= argument_buffers.len(),
            context.device == context0.device,
            context.compute_allocator_pool == context0.compute_allocator_pool,
            context.retained_graphs == context0.retained_graphs,
            context.last_submitted_seq == context0.last_submitted_seq,
            context.pending_gpu_profiles == context0.pending_gpu_profiles,
            context.deletion_queue@ == with_released(
                context0.deletion_queue@,
                fence_value,
                argument_buffers@.take(i as int),
            ),
        decreases argument_buffers.len() - i,
    {
        context.deletion_queue.queue(
            fence_value,
            PendingDeletion::StandaloneResource(argument_buffers[i]),
        );
        assert(context.deletion_queue@ =~= with_released(
            context0.deletion_queue@,
            fence_value,
            argument_buffers@.take(i + 1),
        ));
        i += 1;
    }
    assert(argument_buffers@.take(i as int) =~= argument_buffers@);
    let ghost queue = context.deletion_queue@;
    stamp_slot(&mut context.compute_allocator_pool, slot_idx, fence_value);
    let ghost pool = context.compute_allocator_pool@;
    match retain_key {
        Some(key) => {
            context.evict_retained(table, key);
            let ghost table1 = *table;
            let row: Option<u32> = if staged {
                table.last_prologue_row()
            } else {
                None
            };
            assert(row == row_to_keep(staged, table0));
            match row {
                Some(r) => {
                    assert(table1.pinned(r) == pinned_without(retained, table0, key, r));
                    match table.pin_row(r) {
                        Ok(_) => {},
                        Err(e) => {
                            return Err(e);
                        },
                    }
                },
                None => {},
            }
            if slot_idx < context.compute_allocator_pool.len() {
                let slot = context.compute_allocator_pool[slot_idx];
                match slot.command_list {
                    Some(command_list) => {
                        context.compute_allocator_pool.set(
                            slot_idx,
                            AllocatorSlot { retained: true, ..slot },
                        );
                        context.retained_graphs.insert(
                            key,
                            RetainedGraph {
                                command_list,
                                slot_idx,
                                used_slots,
                                frame_table_row: row,
                                on_device_queue: false,
                            },
                        );
                        assert(context.retained_graphs@ =~= retained.insert(
                            key,
                            context.retained_graphs@[key],
                        ));
                    },
                    None => {},
                }
            }
            assert(context.compute_allocator_pool@ =~= retained_pool(
                pool,
                retained,
                key,
                slot_idx as int,
            ));
        },
        None => {},
    }
    context.last_submitted_seq = fence_value;
    fence.last_submitted_seq = fence_value;
    let released = context.deletion_queue.drain_up_to_completed(fence.completed);
    let profiles = drain_profiles(&mut context.pending_gpu_profiles, fence.completed);
    if profiled {
        context.pending_gpu_profiles.push(fence_value);
    }
    Ok(Finished { released, profiles })
}

/// The tokens once a reservation has come to its end.
pub open spec fn recorded_tokens(tokens: Seq<u64>, row: Option<u32>, token: u64) -> Seq<u64> {
    match row {
        Some(r) => tokens.update(r as int, token),
        None => tokens,
    }
}

/// Notes a submission that was executed and signalled, and records it in the row that
/// it reserved: the row takes the timeline value, and is free again where the
/// submission is refused.
pub fn finish_with_reservation(
    context: &mut SubmissionContext,
    table: &mut ContextFrameTable,
    fence: &mut ContextFence,
    submit: SubmitFinish,
    fence_value: u64,
    reservation: RowReservation,
) -> (result: Result<Finished, FrameTableError>)
    requires
        old(table).wf(),
        rows_in_table(old(context).retained_graphs@, *old(table)),
        reservation.row matches Some(r) ==> r < old(table).layout.max_rows,
        fence_value != ROW_IN_USE,
    ensures
        finish_outcome(
            *old(context),
            *final(context),
            *old(table),
            *final(table),
            *old(fence),
            *final(fence),
            submit,
            fence_value,
            result,
        ),
        final(table).tokens() == recorded_tokens(
            old(table).tokens(),
            reservation.row,
            if result is Ok {
                fence_value
            } else {
                0
            },
        ),
{
    let ghost context0 = *context;
    let ghost table0 = *table;
    let ghost fence0 = *fence;
    let result = execute_signal_and_finish(context, table, fence, submit, fence_value);
    let ghost table1 = *table;
    match &result {
        Ok(_) => {
            reservation.commit(table, fence_value);
        },
        Err(_) => {
            reservation.abort(table);
        },
    }
    assert forall|r: u32| r < table0.layout.max_rows implies #[trigger] table.pinned(r) == table1.pinned(
        r,
    ) by {}
    result
}

/// A row that was claimed for a submission does not stay reserved, whether the
/// submission was noted, refused or given up: a refused one leaves the row free at
/// once, and a noted one as soon as the fence has reached its value. The rows of
/// other submissions keep their tokens.
pub proof fn no_row_stays_reserved(
    tokens: Seq<u64>,
    row: u32,
    fence_value: u64,
    completed: u64,
    other: u32,
)
    requires
        row < tokens.len(),
        fence_value != ROW_IN_USE,
    ensures
        reserve_step(recorded_tokens(tokens, Some(row), 0)[row as int], completed) is Claimed,
        reserve_step(recorded_tokens(tokens, Some(row), fence_value)[row as int], completed)
            is Claimed <==> fence_value <= completed,
        other != row && other < tokens.len() ==> recorded_tokens(
            tokens,
            Some(row),
            fence_value,
        )[other as int] == tokens[other as int] && recorded_tokens(
            tokens,
            Some(row),
            0,
        )[other as int] == tokens[other as int],
{
}

fn copy_slots(slots: &Vec<DeferredSlot>) -> (copy: Vec<DeferredSlot>)
    ensures
        copy@ == slots@,
{
    let mut copy: Vec<DeferredSlot> = Vec::new();
    let mut i: usize = 0;
    while i < slots.len()
        invariant
            i <= slots.len(),
            copy@ == slots@.take(i as int),
        decreases slots.len() - i,
    {
        copy.push(slots[i]);
        i += 1;
    }
    assert(slots@.take(i as int) =~= slots@);
    copy
}

/// A retained list on its way to the queue again.
pub struct Resubmission {
    pub command_list: u64,
    pub used_slots: Vec<DeferredSlot>,
    pub released: Vec<PendingDeletion>,
}

/// Notes that the list retained under a key is executed again under a new timeline
/// value. Where none is retained nothing happens.
pub fn try_resubmit_retained(
    context: &mut SubmissionContext,
    fence: &mut ContextFence,
    key: u64,
    fence_value: u64,
) -> (resubmission: Option<Resubmission>)
    ensures
        final(context).device == old(context).device,
        final(context).retained_graphs == old(context).retained_graphs,
        final(context).pending_gpu_profiles == old(context).pending_gpu_profiles,
        final(fence).device == old(fence).device,
        final(fence).completed == old(fence).completed,
        match resubmission {
            None => {
                &&& !old(context).retained_graphs@.contains_key(key)
                &&& *final(context) == *old(context)
                &&& *final(fence) == *old(fence)
            },
            Some(r) => {
                let graph = old(context).retained_graphs@[key];
                &&& old(context).retained_graphs@.contains_key(key)
                &&& r.command_list == graph.command_list
                &&& r.used_slots@ == graph.used_slots@
                &&& r.released@ == reached(old(context).deletion_queue@, old(fence).completed)
                &&& final(context).deletion_queue@ == outstanding(
                    old(context).deletion_queue@,
                    old(fence).completed,
                )
                &&& final(context).compute_allocator_pool@ == stamped(
                    old(context).compute_allocator_pool@,
                    graph.slot_idx as int,
                    fence_value,
                )
                &&& final(context).last_submitted_seq == fence_value
                &&& final(fence).last_submitted_seq == fence_value
            },
        },
{
    let found: Option<(u64, usize, Vec<DeferredSlot>)> = match context.retained_graphs.get(&key) {
        Some(graph) => Some((graph.command_list, graph.slot_idx, copy_slots(&graph.used_slots))),
        None => None,
    };
    match found {
        Some((command_list, slot_idx, used_slots)) => {
            stamp_slot(&mut context.compute_allocator_pool, slot_idx, fence_value);
            context.last_submitted_seq = fence_value;
            fence.last_submitted_seq = fence_value;
            let released = context.deletion_queue.drain_up_to_completed(fence.completed);
            Some(Resubmission { command_list, used_slots, released })
        },
        None => None,
    }
}

/// The slots of the retained lists are marked so, each belongs to one list, and it
/// holds that list.
pub open spec fn slots_match(
    pool: Seq<AllocatorSlot>,
    retained: Map<u64, RetainedGraph>,
) -> bool {
    &&& forall|k: u64| #[trigger]
        retained.contains_key(k) ==> retained[k].slot_idx < pool.len()
            && pool[retained[k].slot_idx as int].retained
            && pool[retained[k].slot_idx as int].command_list == Some(retained[k].command_list)
    &&& forall|k: u64, l: u64| #[trigger]
        retained.contains_key(k) && #[trigger] retained.contains_key(l) && k != l
            ==> retained[k].slot_idx != retained[l].slot_idx
}

/// A retained list is never recorded over: the slot chosen for a submission holds
/// none, and adopting it keeps the slots of the retained lists as they were.
pub proof fn chosen_slot_is_not_retained(
    pool: Seq<AllocatorSlot>,
    retained: Map<u64, RetainedGraph>,
    completed: u64,
    idx: int,
    allocator: u64,
    command_list: u64,
)
    requires
        slots_match(pool, retained),
        first_reusable(pool, completed, idx),
    ensures
        forall|k: u64| #[trigger] retained.contains_key(k) ==> retained[k].slot_idx != idx,
        slots_match(with_slot(pool, idx, allocator, command_list), retained),
{
    assert forall|k: u64| #[trigger] retained.contains_key(k) implies retained[k].slot_idx != idx by {
        if retained[k].slot_idx == idx {
            assert(slot_reusable(pool[idx], completed));
        }
    }
}

/// Dropping the list under a key keeps the other lists' slots theirs.
pub proof fn eviction_keeps_slots_matched(
    pool: Seq<AllocatorSlot>,
    retained: Map<u64, RetainedGraph>,
    key: u64,
)
    requires
        slots_match(pool, retained),
    ensures
        slots_match(released_pool(pool, retained, set![key]), retained.remove(key)),
{
    let after = released_pool(pool, retained, set![key]);
    assert forall|k: u64| #[trigger] retained.remove(key).contains_key(k) implies retained[k].slot_idx
        < after.len() && after[retained[k].slot_idx as int].retained
        && after[retained[k].slot_idx as int].command_list == Some(retained[k].command_list) by {
        assert(retained.contains_key(k));
        let i = retained[k].slot_idx as int;
        if slot_released(retained, set![key], i) {
            let l = choose|l: u64| #[trigger]
                set![key].contains(l) && retained.contains_key(l) && retained[l].slot_idx == i;
            assert(l == key && k != l);
        }
    }
    assert forall|k: u64, l: u64| #[trigger]
        retained.remove(key).contains_key(k) && #[trigger] retained.remove(key).contains_key(l) && k
            != l implies retained[k].slot_idx != retained[l].slot_idx by {
        assert(retained.contains_key(k) && retained.contains_key(l));
    }
}

/// A submission that was recorded into a slot of no other retained list keeps the
/// slots of the retained lists theirs.
pub proof fn submission_keeps_slots_matched(
    before: SubmissionContext,
    after: SubmissionContext,
    table: ContextFrameTable,
    submit: SubmitFinish,
    fence_value: u64,
)
    requires
        slots_match(before.compute_allocator_pool@, before.retained_graphs@),
        forall|k: u64| #[trigger]
            before.retained_graphs@.contains_key(k) ==> before.retained_graphs@[k].slot_idx
                != submit.slot_idx,
        submitted(before, after, table, submit, fence_value),
    ensures
        slots_match(after.compute_allocator_pool@, after.retained_graphs@),
{
    let pool = stamped(before.compute_allocator_pool@, submit.slot_idx as int, fence_value);
    let retained = before.retained_graphs@;
    assert(slots_match(pool, retained));
    if submit.retain_key is Some {
        let key = submit.retain_key->0;
        eviction_keeps_slots_matched(pool, retained, key);
        let freed = released_pool(pool, retained, set![key]);
        let rest = retained.remove(key);
        let end = after.compute_allocator_pool@;
        assert forall|k: u64| #[trigger] after.retained_graphs@.contains_key(k) implies after.retained_graphs@[k].slot_idx
            < end.len() && end[after.retained_graphs@[k].slot_idx as int].retained
            && end[after.retained_graphs@[k].slot_idx as int].command_list == Some(
            after.retained_graphs@[k].command_list,
        ) by {
            if k != key {
                assert(rest.contains_key(k));
                assert(retained.contains_key(k));
            }
        }
        assert forall|k: u64, l: u64| #[trigger]
            after.retained_graphs@.contains_key(k) && #[trigger] after.retained_graphs@.contains_key(
                l,
            ) && k != l implies after.retained_graphs@[k].slot_idx
            != after.retained_graphs@[l].slot_idx by {
            if k != key {
                assert(rest.contains_key(k));
                assert(retained.contains_key(k));
            }
            if l != key {
                assert(rest.contains_key(l));
                assert(retained.contains_key(l));
            }
        }
    }
}

/// A submission keeps the pins those of the retained lists, where its slot holds
/// the list that it retains.
pub proof fn submission_keeps_pins_matched(
    before: SubmissionContext,
    after: SubmissionContext,
    table: ContextFrameTable,
    table_after: ContextFrameTable,
    submit: SubmitFinish,
    fence_value: u64,
)
    requires
        pins_match(before.retained_graphs@, table),
        table.wf(),
        table_after.layout == table.layout,
        !row_conflict(before.retained_graphs@, table, submit),
        submitted(before, after, table, submit, fence_value),
        submit.slot_idx < before.compute_allocator_pool@.len(),
        before.compute_allocator_pool@[submit.slot_idx as int].command_list is Some,
        forall|r: u32|
            r < table.layout.max_rows ==> (#[trigger] table_after.pinned(r) <==> match submit.retain_key {
                None => table.pinned(r),
                Some(key) => pinned_without(before.retained_graphs@, table, key, r)
                    || row_to_keep(submit.staged, table) == Some(r),
            }),
    ensures
        pins_match(after.retained_graphs@, table_after),
{
    let retained = before.retained_graphs@;
    let now = after.retained_graphs@;
    if submit.retain_key is Some {
        let key = submit.retain_key->0;
        assert forall|r: u32| r < table_after.layout.max_rows && #[trigger] table_after.pinned(
            r,
        ) implies exists|k: u64| #[trigger] now.contains_key(k) && now[k].frame_table_row == Some(
            r,
        ) by {
            if row_to_keep(submit.staged, table) == Some(r) {
                assert(now.contains_key(key) && now[key].frame_table_row == Some(r));
            } else {
                let k = choose|k: u64| #[trigger]
                    retained.contains_key(k) && retained[k].frame_table_row == Some(r);
                assert(now.contains_key(k) && now[k].frame_table_row == Some(r));
            }
        }
        assert forall|k: u64| #[trigger] now.contains_key(k) implies (now[k].frame_table_row matches Some(
            r,
        ) ==> r < table_after.layout.max_rows && table_after.pinned(r)) by {
            if now[k].frame_table_row is Some {
                let r = now[k].frame_table_row->0;
                if k == key {
                    assert(r == table.active());
                } else {
                    assert(retained.contains_key(k));
                    assert(table.pinned(r));
                    if retained.contains_key(key) {
                        assert(retained[key].frame_table_row != Some(r));
                    }
                }
            }
        }
        assert forall|k: u64, l: u64| #[trigger]
            now.contains_key(k) && #[trigger] now.contains_key(l) && k != l
                && now[k].frame_table_row is Some implies now[k].frame_table_row
            != now[l].frame_table_row by {
            if k != key {
                assert(retained.contains_key(k));
            }
            if l != key {
                assert(retained.contains_key(l));
            }
            if k == key && now[l].frame_table_row == now[k].frame_table_row {
                let r = now[k].frame_table_row->0;
                assert(table.pinned(r));
                if retained.contains_key(key) {
                    assert(retained[key].frame_table_row != Some(r));
                }
                assert(pinned_without(retained, table, key, r));
            }
            if l == key && now[l].frame_table_row == now[k].frame_table_row {
                let r = now[l].frame_table_row->0;
                assert(table.pinned(r));
                if retained.contains_key(key) {
                    assert(retained[key].frame_table_row != Some(r));
                }
                assert(pinned_without(retained, table, key, r));
            }
        }
    } else {
        assert forall|k: u64| #[trigger] now.contains_key(k) implies (now[k].frame_table_row matches Some(
            r,
        ) ==> table_after.pinned(r)) by {}
    }
}

} // verus!
