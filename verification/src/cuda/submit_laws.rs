//! What a submission waits for, writes, captures and launches, and in which order.

use vstd::prelude::*;

use super::execute::{ExecEnv, ExecError, SyncPoint};
use super::ops::{has_indirect, relaunches, CudaLaunchSegment, CudaOp, CudaOpSegment};
use super::submit::{
    all_fit, capture_segment, capture_segments, islands_before, placed, prefix_steps, ready_events,
    relaunch_segments, uploads,
    write_fits, BufferPlace, DeferredHostWrite, MaterializedHostWrite, Prefix, WorkerStep,
};

verus! {

broadcast use vstd::std_specs::hash::group_hash_axioms;

/// A deferred write that has been placed writes the bytes that were put off, as many as
/// there are, at its own offset from the first byte of its buffer.
pub proof fn placed_write_keeps_its_place(
    places: Map<u64, BufferPlace>,
    write: DeferredHostWrite,
    buffer_byte: int,
    memory_byte: int,
)
    requires
        places[write.buffer].base_offset + write.offset <= u64::MAX,
    ensures
        ({
            let out = placed(places, write);
            &&& out.memory == places[write.buffer].memory
            &&& out.payload == write.payload
            &&& memory_byte == places[write.buffer].base_offset + buffer_byte ==> (out.abs_offset
                <= memory_byte < out.abs_offset + out.len <==> write.offset <= buffer_byte
                < write.offset + write.len)
        }),
{
}

/// A write stays in its memory.
pub open spec fn stays(env: ExecEnv, write: MaterializedHostWrite) -> bool {
    write.abs_offset + write.len <= env.memory@[write.memory].len
}

proof fn lemma_uploads(env: ExecEnv, writes: Seq<MaterializedHostWrite>, k: int)
    requires
        forall|i: int| 0 <= i < writes.len() ==> stays(env, #[trigger] writes[i]),
        forall|i: int|
            0 <= i < writes.len() ==> env.memory@.contains_key((#[trigger] writes[i]).memory),
    ensures
        all_fit(env, writes),
        uploads(env, writes).len() == 2 * writes.len(),
        0 <= k < writes.len() ==> uploads(env, writes)[2 * k] == (WorkerStep::Upload {
            write: writes[k],
        }) && uploads(env, writes)[2 * k + 1] == (WorkerStep::Validate {
            point: SyncPoint::DeferredHostWrite,
        }),
    decreases writes.len(),
{
    if writes.len() > 0 {
        let rest = writes.drop_last();
        assert forall|i: int| 0 <= i < rest.len() implies stays(env, #[trigger] rest[i])
            && env.memory@.contains_key(rest[i].memory) by {
            assert(rest[i] == writes[i]);
        }
        lemma_uploads(env, rest, k);
        assert(stays(env, writes[writes.len() - 1]));
        assert forall|i: int| 0 <= i < writes.len() implies write_fits(env, #[trigger] writes[i]) by {
            assert(stays(env, writes[i]));
        }
    }
}

/// Before its body a submission waits on the host for each of its events; then it makes
/// each of its deferred writes; then its stream waits for each of its events, and for each
/// of its fence values: all in the order they were given in, and nothing else.
pub proof fn prefix_does_everything_in_order(env: ExecEnv, prefix: Prefix, k: int)
    requires
        forall|i: int|
            0 <= i < prefix.deferred_writes@.len() ==> stays(
                env,
                #[trigger] prefix.deferred_writes@[i],
            ),
        forall|i: int|
            0 <= i < prefix.deferred_writes@.len() ==> env.memory@.contains_key(
                (#[trigger] prefix.deferred_writes@[i]).memory,
            ),
    ensures
        ({
            let steps = prefix_steps(env, prefix);
            let h = prefix.host_waits@.len();
            let w = prefix.deferred_writes@.len();
            let s = prefix.stream_waits@.len();
            let f = prefix.fence_waits@.len();
            &&& steps.len() == h + 2 * w + s + f
            &&& 0 <= k < h ==> steps[k] == (WorkerStep::HostWait { event: prefix.host_waits@[k] })
            &&& 0 <= k < w ==> steps[h + 2 * k] == (WorkerStep::Upload {
                write: prefix.deferred_writes@[k],
            })
            &&& 0 <= k < s ==> steps[h + 2 * w + k] == (WorkerStep::StreamWait {
                event: prefix.stream_waits@[k],
            })
            &&& 0 <= k < f ==> steps[h + 2 * w + s + k] == (WorkerStep::FenceWait {
                value: prefix.fence_waits@[k],
            })
        }),
{
    let writes = prefix.deferred_writes@;
    lemma_uploads(env, writes, k);
    let h = prefix.host_waits@.len();
    let steps = prefix_steps(env, prefix);
    if 0 <= k < writes.len() {
        assert(steps[h + 2 * k] == uploads(env, writes)[2 * k]);
    }
}

/// A deferred write that leaves its memory fails the submission: the writes before it are
/// made, the failure is the last step, and no wait of the stream follows.
pub proof fn stray_write_ends_the_prefix(env: ExecEnv, prefix: Prefix, n: int)
    requires
        0 <= n < prefix.deferred_writes@.len(),
        forall|i: int|
            0 <= i < n ==> stays(env, #[trigger] prefix.deferred_writes@[i]),
        !stays(env, prefix.deferred_writes@[n]),
        forall|i: int|
            0 <= i < prefix.deferred_writes@.len() ==> env.memory@.contains_key(
                (#[trigger] prefix.deferred_writes@[i]).memory,
            ),
    ensures
        ({
            let steps = prefix_steps(env, prefix);
            &&& steps.len() == prefix.host_waits@.len() + 2 * n + 1
            &&& steps.last() == (WorkerStep::Fail { error: ExecError::DeferredWriteOutOfBounds })
        }),
{
    let writes = prefix.deferred_writes@;
    lemma_stray(env, writes, n);
    assert(!write_fits(env, writes[n]));
}

proof fn lemma_stray(env: ExecEnv, writes: Seq<MaterializedHostWrite>, n: int)
    requires
        0 <= n < writes.len(),
        forall|i: int| 0 <= i < n ==> stays(env, #[trigger] writes[i]),
        !stays(env, writes[n]),
        forall|i: int|
            0 <= i < writes.len() ==> env.memory@.contains_key((#[trigger] writes[i]).memory),
    ensures
        !all_fit(env, writes),
        uploads(env, writes).len() == 2 * n + 1,
        uploads(env, writes).last() == (WorkerStep::Fail {
            error: ExecError::DeferredWriteOutOfBounds,
        }),
    decreases writes.len(),
{
    let rest = writes.drop_last();
    assert forall|i: int| 0 <= i < rest.len() implies env.memory@.contains_key(
        (#[trigger] rest[i]).memory,
    ) by {
        assert(rest[i] == writes[i]);
    }
    assert(!write_fits(env, writes[n]));
    assert forall|i: int| 0 <= i < n implies stays(env, #[trigger] rest[i]) by {
        assert(rest[i] == writes[i]);
    }
    if n == writes.len() - 1 {
        lemma_uploads(env, rest, 0);
    } else {
        assert(rest[n] == writes[n]);
        lemma_stray(env, rest, n);
    }
}

/// The stream waits for the event of each memory that has one, and for no other event.
pub proof fn every_pending_memory_is_waited_for(
    ready: Map<u64, u64>,
    memories: Seq<u64>,
    event: u64,
)
    ensures
        ready_events(ready, memories).contains(event) <==> exists|i: int|
            {
                &&& 0 <= i < memories.len()
                &&& ready.contains_key(#[trigger] memories[i])
                &&& ready[memories[i]] == event
            },
    decreases memories.len(),
{
    if memories.len() > 0 {
        let rest = memories.drop_last();
        let before = ready_events(ready, rest);
        let all = ready_events(ready, memories);
        every_pending_memory_is_waited_for(ready, rest, event);
        if before.contains(event) {
            let k = choose|k: int| 0 <= k < before.len() && before[k] == event;
            assert(all[k] == event);
            let i = choose|i: int|
                {
                    &&& 0 <= i < rest.len()
                    &&& ready.contains_key(#[trigger] rest[i])
                    &&& ready[rest[i]] == event
                };
            assert(memories[i] == rest[i]);
        }
        if ready.contains_key(memories.last()) && ready[memories.last()] == event {
            assert(all[all.len() - 1] == event);
            assert(memories[memories.len() - 1] == memories.last());
        }
        if all.contains(event) && !before.contains(event) {
            let k = choose|k: int| 0 <= k < all.len() && all[k] == event;
            if k < before.len() {
                assert(before[k] == event);
            }
            assert(memories[memories.len() - 1] == memories.last());
        }
        if exists|i: int|
            {
                &&& 0 <= i < memories.len()
                &&& ready.contains_key(#[trigger] memories[i])
                &&& ready[memories[i]] == event
            } {
            let i = choose|i: int|
                {
                    &&& 0 <= i < memories.len()
                    &&& ready.contains_key(#[trigger] memories[i])
                    &&& ready[memories[i]] == event
                };
            if i < rest.len() {
                assert(rest[i] == memories[i]);
            }
        }
    }
}

/// An operation launches with a grid that is read from memory.
pub open spec fn launches_indirectly(ops: Seq<CudaOp>) -> bool {
    exists|i: int| 0 <= i < ops.len() && #[trigger] ops[i] is LaunchIndirect
}

/// A submission that captures handles each of its segments after those before it. A graph
/// segment is primed, captured, uploaded where it has indirect launches, launched once and
/// kept; a stream segment is executed where it has operations.
pub proof fn segment_is_captured_and_launched_once(segments: Seq<CudaOpSegment>, i: int)
    requires
        0 <= i < segments.len() <= usize::MAX,
    ensures
        ({
            let all = capture_segments(segments);
            let from = capture_segments(segments.take(i)).len() as int;
            let to = capture_segments(segments.take(i + 1)).len() as int;
            &&& 0 <= from <= to <= all.len()
            &&& i == segments.len() - 1 ==> to == all.len()
            &&& segments[i] matches CudaOpSegment::Graph(ops) ==> {
                let u: int = if launches_indirectly(ops@) {
                    1
                } else {
                    0
                };
                &&& to == from + 7 + u
                &&& all[from] == (WorkerStep::Prime { segment: i as usize })
                &&& all[from + 1] == (WorkerStep::Capture { segment: i as usize })
                &&& all[from + 2] == WorkerStep::CountCapture
                &&& u == 1 ==> all[from + 3] == WorkerStep::UploadGraph
                &&& all[from + 3 + u] == WorkerStep::LaunchCaptured
                &&& all[from + 4 + u] == WorkerStep::CountLaunch
                &&& all[from + 5 + u] is Validate
                &&& all[from + 6 + u] == (WorkerStep::KeepIsland { segment: i as usize })
            }
            &&& segments[i] matches CudaOpSegment::Stream(ops) ==> if ops@.len() == 0 {
                to == from
            } else {
                to == from + 1 && all[from] == (WorkerStep::ExecuteOps { segment: i as usize })
            }
        }),
    decreases segments.len(),
{
    let all = capture_segments(segments);
    let rest = segments.drop_last();
    let own = capture_segment(segments.last(), (segments.len() - 1) as usize);
    let part = capture_segments(rest);
    assert(all == part + own);
    if i == segments.len() - 1 {
        assert(segments.take(i) =~= rest);
        assert(segments.take(i + 1) =~= segments);
        if segments[i] is Graph {
            let ops = segments[i]->Graph_0@;
            assert(has_indirect(ops) == launches_indirectly(ops));
        }
    } else {
        segment_is_captured_and_launched_once(rest, i);
        assert(rest.take(i) =~= segments.take(i));
        assert(rest.take(i + 1) =~= segments.take(i + 1));
        assert(rest[i] == segments[i]);
    }
}

/// How many islands steps have kept.
pub open spec fn kept(steps: Seq<WorkerStep>) -> int
    decreases steps.len(),
{
    if steps.len() == 0 {
        0
    } else {
        kept(steps.drop_last()) + if steps.last() is KeepIsland {
            1int
        } else {
            0
        }
    }
}

proof fn lemma_kept_of_both(a: Seq<WorkerStep>, b: Seq<WorkerStep>)
    ensures
        kept(a + b) == kept(a) + kept(b),
    decreases b.len(),
{
    if b.len() == 0 {
        assert(a + b =~= a);
    } else {
        lemma_kept_of_both(a, b.drop_last());
        assert((a + b).drop_last() =~= a + b.drop_last());
    }
}

proof fn lemma_none_kept(steps: Seq<WorkerStep>)
    requires
        forall|i: int| 0 <= i < steps.len() ==> !(#[trigger] steps[i] is KeepIsland),
    ensures
        kept(steps) == 0,
    decreases steps.len(),
{
    if steps.len() > 0 {
        assert(!(steps[steps.len() - 1] is KeepIsland));
        assert forall|i: int| 0 <= i < steps.drop_last().len() implies !(
        #[trigger] steps.drop_last()[i] is KeepIsland) by {
            assert(steps.drop_last()[i] == steps[i]);
        }
        lemma_none_kept(steps.drop_last());
    }
}

proof fn lemma_segment_keeps(segment: CudaOpSegment, index: usize)
    ensures
        kept(capture_segment(segment, index)) == if segment is Graph {
            1int
        } else {
            0
        },
{
    let steps = capture_segment(segment, index);
    if segment is Graph {
        lemma_none_kept(steps.drop_last());
    } else {
        lemma_none_kept(steps);
    }
}

proof fn lemma_islands(segments: Seq<CudaOpSegment>, launch: Seq<CudaLaunchSegment>)
    requires
        launch.len() == segments.len(),
        forall|i: int| 0 <= i < segments.len() ==> relaunches(#[trigger] launch[i], segments[i]),
    ensures
        islands_before(launch) == kept(capture_segments(segments)),
    decreases segments.len(),
{
    if segments.len() > 0 {
        let n = segments.len() - 1;
        assert forall|i: int| 0 <= i < n implies relaunches(
            #[trigger] launch.drop_last()[i],
            segments.drop_last()[i],
        ) by {
            assert(launch.drop_last()[i] == launch[i]);
        }
        lemma_islands(segments.drop_last(), launch.drop_last());
        assert(relaunches(launch[n], segments[n]));
        lemma_segment_keeps(segments.last(), n as usize);
        lemma_kept_of_both(
            capture_segments(segments.drop_last()),
            capture_segment(segments.last(), n as usize),
        );
    }
}

/// When a program is launched again, each graph segment launches the island that was kept
/// for it: the one before which as many were kept as were kept for the segments before it.
/// A stream segment is executed again where it has operations.
pub proof fn relaunch_launches_the_kept_island(
    segments: Seq<CudaOpSegment>,
    launch: Seq<CudaLaunchSegment>,
    i: int,
)
    requires
        launch.len() == segments.len(),
        forall|k: int| 0 <= k < segments.len() ==> relaunches(#[trigger] launch[k], segments[k]),
        0 <= i < segments.len() <= usize::MAX,
    ensures
        ({
            let all = relaunch_segments(launch);
            let from = relaunch_segments(launch.take(i)).len() as int;
            let to = relaunch_segments(launch.take(i + 1)).len() as int;
            &&& 0 <= from <= to <= all.len()
            &&& i == segments.len() - 1 ==> to == all.len()
            &&& segments[i] is Graph ==> {
                &&& to == from + 3
                &&& all[from] matches WorkerStep::LaunchIsland { island } && island == kept(
                    capture_segments(segments.take(i)),
                )
                &&& all[from + 1] == WorkerStep::CountLaunch
                &&& all[from + 2] is Validate
            }
            &&& segments[i] matches CudaOpSegment::Stream(ops) ==> if ops@.len() == 0 {
                to == from
            } else {
                to == from + 1 && all[from] == (WorkerStep::ExecuteOps { segment: i as usize })
            }
        }),
    decreases segments.len(),
{
    let all = relaunch_segments(launch);
    let rest = launch.drop_last();
    let part = relaunch_segments(rest);
    assert forall|k: int| 0 <= k < rest.len() implies relaunches(
        #[trigger] rest[k],
        segments.drop_last()[k],
    ) by {
        assert(rest[k] == launch[k]);
    }
    assert(relaunches(launch[i], segments[i]));
    if i == launch.len() - 1 {
        lemma_islands(segments.drop_last(), rest);
        assert(launch.take(i) =~= rest);
        assert(segments.take(i) =~= segments.drop_last());
        assert(launch.take(i + 1) =~= launch);
        lemma_islands_bound(rest);
    } else {
        relaunch_launches_the_kept_island(segments.drop_last(), rest, i);
        assert(rest.take(i) =~= launch.take(i));
        assert(rest.take(i + 1) =~= launch.take(i + 1));
        assert(segments.drop_last().take(i) =~= segments.take(i));
    }
}

proof fn lemma_islands_bound(launch: Seq<CudaLaunchSegment>)
    ensures
        islands_before(launch) <= launch.len(),
    decreases launch.len(),
{
    if launch.len() > 0 {
        lemma_islands_bound(launch.drop_last());
    }
}

} // verus!
