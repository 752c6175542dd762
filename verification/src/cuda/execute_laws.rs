//! What executed operations come to: which kernels run with which grids, what is waited
//! for and signaled, and which operations are refused.

use vstd::bytes::spec_u32_from_le_bytes;
use vstd::prelude::*;

use super::execute::{
    indirect_launch, op_calls, resolved, run_ops, shape_grid, CudaCall, ExecEnv, ExecError,
    HostBytes,
};
use super::ops::{
    graph_safe, kernel_nodes, op_buffers, op_hosts, op_textures, updatable_nodes, CudaOp, Grid,
    IndirectShape, LaunchRecord,
};
use super::texture::{CopyEnd, CudaTexture, Region};

verus! {

broadcast use vstd::std_specs::hash::group_hash_axioms;

/// A block of a kernel runs: the kernel of a launch is started with a grid that has it.
pub open spec fn runs_block(calls: Seq<CudaCall>, launch: usize, x: int, y: int, z: int) -> bool {
    exists|i: int|
        0 <= i < calls.len() && (#[trigger] calls[i] matches CudaCall::LaunchKernel {
            launch: l,
            grid,
        } && l == launch && x < grid.x && y < grid.y && z < grid.z)
}

/// How many of the calls start a kernel.
pub open spec fn started(calls: Seq<CudaCall>) -> int
    decreases calls.len(),
{
    if calls.len() == 0 {
        0
    } else {
        started(calls.drop_last()) + if calls.last() is LaunchKernel || calls.last() is LaunchUpdater
            || calls.last() is LaunchResolved {
            1int
        } else {
            0
        }
    }
}

proof fn lemma_started_one(calls: Seq<CudaCall>)
    requires
        calls.len() == 1 || (calls.len() == 2 && calls[1] is Validate),
    ensures
        started(calls) == if calls[0] is LaunchKernel || calls[0] is LaunchUpdater
            || calls[0] is LaunchResolved {
            1int
        } else {
            0
        },
{
    reveal_with_fuel(started, 3);
    if calls.len() == 2 {
        assert(calls.drop_last() =~= seq![calls[0]]);
        assert(calls.drop_last().drop_last() =~= Seq::<CudaCall>::empty());
    } else {
        assert(calls.drop_last() =~= Seq::<CudaCall>::empty());
    }
}

/// A launch starts its kernel once, and block `(x, y, z)` runs exactly where each of its
/// numbers is below that of the grid that the launch was given.
pub proof fn launch_runs_the_blocks_of_its_grid(
    env: ExecEnv,
    launch: usize,
    grid: Grid,
    index: usize,
    validate: bool,
    x: int,
    y: int,
    z: int,
    other: usize,
)
    ensures
        ({
            let result = op_calls(env, CudaOp::Launch { launch, grid }, index, validate);
            &&& result is Ok
            &&& started(result->Ok_0) == 1
            &&& runs_block(result->Ok_0, launch, x, y, z) <==> x < grid.x && y < grid.y && z < grid.z
            &&& other != launch ==> !runs_block(result->Ok_0, other, x, y, z)
        }),
{
    let calls = op_calls(env, CudaOp::Launch { launch, grid }, index, validate)->Ok_0;
    lemma_started_one(calls);
    assert(calls[0] is LaunchKernel);
}

/// An indirect launch on a live stream reads twelve bytes from where its grid lies, and
/// starts the kernel of the operation itself with them; it is refused exactly where these
/// bytes leave the memory. While a graph is captured the updater of the launch is started,
/// with the shape of the launch, directly before the kernel.
pub proof fn indirect_launch_takes_its_own_grid(
    env: ExecEnv,
    launch: usize,
    shape: IndirectShape,
    index: usize,
)
    ensures
        ({
            let live = op_calls(env, CudaOp::LaunchIndirect { launch, shape }, index, true);
            &&& live is Ok <==> shape.abs_offset + 12 <= env.memory@[shape.memory].len
            &&& live matches Ok(calls) ==> {
                &&& calls.len() == 2
                &&& calls[0] matches CudaCall::ReadShape { memory, start } && memory == shape.memory
                    && start == shape.abs_offset
                &&& calls[1] matches CudaCall::LaunchResolved { op } && op == index
            }
        }),
        ({
            let captured = op_calls(env, CudaOp::LaunchIndirect { launch, shape }, index, false);
            &&& captured matches Ok(calls)
            &&& calls.len() == 2
            &&& calls[0] matches CudaCall::LaunchUpdater { shape: s } && s == shape
            &&& calls[1] matches CudaCall::LaunchKernel { launch: l, .. } && l == launch
        }),
{
}

/// The grid of an indirect launch is what its twelve bytes say, three words with the least
/// significant byte first, along x, y and z in this order. The kernel of the launch is then
/// started once with exactly these blocks where there are any and none of the numbers is
/// above what the device allows; nothing is started for an empty grid, and a grid that is
/// too large is reported with both grids.
pub proof fn resolved_launch_runs_the_blocks_that_were_read(
    launch: usize,
    bytes: Seq<u8>,
    max_grid: Grid,
    x: int,
    y: int,
    z: int,
)
    requires
        bytes.len() == 12,
        0 <= x,
        0 <= y,
        0 <= z,
    ensures
        ({
            let groups_x = spec_u32_from_le_bytes(bytes.subrange(0, 4));
            let groups_y = spec_u32_from_le_bytes(bytes.subrange(4, 8));
            let groups_z = spec_u32_from_le_bytes(bytes.subrange(8, 12));
            let empty = groups_x == 0 || groups_y == 0 || groups_z == 0;
            let fits = groups_x <= max_grid.x && groups_y <= max_grid.y && groups_z <= max_grid.z;
            let result = resolved(launch, indirect_launch(shape_grid(bytes), max_grid));
            &&& result is Ok <==> empty || fits
            &&& result matches Ok(calls) ==> (runs_block(calls, launch, x, y, z) <==> x < groups_x
                && y < groups_y && z < groups_z) && started(calls) == if empty {
                0int
            } else {
                1
            }
            &&& result matches Err(e) ==> (e matches ExecError::IndirectGridTooLarge {
                grid,
                max_grid: max,
            } && grid.x == groups_x && grid.y == groups_y && grid.z == groups_z && max == max_grid)
        }),
{
    let fate = indirect_launch(shape_grid(bytes), max_grid);
    let result = resolved(launch, fate);
    if result is Ok && !(fate is Nothing) {
        lemma_started_one(result->Ok_0);
        assert(result->Ok_0[0] is LaunchKernel);
    }
}

/// Waiting for and signaling a fence of another API names the value of the operation, and
/// does nothing else.
pub proof fn fence_operations_name_their_value(
    env: ExecEnv,
    value: u64,
    index: usize,
    validate: bool,
    i: int,
)
    ensures
        ({
            let waits = op_calls(env, CudaOp::WaitExternalFence { value }, index, validate);
            &&& waits matches Ok(calls)
            &&& calls.len() > 0 && calls[0] == (CudaCall::WaitFence { value })
            &&& 0 < i < calls.len() ==> calls[i] is Validate
        }),
        ({
            let signals = op_calls(env, CudaOp::SignalExternalFence { value }, index, validate);
            &&& signals matches Ok(calls)
            &&& calls.len() > 0 && calls[0] == (CudaCall::SignalFence { value })
            &&& 0 < i < calls.len() ==> calls[i] is Validate
        }),
{
}

/// The bytes of a range lie in a memory.
pub open spec fn lies_in(env: ExecEnv, memory: u64, first: u64, count: u64) -> bool {
    env.memory@.contains_key(memory) && first + count <= env.memory@[memory].len
}

/// A call touches only bytes that lie in the memory it names, and reads only staging that is
/// there.
pub open spec fn stays_inside(env: ExecEnv, call: CudaCall) -> bool {
    match call {
        CudaCall::ReadShape { memory, start } => lies_in(env, memory, start, 12),
        CudaCall::MemsetRange { memory, start, len } => lies_in(env, memory, start, len),
        CudaCall::Upload { memory, start, len, bytes } => lies_in(env, memory, start, len)
            && staged(env, bytes, len),
        CudaCall::UploadPtr { ptr, len, bytes } => staged(env, bytes, len),
        CudaCall::CopyRange { src, src_start, dst, dst_start, len } => lies_in(
            env,
            src,
            src_start,
            len,
        ) && lies_in(env, dst, dst_start, len),
        CudaCall::CopyViaScratch { memory, src_start, dst_start, len } => lies_in(
            env,
            memory,
            src_start,
            len,
        ) && lies_in(env, memory, dst_start, len),
        _ => true,
    }
}

/// Bytes that a copy takes from staging are there.
pub open spec fn staged(env: ExecEnv, bytes: HostBytes, taken: u64) -> bool {
    bytes matches HostBytes::Staging { host, offset, len } ==> offset + len <= env.hosts@[host]
        && taken <= len
}

/// No executed operation touches a byte outside the memory that it names.
pub proof fn executed_operations_stay_inside(
    env: ExecEnv,
    op: CudaOp,
    index: usize,
    validate: bool,
    i: int,
)
    requires
        super::execute::executable(env, op),
    ensures
        op_calls(env, op, index, validate) matches Ok(calls) ==> 0 <= i < calls.len()
            ==> stays_inside(env, calls[i]),
{
}

/// Operations on buffers are executed exactly where the bytes that they name lie in their
/// memory, and those of staging in the staging; a copy of no bytes always is. While a graph
/// is captured only the staging and inline writes are held against what is there. What is
/// refused is told by its own error.
pub proof fn buffer_operations_are_refused_exactly_outside(
    env: ExecEnv,
    memory: u64,
    abs_offset: u64,
    len: u64,
    device_ptr: u64,
    payload: usize,
    host: u64,
    host_offset: u64,
    src: u64,
    src_abs: u64,
    src_ptr: u64,
    index: usize,
    validate: bool,
)
    ensures
        ({
            let op = CudaOp::Clear { memory, abs_offset, size: len, device_ptr };
            let inside = !validate || abs_offset + len <= env.memory@[memory].len;
            &&& op_calls(env, op, index, validate) is Ok <==> inside
            &&& !inside ==> op_calls(env, op, index, validate)->Err_0 == ExecError::ClearOutOfBounds
        }),
        ({
            let op = CudaOp::Write { memory, abs_offset, payload, len };
            let inside = abs_offset + len <= env.memory@[memory].len;
            &&& op_calls(env, op, index, validate) is Ok <==> inside
            &&& !inside ==> op_calls(env, op, index, validate)->Err_0 == ExecError::WriteOutOfBounds
        }),
        ({
            let op = CudaOp::WriteFromHost {
                memory,
                abs_offset,
                device_ptr,
                host,
                host_offset,
                len,
            };
            let there = host_offset + len <= env.hosts@[host];
            let inside = !validate || abs_offset + len <= env.memory@[memory].len;
            &&& op_calls(env, op, index, validate) is Ok <==> there && inside
            &&& !there ==> op_calls(env, op, index, validate)->Err_0
                == ExecError::WriteFromHostExceedsStaging
            &&& there && !inside ==> op_calls(env, op, index, validate)->Err_0
                == ExecError::WriteFromHostOutOfBounds
        }),
        ({
            let op = CudaOp::Copy {
                src,
                src_abs,
                src_ptr,
                dst: memory,
                dst_abs: abs_offset,
                dst_ptr: device_ptr,
                size: len,
            };
            let from = !validate || len == 0 || src_abs + len <= env.memory@[src].len;
            let to = !validate || len == 0 || abs_offset + len <= env.memory@[memory].len;
            &&& op_calls(env, op, index, validate) is Ok <==> from && to
            &&& !from ==> op_calls(env, op, index, validate)->Err_0
                == ExecError::CopySourceOutOfBounds
            &&& from && !to ==> op_calls(env, op, index, validate)->Err_0
                == ExecError::CopyDestinationOutOfBounds
        }),
{
}

/// An upload into a region without pixels is refused.
pub proof fn empty_uploads_are_refused(
    env: ExecEnv,
    texture: CudaTexture,
    region: Region,
    payload: usize,
    host: u64,
    host_offset: u64,
    len: u64,
    src_row_pitch: u32,
    index: usize,
    validate: bool,
)
    requires
        region.width == 0 || region.height == 0,
    ensures
        op_calls(
            env,
            CudaOp::WriteTexture { texture, region, payload, len, src_row_pitch },
            index,
            validate,
        ) is Err,
        op_calls(
            env,
            CudaOp::WriteTextureFromHost {
                texture,
                region,
                host,
                host_offset,
                len,
                src_row_pitch,
            },
            index,
            validate,
        ) is Err,
{
}

/// The first operation that is refused ends the run: what was planned before it stays, and
/// its error is that of the run.
pub proof fn first_refused_operation_ends_the_run(
    env: ExecEnv,
    ops: Seq<CudaOp>,
    validate: bool,
    n: int,
)
    requires
        0 <= n < ops.len() <= usize::MAX,
        forall|i: int|
            0 <= i < n ==> op_calls(env, #[trigger] ops[i], i as usize, validate) is Ok,
        op_calls(env, ops[n], n as usize, validate) is Err,
    ensures
        run_ops(env, ops, validate).error == Some(
            op_calls(env, ops[n], n as usize, validate)->Err_0,
        ),
        run_ops(env, ops, validate).calls == run_ops(env, ops.take(n), validate).calls,
        run_ops(env, ops.take(n), validate).error is None,
    decreases ops.len(),
{
    lemma_runs_through(env, ops.take(n), validate);
    if ops.len() == n + 1 {
        assert(ops.drop_last() =~= ops.take(n));
    } else {
        assert(ops.drop_last().take(n) =~= ops.take(n));
        first_refused_operation_ends_the_run(env, ops.drop_last(), validate, n);
    }
}

/// Operations none of which is refused are all executed.
proof fn lemma_runs_through(env: ExecEnv, ops: Seq<CudaOp>, validate: bool)
    requires
        ops.len() <= usize::MAX,
        forall|i: int|
            0 <= i < ops.len() ==> op_calls(env, #[trigger] ops[i], i as usize, validate) is Ok,
    ensures
        run_ops(env, ops, validate).error is None,
    decreases ops.len(),
{
    if ops.len() > 0 {
        let rest = ops.drop_last();
        assert forall|i: int| 0 <= i < rest.len() implies op_calls(
            env,
            #[trigger] rest[i],
            i as usize,
            validate,
        ) is Ok by {
            assert(ops[i] == rest[i]);
        }
        lemma_runs_through(env, rest, validate);
        assert(op_calls(env, ops[ops.len() - 1], (ops.len() - 1) as usize, validate) is Ok);
    }
}

/// Where none is refused, every operation is executed: its calls lie together, after those
/// of the operations before it.
pub proof fn every_operation_is_executed(
    env: ExecEnv,
    ops: Seq<CudaOp>,
    validate: bool,
    i: int,
)
    requires
        ops.len() <= usize::MAX,
        forall|k: int|
            0 <= k < ops.len() ==> op_calls(env, #[trigger] ops[k], k as usize, validate) is Ok,
        0 <= i < ops.len(),
    ensures
        ({
            let all = run_ops(env, ops, validate).calls;
            let before = run_ops(env, ops.take(i), validate).calls;
            let own = op_calls(env, ops[i], i as usize, validate)->Ok_0;
            &&& run_ops(env, ops, validate).error is None
            &&& before.len() + own.len() <= all.len()
            &&& all.take(before.len() as int) == before
            &&& all.subrange(before.len() as int, (before.len() + own.len()) as int) == own
            &&& i == ops.len() - 1 ==> all.len() == before.len() + own.len()
        }),
    decreases ops.len(),
{
    lemma_runs_through(env, ops, validate);
    let rest = ops.drop_last();
    assert forall|k: int| 0 <= k < rest.len() implies op_calls(
        env,
        #[trigger] rest[k],
        k as usize,
        validate,
    ) is Ok by {
        assert(ops[k] == rest[k]);
    }
    lemma_runs_through(env, rest, validate);
    let all = run_ops(env, ops, validate).calls;
    let before = run_ops(env, ops.take(i), validate).calls;
    let own = op_calls(env, ops[i], i as usize, validate)->Ok_0;
    if i == ops.len() - 1 {
        assert(rest =~= ops.take(i));
        assert(all == before + own);
        assert(all.take(before.len() as int) =~= before);
        assert(all.subrange(before.len() as int, (before.len() + own.len()) as int) =~= own);
    } else {
        every_operation_is_executed(env, rest, validate, i);
        assert(rest.take(i) =~= ops.take(i));
        assert(rest[i] == ops[i]);
        let part = run_ops(env, rest, validate).calls;
        assert(all.take(before.len() as int) =~= part.take(before.len() as int));
        assert(all.subrange(before.len() as int, (before.len() + own.len()) as int)
            =~= part.subrange(before.len() as int, (before.len() + own.len()) as int));
    }
}

/// The calls that make a kernel node of a captured graph, in order.
pub open spec fn nodes(calls: Seq<CudaCall>) -> Seq<CudaCall>
    decreases calls.len(),
{
    if calls.len() == 0 {
        Seq::empty()
    } else {
        let rest = nodes(calls.drop_last());
        if calls.last() is LaunchKernel || calls.last() is LaunchUpdater {
            rest.push(calls.last())
        } else {
            rest
        }
    }
}

proof fn lemma_nodes_of_both(a: Seq<CudaCall>, b: Seq<CudaCall>)
    ensures
        nodes(a + b) == nodes(a) + nodes(b),
    decreases b.len(),
{
    if b.len() == 0 {
        assert(a + b =~= a);
        assert(nodes(a) + nodes(b) =~= nodes(a));
    } else {
        lemma_nodes_of_both(a, b.drop_last());
        assert((a + b).drop_last() =~= a + b.drop_last());
        assert(nodes(a + b) =~= nodes(a) + nodes(b));
    }
}

/// The nodes that the device updates are those of the kernels of indirect launches: each
/// stands directly after the node of its updater, which writes the handle that is put into
/// the slot named with the node. Every updater has such a node.
pub proof fn updatable_nodes_are_those_of_indirect_launches(
    env: ExecEnv,
    ops: Seq<CudaOp>,
)
    requires
        run_ops(env, ops, false).error is None,
        2 * ops.len() <= usize::MAX,
    ensures
        ({
            let all = nodes(run_ops(env, ops, false).calls);
            let updated = updatable_nodes(ops);
            &&& all.len() == kernel_nodes(ops) <= 2 * ops.len()
            &&& forall|m: int|
                0 <= m < updated.len() ==> {
                    let at = (#[trigger] updated[m]).ordinal as int;
                    &&& 0 < at < all.len()
                    &&& all[at] is LaunchKernel
                    &&& all[at - 1] matches CudaCall::LaunchUpdater { shape } && shape.node_slot
                        == updated[m].node_slot
                }
            &&& forall|at: int|
                0 <= at < all.len() && #[trigger] all[at] is LaunchUpdater ==> exists|m: int|
                    0 <= m < updated.len() && (#[trigger] updated[m]).ordinal == at + 1
        }),
    decreases ops.len(),
{
    if ops.len() > 0 {
        let rest = ops.drop_last();
        updatable_nodes_are_those_of_indirect_launches(env, rest);
        let before = run_ops(env, rest, false).calls;
        let own = op_calls(env, ops.last(), (ops.len() - 1) as usize, false)->Ok_0;
        lemma_nodes_of_both(before, own);
        reveal_with_fuel(nodes, 3);
        let all = nodes(run_ops(env, ops, false).calls);
        let old = nodes(before);
        let updated = updatable_nodes(ops);
        let known = updatable_nodes(rest);
        assert(nodes(own).len() == kernel_nodes(ops) - kernel_nodes(rest)) by {
            lemma_own_nodes(env, ops.last(), (ops.len() - 1) as usize);
        }
        lemma_own_nodes(env, ops.last(), (ops.len() - 1) as usize);
        assert(all =~= old + nodes(own));
        assert forall|m: int| 0 <= m < updated.len() implies {
            let at = (#[trigger] updated[m]).ordinal as int;
            &&& 0 < at < all.len()
            &&& all[at] is LaunchKernel
            &&& all[at - 1] matches CudaCall::LaunchUpdater { shape } && shape.node_slot
                == updated[m].node_slot
        } by {
            if m < known.len() {
                assert(updated[m] == known[m]);
                let at = known[m].ordinal as int;
                assert(all[at] == old[at] && all[at - 1] == old[at - 1]);
            } else {
                assert(all[old.len() as int] == nodes(own)[0]);
                assert(all[old.len() as int + 1] == nodes(own)[1]);
            }
        }
        assert forall|at: int|
            0 <= at < all.len() && #[trigger] all[at] is LaunchUpdater implies exists|m: int|
            0 <= m < updated.len() && (#[trigger] updated[m]).ordinal == at + 1 by {
            if at < old.len() {
                assert(old[at] is LaunchUpdater);
                let m = choose|m: int|
                    0 <= m < known.len() && (#[trigger] known[m]).ordinal == at + 1;
                assert(updated[m] == known[m]);
            } else {
                assert(all[at] == nodes(own)[at - old.len()]);
                assert(updated[known.len() as int].ordinal == at + 1);
            }
        }
    } else {
        assert(run_ops(env, ops, false).calls =~= Seq::<CudaCall>::empty());
    }
}

proof fn lemma_own_nodes(env: ExecEnv, op: CudaOp, index: usize)
    requires
        op_calls(env, op, index, false) is Ok,
    ensures
        ({
            let own = nodes(op_calls(env, op, index, false)->Ok_0);
            match op {
                CudaOp::Launch { launch, grid } => own == seq![
                    CudaCall::LaunchKernel { launch, grid },
                ],
                CudaOp::LaunchIndirect { launch, shape } => own.len() == 2 && own[0]
                    == (CudaCall::LaunchUpdater { shape }) && own[1] is LaunchKernel,
                _ => own.len() == 0,
            }
        }),
{
    let own = op_calls(env, op, index, false)->Ok_0;
    reveal_with_fuel(nodes, 3);
    assert(own.len() <= 2);
    if own.len() == 2 {
        assert(own.drop_last() =~= seq![own[0]]);
        assert(own.drop_last().drop_last() =~= Seq::<CudaCall>::empty());
    } else if own.len() == 1 {
        assert(own.drop_last() =~= Seq::<CudaCall>::empty());
    }
    match op {
        CudaOp::Launch { launch, grid } => {
            assert(nodes(own) =~= seq![CudaCall::LaunchKernel { launch, grid }]);
        },
        _ => {},
    }
}

/// A call names a memory.
pub open spec fn names_memory(call: CudaCall, memory: u64) -> bool {
    match call {
        CudaCall::ReadShape { memory: m, .. } => m == memory,
        CudaCall::MemsetRange { memory: m, .. } => m == memory,
        CudaCall::Upload { memory: m, .. } => m == memory,
        CudaCall::CopyRange { src, dst, .. } => src == memory || dst == memory,
        CudaCall::CopyViaScratch { memory: m, .. } => m == memory,
        CudaCall::LaunchUpdater { shape } => shape.memory == memory,
        _ => false,
    }
}

/// A copy of rows reads or writes a texture.
pub open spec fn names_texture(call: CudaCall, texture: u64) -> bool {
    call matches CudaCall::Copy2D { copy, .. } && {
        ||| copy.src matches CopyEnd::Array { texture: t, .. } && t == texture
        ||| copy.dst matches CopyEnd::Array { texture: t, .. } && t == texture
    }
}

/// A call reads host staging.
pub open spec fn names_host(call: CudaCall, host: u64) -> bool {
    match call {
        CudaCall::Upload { bytes, .. } => bytes matches HostBytes::Staging { host: h, .. } && h
            == host,
        CudaCall::UploadPtr { bytes, .. } => bytes matches HostBytes::Staging { host: h, .. } && h
            == host,
        CudaCall::Copy2D { bytes, .. } => bytes matches HostBytes::Staging { host: h, .. } && h
            == host,
        _ => false,
    }
}

/// Whatever memory, texture or staging a call of an operation names is kept alive for the
/// operation, and so is what its kernel was recorded to use.
pub proof fn what_calls_name_is_kept_alive(
    env: ExecEnv,
    launches: Seq<LaunchRecord>,
    op: CudaOp,
    index: usize,
    validate: bool,
    i: int,
    id: u64,
)
    requires
        op_calls(env, op, index, validate) is Ok,
        0 <= i < op_calls(env, op, index, validate)->Ok_0.len(),
    ensures
        ({
            let call = op_calls(env, op, index, validate)->Ok_0[i];
            &&& names_memory(call, id) ==> op_buffers(launches, op).contains(id)
            &&& names_texture(call, id) ==> op_textures(launches, op).contains(id)
            &&& names_host(call, id) ==> op_hosts(op).contains(id)
            &&& call matches CudaCall::LaunchKernel { launch, .. } ==> {
                &&& launches[launch as int].keep_alive_buffers@.contains(id) ==> op_buffers(
                    launches,
                    op,
                ).contains(id)
                &&& forall|t: int|
                    0 <= t < launches[launch as int].keep_alive_textures@.len() ==> op_textures(
                        launches,
                        op,
                    ).contains((#[trigger] launches[launch as int].keep_alive_textures@[t]).id)
            }
        }),
{
    let call = op_calls(env, op, index, validate)->Ok_0[i];
    let buffers = op_buffers(launches, op);
    let textures = op_textures(launches, op);
    match op {
        CudaOp::Launch { launch, grid } => {
            let kept = launches[launch as int].keep_alive_textures@;
            assert forall|t: int| 0 <= t < kept.len() implies textures.contains(
                (#[trigger] kept[t]).id,
            ) by {
                assert(textures[t] == kept[t].id);
            }
        },
        CudaOp::LaunchIndirect { launch, shape } => {
            let own = launches[launch as int].keep_alive_buffers@;
            let kept = launches[launch as int].keep_alive_textures@;
            assert(buffers[own.len() as int] == shape.memory);
            if own.contains(id) {
                let k = choose|k: int| 0 <= k < own.len() && own[k] == id;
                assert(buffers[k] == id);
            }
            assert forall|t: int| 0 <= t < kept.len() implies textures.contains(
                (#[trigger] kept[t]).id,
            ) by {
                assert(textures[t] == kept[t].id);
            }
        },
        CudaOp::Copy { src, src_abs, src_ptr, dst, dst_abs, dst_ptr, size } => {
            assert(buffers[0] == src && buffers[1] == dst);
        },
        CudaOp::CopyTexture { from, to } => {
            assert(textures[0] == from.id && textures[1] == to.id);
        },
        CudaOp::Clear { .. } => {
            assert(buffers[0] == buffers.first());
        },
        CudaOp::Write { .. } => {
            assert(buffers[0] == buffers.first());
        },
        CudaOp::WriteFromHost { .. } => {
            assert(buffers[0] == buffers.first());
            assert(op_hosts(op)[0] == op_hosts(op).first());
        },
        CudaOp::WriteTexture { .. } => {
            assert(textures[0] == textures.first());
        },
        CudaOp::WriteTextureFromHost { .. } => {
            assert(textures[0] == textures.first());
            assert(op_hosts(op)[0] == op_hosts(op).first());
        },
        CudaOp::CopyBufferToTexture { .. } => {
            assert(textures[0] == textures.first());
        },
        CudaOp::CopyTextureToBuffer { .. } => {
            assert(textures[0] == textures.first());
        },
        _ => {},
    }
}

/// The operation uses a texture over memory of another API.
pub open spec fn uses_imported(launches: Seq<LaunchRecord>, op: CudaOp) -> bool {
    match op {
        CudaOp::Launch { launch, .. } => exists|t: int|
            0 <= t < launches[launch as int].keep_alive_textures@.len()
                && (#[trigger] launches[launch as int].keep_alive_textures@[t]).imported,
        CudaOp::LaunchIndirect { launch, .. } => exists|t: int|
            0 <= t < launches[launch as int].keep_alive_textures@.len()
                && (#[trigger] launches[launch as int].keep_alive_textures@[t]).imported,
        CudaOp::WriteTexture { texture, .. } => texture.imported,
        CudaOp::WriteTextureFromHost { texture, .. } => texture.imported,
        CudaOp::CopyBufferToTexture { texture, .. } => texture.imported,
        CudaOp::CopyTexture { from, to } => from.imported || to.imported,
        CudaOp::CopyTextureToBuffer { texture, .. } => texture.imported,
        _ => false,
    }
}

/// What is captured into a graph can be replayed: it uses no memory of another API, waits
/// for no fence and signals none, brings no bytes of its own, does not read pixels back,
/// and needs no scratch memory. A launch also has to be one that may be captured. Everything
/// else is captured.
pub proof fn captured_operations_can_be_replayed(launches: Seq<LaunchRecord>, op: CudaOp)
    ensures
        graph_safe(launches, op) <==> {
            &&& !uses_imported(launches, op)
            &&& !(op is WaitExternalFence || op is SignalExternalFence)
            &&& !(op is Write || op is WriteTexture || op is CopyTextureToBuffer)
            &&& op matches CudaOp::Copy { src, dst, .. } ==> src != dst
            &&& op matches CudaOp::Launch { launch, .. }
                ==> launches[launch as int].graph_capture_ok
            &&& op matches CudaOp::LaunchIndirect { launch, .. }
                ==> launches[launch as int].graph_capture_ok
        },
{
}

} // verus!
