//! What the calls of operations do to the bytes of a device, and what follows for clears,
//! writes and copies of buffers.

use vstd::prelude::*;

use super::execute::{
    executable, in_range, op_calls, run_ops, then_validate, CudaCall, ExecEnv, HostBytes,
    SyncPoint,
};
use super::ops::CudaOp;
use super::texture::CopyEnd;
use crate::dx12::memory::{overwrite, zeros};

verus! {

broadcast use vstd::std_specs::hash::group_hash_axioms;

/// The byte at each address of a device.
pub type DeviceBytes = spec_fn(int) -> u8;

/// What the host copies from: the bytes of payloads, and of its staging.
pub struct HostMemory {
    pub payloads: Seq<Seq<u8>>,
    pub staging: Map<u64, Seq<u8>>,
}

/// The address of a byte of an allocation.
pub open spec fn address(env: ExecEnv, memory: u64, start: u64) -> int {
    env.memory@[memory].base + start
}

/// The bytes from an address on.
pub open spec fn bytes_at(bytes: DeviceBytes, from: int, len: int) -> Seq<u8> {
    Seq::new(len as nat, |i: int| bytes(from + i))
}

/// The bytes of an allocation.
pub open spec fn contents(env: ExecEnv, bytes: DeviceBytes, memory: u64) -> Seq<u8> {
    bytes_at(bytes, env.memory@[memory].base as int, env.memory@[memory].len as int)
}

/// The bytes of an allocation from `start` on.
pub open spec fn part(env: ExecEnv, bytes: DeviceBytes, memory: u64, start: u64, len: u64) -> Seq<u8> {
    Seq::new(len as nat, |i: int| contents(env, bytes, memory)[start + i])
}

/// Two ranges of addresses have none in common.
pub open spec fn disjoint(a: int, a_len: int, b: int, b_len: int) -> bool {
    a + a_len <= b || b + b_len <= a
}

/// Allocations end within the address space, and no two have an address in common.
pub open spec fn apart(env: ExecEnv) -> bool {
    &&& forall|m: u64| #[trigger]
        env.memory@.contains_key(m) ==> env.memory@[m].base + env.memory@[m].len <= u64::MAX
    &&& forall|m: u64, n: u64| #[trigger]
        env.memory@.contains_key(m) && #[trigger] env.memory@.contains_key(n) && m != n
            ==> disjoint(
            env.memory@[m].base as int,
            env.memory@[m].len as int,
            env.memory@[n].base as int,
            env.memory@[n].len as int,
        )
}

/// A range of addresses lies in no allocation.
pub open spec fn outside(env: ExecEnv, from: int, len: int) -> bool {
    forall|m: u64| #[trigger]
        env.memory@.contains_key(m) ==> disjoint(
            from,
            len,
            env.memory@[m].base as int,
            env.memory@[m].len as int,
        )
}

/// No byte has changed.
pub open spec fn unchanged(before: DeviceBytes, after: DeviceBytes) -> bool {
    forall|a: int| #[trigger] after(a) == before(a)
}

/// Bytes were written from an address on, and no other byte has changed.
pub open spec fn wrote(before: DeviceBytes, after: DeviceBytes, to: int, patch: Seq<u8>) -> bool {
    forall|a: int| #[trigger]
        after(a) == if to <= a < to + patch.len() {
            patch[a - to]
        } else {
            before(a)
        }
}

/// A plain copy was carried out. What lands in a destination that overlaps its source is
/// left open.
pub open spec fn copied(
    before: DeviceBytes,
    after: DeviceBytes,
    from: int,
    to: int,
    len: int,
) -> bool {
    if disjoint(from, len, to, len) {
        wrote(before, after, to, bytes_at(before, from, len))
    } else {
        forall|a: int| !(to <= a < to + len) ==> #[trigger] after(a) == before(a)
    }
}

/// A copy was carried out as two plain ones, through scratch memory that no allocation
/// holds.
pub open spec fn copied_through(
    env: ExecEnv,
    before: DeviceBytes,
    after: DeviceBytes,
    from: int,
    to: int,
    len: int,
    scratch: int,
    mid: DeviceBytes,
) -> bool {
    &&& outside(env, scratch, len)
    &&& copied(before, mid, from, scratch, len)
    &&& copied(mid, after, scratch, to, len)
}

/// The bytes that a copy from the host reads.
pub open spec fn host_bytes(host: HostMemory, bytes: HostBytes) -> Seq<u8> {
    match bytes {
        HostBytes::Nothing => Seq::empty(),
        HostBytes::Payload { payload } => host.payloads[payload as int],
        HostBytes::Staging { host: h, offset, len } => host.staging[h].subrange(
            offset as int,
            offset + len,
        ),
    }
}

/// An address lies in one of the rows that a two-dimensional copy writes.
pub open spec fn in_rows(ptr: int, pitch: int, width: int, height: int, a: int) -> bool {
    exists|row: int|
        0 <= row < height && #[trigger] (row * pitch) <= a - ptr < row * pitch + width
}

/// What a call does to the bytes of the device. Kernels may write anything; of a copy from a
/// texture it is said where it writes, not what.
pub open spec fn effect(
    env: ExecEnv,
    host: HostMemory,
    before: DeviceBytes,
    after: DeviceBytes,
    call: CudaCall,
) -> bool {
    match call {
        CudaCall::LaunchKernel { .. } => true,
        CudaCall::LaunchUpdater { .. } => true,
        CudaCall::LaunchResolved { .. } => true,
        CudaCall::MemsetRange { memory, start, len } => wrote(
            before,
            after,
            address(env, memory, start),
            zeros(len as int),
        ),
        CudaCall::MemsetPtr { ptr, size } => wrote(before, after, ptr as int, zeros(size as int)),
        CudaCall::Upload { memory, start, len, bytes } => wrote(
            before,
            after,
            address(env, memory, start),
            host_bytes(host, bytes).take(len as int),
        ),
        CudaCall::UploadPtr { ptr, len, bytes } => wrote(
            before,
            after,
            ptr as int,
            host_bytes(host, bytes).take(len as int),
        ),
        CudaCall::CopyRange { src, src_start, dst, dst_start, len } => copied(
            before,
            after,
            address(env, src, src_start),
            address(env, dst, dst_start),
            len as int,
        ),
        CudaCall::CopyViaScratch { memory, src_start, dst_start, len } => exists|
            scratch: int,
            mid: DeviceBytes,
        | #[trigger]
            copied_through(
                env,
                before,
                after,
                address(env, memory, src_start),
                address(env, memory, dst_start),
                len as int,
                scratch,
                mid,
            ),
        CudaCall::CopyPtr { src_ptr, dst_ptr, size } => copied(
            before,
            after,
            src_ptr as int,
            dst_ptr as int,
            size as int,
        ),
        CudaCall::Copy2D { copy, .. } => match copy.dst {
            CopyEnd::Device { ptr, pitch } => forall|a: int|
                !in_rows(ptr as int, pitch as int, copy.width_bytes as int, copy.height as int, a)
                    ==> #[trigger] after(a) == before(a),
            _ => unchanged(before, after),
        },
        CudaCall::ReadShape { .. } => unchanged(before, after),
        CudaCall::WaitFence { .. } => unchanged(before, after),
        CudaCall::SignalFence { .. } => unchanged(before, after),
        CudaCall::Validate { .. } => unchanged(before, after),
    }
}

/// The bytes of the device before each of some calls, and after the last.
pub open spec fn ran_through(
    env: ExecEnv,
    host: HostMemory,
    states: Seq<DeviceBytes>,
    calls: Seq<CudaCall>,
) -> bool {
    &&& states.len() == calls.len() + 1
    &&& forall|i: int|
        0 <= i < calls.len() ==> effect(
            env,
            host,
            states[i],
            states[i + 1],
            #[trigger] calls[i],
        )
}

/// Calls were carried out in order, and the stream has drained.
pub open spec fn ran(
    env: ExecEnv,
    host: HostMemory,
    before: DeviceBytes,
    after: DeviceBytes,
    calls: Seq<CudaCall>,
) -> bool {
    exists|states: Seq<DeviceBytes>| #[trigger]
        ran_through(env, host, states, calls) && states[0] == before && states.last() == after
}

proof fn lemma_ran_nothing(
    env: ExecEnv,
    host: HostMemory,
    before: DeviceBytes,
    after: DeviceBytes,
    validate: bool,
    point: SyncPoint,
)
    requires
        ran(env, host, before, after, then_validate(Seq::empty(), validate, point)),
    ensures
        after == before,
{
    let calls = then_validate(Seq::<CudaCall>::empty(), validate, point);
    let states = choose|states: Seq<DeviceBytes>| #[trigger]
        ran_through(env, host, states, calls) && states[0] == before && states.last() == after;
    if validate {
        assert(effect(env, host, states[0], states[1], calls[0]));
        assert(after =~= before);
    }
}

proof fn lemma_ran_one(
    env: ExecEnv,
    host: HostMemory,
    before: DeviceBytes,
    after: DeviceBytes,
    call: CudaCall,
    validate: bool,
    point: SyncPoint,
)
    requires
        ran(env, host, before, after, then_validate(seq![call], validate, point)),
    ensures
        effect(env, host, before, after, call),
{
    let calls = then_validate(seq![call], validate, point);
    let states = choose|states: Seq<DeviceBytes>| #[trigger]
        ran_through(env, host, states, calls) && states[0] == before && states.last() == after;
    assert(effect(env, host, states[0], states[1], calls[0]));
    if validate {
        assert(effect(env, host, states[1], states[2], calls[1]));
        assert(states[2] =~= states[1]);
    }
}

/// Operations are carried out one after the other: the last of them finds what those
/// before it have left.
pub proof fn operations_run_in_order(
    env: ExecEnv,
    host: HostMemory,
    before: DeviceBytes,
    after: DeviceBytes,
    ops: Seq<CudaOp>,
    validate: bool,
) -> (mid: DeviceBytes)
    requires
        0 < ops.len() <= usize::MAX,
        run_ops(env, ops, validate).error is None,
        ran(env, host, before, after, run_ops(env, ops, validate).calls),
    ensures
        run_ops(env, ops.drop_last(), validate).error is None,
        ran(env, host, before, mid, run_ops(env, ops.drop_last(), validate).calls),
        ran(
            env,
            host,
            mid,
            after,
            op_calls(env, ops.last(), (ops.len() - 1) as usize, validate)->Ok_0,
        ),
{
    let first = run_ops(env, ops.drop_last(), validate).calls;
    let rest = op_calls(env, ops.last(), (ops.len() - 1) as usize, validate)->Ok_0;
    let calls = run_ops(env, ops, validate).calls;
    assert(calls == first + rest);
    let states = choose|states: Seq<DeviceBytes>| #[trigger]
        ran_through(env, host, states, calls) && states[0] == before && states.last() == after;
    let n = first.len() as int;
    let head = states.take(n + 1);
    let tail = states.skip(n);
    assert forall|i: int| 0 <= i < first.len() implies effect(
        env,
        host,
        head[i],
        head[i + 1],
        #[trigger] first[i],
    ) by {
        assert(calls[i] == first[i]);
    }
    assert forall|i: int| 0 <= i < rest.len() implies effect(
        env,
        host,
        tail[i],
        tail[i + 1],
        #[trigger] rest[i],
    ) by {
        assert(calls[n + i] == rest[i]);
    }
    assert(ran_through(env, host, head, first));
    assert(ran_through(env, host, tail, rest));
    states[n]
}

/// Every allocation but one holds what it held, and that one holds its old bytes with
/// others written over them.
pub open spec fn only_wrote(
    env: ExecEnv,
    before: DeviceBytes,
    after: DeviceBytes,
    memory: u64,
    start: u64,
    patch: Seq<u8>,
) -> bool {
    &&& contents(env, after, memory) == overwrite(
        contents(env, before, memory),
        start as int,
        patch,
    )
    &&& forall|m: u64|
        env.memory@.contains_key(m) && m != memory ==> #[trigger] contents(env, after, m)
            == contents(env, before, m)
}

proof fn lemma_only_wrote(
    env: ExecEnv,
    before: DeviceBytes,
    after: DeviceBytes,
    memory: u64,
    start: u64,
    patch: Seq<u8>,
)
    requires
        apart(env),
        env.memory@.contains_key(memory),
        patch.len() == 0 || start + patch.len() <= env.memory@[memory].len,
        forall|m: u64, i: int|
            env.memory@.contains_key(m) && 0 <= i < env.memory@[m].len ==> #[trigger] contents(
                env,
                after,
                m,
            )[i] == if address(env, memory, start) <= env.memory@[m].base + i < address(
                env,
                memory,
                start,
            ) + patch.len() {
                patch[env.memory@[m].base + i - address(env, memory, start)]
            } else {
                before(env.memory@[m].base + i)
            },
    ensures
        only_wrote(env, before, after, memory, start, patch),
{
    assert(contents(env, after, memory) =~= overwrite(
        contents(env, before, memory),
        start as int,
        patch,
    ));
    assert forall|m: u64| env.memory@.contains_key(m) && m != memory implies #[trigger] contents(
        env,
        after,
        m,
    ) == contents(env, before, m) by {
        assert(disjoint(
            env.memory@[m].base as int,
            env.memory@[m].len as int,
            env.memory@[memory].base as int,
            env.memory@[memory].len as int,
        ));
        assert(contents(env, after, m) =~= contents(env, before, m));
    }
}

/// A clear of bytes that lie in an allocation zeroes these, and changes no other byte of
/// any allocation, whether it is executed or captured with the address that the bytes have.
pub proof fn clear_zeroes_the_range(
    env: ExecEnv,
    host: HostMemory,
    before: DeviceBytes,
    after: DeviceBytes,
    memory: u64,
    abs_offset: u64,
    size: u64,
    device_ptr: u64,
    index: usize,
    validate: bool,
)
    requires
        apart(env),
        executable(env, CudaOp::Clear { memory, abs_offset, size, device_ptr }),
        in_range(env, memory, abs_offset, size),
        !validate ==> device_ptr == address(env, memory, abs_offset),
    ensures
        ({
            let op = CudaOp::Clear { memory, abs_offset, size, device_ptr };
            &&& op_calls(env, op, index, validate) is Ok
            &&& ran(env, host, before, after, op_calls(env, op, index, validate)->Ok_0)
                ==> only_wrote(env, before, after, memory, abs_offset, zeros(size as int))
        }),
{
    let op = CudaOp::Clear { memory, abs_offset, size, device_ptr };
    let calls = op_calls(env, op, index, validate)->Ok_0;
    let point = SyncPoint::ClearBuffer;
    if ran(env, host, before, after, calls) {
        if validate {
            let call = CudaCall::MemsetRange { memory, start: abs_offset, len: size };
            lemma_ran_one(env, host, before, after, call, validate, point);
        } else if size == 0 {
            lemma_ran_nothing(env, host, before, after, validate, point);
        } else {
            let call = CudaCall::MemsetPtr { ptr: device_ptr, size };
            lemma_ran_one(env, host, before, after, call, validate, point);
        }
        lemma_only_wrote(env, before, after, memory, abs_offset, zeros(size as int));
    }
}

/// A write of a payload into bytes that lie in an allocation stores the payload there, and
/// changes no other byte of any allocation.
pub proof fn write_stores_the_payload(
    env: ExecEnv,
    host: HostMemory,
    before: DeviceBytes,
    after: DeviceBytes,
    memory: u64,
    abs_offset: u64,
    payload: usize,
    len: u64,
    index: usize,
    validate: bool,
)
    requires
        apart(env),
        executable(env, CudaOp::Write { memory, abs_offset, payload, len }),
        in_range(env, memory, abs_offset, len),
        host.payloads[payload as int].len() == len,
    ensures
        ({
            let op = CudaOp::Write { memory, abs_offset, payload, len };
            &&& op_calls(env, op, index, validate) is Ok
            &&& ran(env, host, before, after, op_calls(env, op, index, validate)->Ok_0)
                ==> only_wrote(
                env,
                before,
                after,
                memory,
                abs_offset,
                host.payloads[payload as int],
            )
        }),
{
    let op = CudaOp::Write { memory, abs_offset, payload, len };
    let bytes = HostBytes::Payload { payload };
    if ran(env, host, before, after, op_calls(env, op, index, validate)->Ok_0) {
        let call = CudaCall::Upload { memory, start: abs_offset, len, bytes };
        lemma_ran_one(env, host, before, after, call, validate, SyncPoint::WriteBuffer);
        assert(host_bytes(host, bytes).take(len as int) =~= host.payloads[payload as int]);
        lemma_only_wrote(env, before, after, memory, abs_offset, host.payloads[payload as int]);
    }
}

/// A write from host staging stores the bytes that lie there, and changes no other byte of
/// any allocation, whether it is executed or captured with the address that the bytes have.
pub proof fn write_from_host_stores_the_staging(
    env: ExecEnv,
    mem: HostMemory,
    before: DeviceBytes,
    after: DeviceBytes,
    memory: u64,
    abs_offset: u64,
    device_ptr: u64,
    host: u64,
    host_offset: u64,
    len: u64,
    index: usize,
    validate: bool,
)
    requires
        apart(env),
        executable(
            env,
            CudaOp::WriteFromHost { memory, abs_offset, device_ptr, host, host_offset, len },
        ),
        in_range(env, memory, abs_offset, len),
        host_offset + len <= env.hosts@[host],
        mem.staging[host].len() == env.hosts@[host],
        !validate ==> device_ptr == address(env, memory, abs_offset),
    ensures
        ({
            let op = CudaOp::WriteFromHost {
                memory,
                abs_offset,
                device_ptr,
                host,
                host_offset,
                len,
            };
            &&& op_calls(env, op, index, validate) is Ok
            &&& ran(env, mem, before, after, op_calls(env, op, index, validate)->Ok_0)
                ==> only_wrote(
                env,
                before,
                after,
                memory,
                abs_offset,
                mem.staging[host].subrange(host_offset as int, host_offset + len),
            )
        }),
{
    let op = CudaOp::WriteFromHost { memory, abs_offset, device_ptr, host, host_offset, len };
    let bytes = HostBytes::Staging { host, offset: host_offset, len };
    let patch = mem.staging[host].subrange(host_offset as int, host_offset + len);
    let point = SyncPoint::WriteFromHost;
    if ran(env, mem, before, after, op_calls(env, op, index, validate)->Ok_0) {
        let call = if validate {
            CudaCall::Upload { memory, start: abs_offset, len, bytes }
        } else {
            CudaCall::UploadPtr { ptr: device_ptr, len, bytes }
        };
        lemma_ran_one(env, mem, before, after, call, validate, point);
        assert(host_bytes(mem, bytes).take(len as int) =~= patch);
        lemma_only_wrote(env, before, after, memory, abs_offset, patch);
    }
}

/// A copy between bytes that lie in allocations leaves the old source bytes in the
/// destination, also where both lie in one allocation and overlap, and changes no other
/// byte of any allocation. A copy of no bytes changes nothing. Within one allocation a copy
/// is not captured; between two it may be, with the addresses that the bytes have.
pub proof fn copy_moves_the_source_bytes(
    env: ExecEnv,
    host: HostMemory,
    before: DeviceBytes,
    after: DeviceBytes,
    src: u64,
    src_abs: u64,
    src_ptr: u64,
    dst: u64,
    dst_abs: u64,
    dst_ptr: u64,
    size: u64,
    index: usize,
    validate: bool,
)
    requires
        apart(env),
        executable(env, CudaOp::Copy { src, src_abs, src_ptr, dst, dst_abs, dst_ptr, size }),
        size == 0 || (in_range(env, src, src_abs, size) && in_range(env, dst, dst_abs, size)),
        !validate && size > 0 ==> src != dst && src_ptr == address(env, src, src_abs) && dst_ptr
            == address(env, dst, dst_abs),
    ensures
        ({
            let op = CudaOp::Copy { src, src_abs, src_ptr, dst, dst_abs, dst_ptr, size };
            &&& op_calls(env, op, index, validate) is Ok
            &&& ran(env, host, before, after, op_calls(env, op, index, validate)->Ok_0)
                ==> only_wrote(
                env,
                before,
                after,
                dst,
                dst_abs,
                part(env, before, src, src_abs, size),
            )
            &&& size == 0 && ran(
                env,
                host,
                before,
                after,
                op_calls(env, op, index, validate)->Ok_0,
            ) ==> unchanged(before, after)
        }),
{
    let op = CudaOp::Copy { src, src_abs, src_ptr, dst, dst_abs, dst_ptr, size };
    let calls = op_calls(env, op, index, validate)->Ok_0;
    let point = SyncPoint::CopyBuffer;
    let patch = part(env, before, src, src_abs, size);
    let from = address(env, src, src_abs);
    let to = address(env, dst, dst_abs);
    if ran(env, host, before, after, calls) {
        if size == 0 {
            lemma_ran_nothing(env, host, before, after, validate, point);
        } else {
            assert(bytes_at(before, from, size as int) =~= patch);
            if validate && src == dst {
                let call = CudaCall::CopyViaScratch {
                    memory: src,
                    src_start: src_abs,
                    dst_start: dst_abs,
                    len: size,
                };
                lemma_ran_one(env, host, before, after, call, validate, point);
                let (scratch, mid) = choose|scratch: int, mid: DeviceBytes| #[trigger]
                    copied_through(env, before, after, from, to, size as int, scratch, mid);
                assert(outside(env, scratch, size as int));
                assert(bytes_at(mid, scratch, size as int) =~= patch);
            } else {
                let call = if validate {
                    CudaCall::CopyRange {
                        src,
                        src_start: src_abs,
                        dst,
                        dst_start: dst_abs,
                        len: size,
                    }
                } else {
                    CudaCall::CopyPtr { src_ptr, dst_ptr, size }
                };
                lemma_ran_one(env, host, before, after, call, validate, point);
            }
        }
        lemma_only_wrote(env, before, after, dst, dst_abs, patch);
    }
}

} // verus!
