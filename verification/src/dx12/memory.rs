//! What copies do to memory, and what follows for the copies that clear, move and
//! resize buffers.

use vstd::prelude::*;

use super::command_list::Call;
use super::record::{zero_chunk, zero_fill, ZERO_BUFFER_SIZE};

verus! {

/// Bytes of each resource.
pub type Memory = Map<u64, Seq<u8>>;

/// `bytes` with `patch` written over it from `at` on.
pub open spec fn overwrite(bytes: Seq<u8>, at: int, patch: Seq<u8>) -> Seq<u8> {
    Seq::new(
        bytes.len(),
        |i: int|
            if at <= i < at + patch.len() {
                patch[i - at]
            } else {
                bytes[i]
            },
    )
}

/// `n` zero bytes.
pub open spec fn zeros(n: int) -> Seq<u8> {
    Seq::new(n as nat, |i: int| 0u8)
}

/// Memory after a call, as far as copies and clears go: a buffer copy moves bytes, a
/// mapped clear zeroes them. Bytes that a command brings along and what shaders write
/// are not followed.
pub open spec fn apply(memory: Memory, call: Call) -> Memory {
    match call {
        Call::CopyBufferRegion { dst, dst_offset, src, src_offset, size } => memory.insert(
            dst,
            overwrite(
                memory[dst],
                dst_offset as int,
                memory[src].subrange(src_offset as int, src_offset + size),
            ),
        ),
        Call::ZeroMapped { resource, offset, size } => memory.insert(
            resource,
            overwrite(memory[resource], offset as int, zeros(size as int)),
        ),
        _ => memory,
    }
}

/// Memory after calls carried out in order.
pub open spec fn run_calls(memory: Memory, calls: Seq<Call>) -> Memory
    decreases calls.len(),
{
    if calls.len() == 0 {
        memory
    } else {
        apply(run_calls(memory, calls.drop_last()), calls.last())
    }
}

/// Running one list after another is running both in a row.
pub proof fn run_calls_in_a_row(memory: Memory, a: Seq<Call>, b: Seq<Call>)
    ensures
        run_calls(memory, a + b) == run_calls(run_calls(memory, a), b),
    decreases b.len(),
{
    if b.len() == 0 {
        assert(a + b =~= a);
    } else {
        assert((a + b).drop_last() =~= a + b.drop_last());
        run_calls_in_a_row(memory, a, b.drop_last());
    }
}

/// A buffer that clears can copy from: zero bytes, as many as one copy moves.
pub open spec fn is_zero_buffer(memory: Memory, zero: u64) -> bool {
    &&& memory.contains_key(zero)
    &&& memory[zero].len() >= ZERO_BUFFER_SIZE
    &&& forall|i: int| 0 <= i < ZERO_BUFFER_SIZE ==> #[trigger] memory[zero][i] == 0
}

proof fn lemma_zero_chunks(
    memory: Memory,
    dst: u64,
    offset: int,
    zero: u64,
    size: int,
    n: int,
)
    requires
        memory.contains_key(dst),
        is_zero_buffer(memory, zero),
        dst != zero,
        0 <= offset,
        0 <= size,
        offset + size <= memory[dst].len(),
        offset + size <= u64::MAX,
        0 <= n <= (size + ZERO_BUFFER_SIZE - 1) / (ZERO_BUFFER_SIZE as int),
    ensures
        run_calls(
            memory,
            Seq::new(n as nat, |i: int| zero_chunk(dst, offset, zero, size, i)),
        ) == memory.insert(
            dst,
            overwrite(
                memory[dst],
                offset,
                zeros(
                    if n * ZERO_BUFFER_SIZE < size {
                        n * ZERO_BUFFER_SIZE
                    } else {
                        size
                    },
                ),
            ),
        ),
    decreases n,
{
    let calls = Seq::new(n as nat, |i: int| zero_chunk(dst, offset, zero, size, i));
    if n == 0 {
        assert(overwrite(memory[dst], offset, zeros(0)) =~= memory[dst]);
        assert(memory.insert(dst, memory[dst]) =~= memory);
    } else {
        lemma_zero_chunks(memory, dst, offset, zero, size, n - 1);
        let before = Seq::new(
            (n - 1) as nat,
            |i: int| zero_chunk(dst, offset, zero, size, i),
        );
        assert(calls.drop_last() =~= before);
        assert(calls.last() == zero_chunk(dst, offset, zero, size, n - 1));
        let mid = run_calls(memory, before);
        let done = (n - 1) * ZERO_BUFFER_SIZE;
        assert(done < size);
        let chunk = if size - done < ZERO_BUFFER_SIZE {
            size - done
        } else {
            ZERO_BUFFER_SIZE as int
        };
        assert(mid[zero] == memory[zero]);
        let patch = mid[zero].subrange(0, chunk);
        assert(patch =~= zeros(chunk));
        assert(overwrite(mid[dst], offset + done, patch) =~= overwrite(
            memory[dst],
            offset,
            zeros(done + chunk),
        ));
        assert(run_calls(memory, calls) =~= memory.insert(
            dst,
            overwrite(memory[dst], offset, zeros(done + chunk)),
        ));
    }
}

/// The copies of a clear zero exactly the bytes they are asked to, and touch no
/// other byte and no other resource.
pub proof fn zero_fill_zeroes_the_range(
    memory: Memory,
    dst: u64,
    offset: int,
    zero: u64,
    size: int,
)
    requires
        memory.contains_key(dst),
        is_zero_buffer(memory, zero),
        dst != zero,
        0 <= offset,
        0 <= size,
        offset + size <= memory[dst].len(),
        offset + size <= u64::MAX,
    ensures
        run_calls(memory, zero_fill(dst, offset, zero, size)) == memory.insert(
            dst,
            overwrite(memory[dst], offset, zeros(size)),
        ),
{
    let n = (size + ZERO_BUFFER_SIZE - 1) / (ZERO_BUFFER_SIZE as int);
    lemma_zero_chunks(memory, dst, offset, zero, size, n);
}

} // verus!
