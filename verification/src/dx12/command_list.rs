//! Calls made on a command list while a submission is recorded.

use vstd::prelude::*;

use super::barriers::{
    barrier_well_paired, Barrier, BufferBarrier, GlobalBarrier, TextureBarrier,
};

verus! {

/// Command signature of an indirect execution.
#[derive(Clone, Copy, Debug, PartialEq, Eq, Structural)]
pub enum IndirectSignature {
    Dispatch,
    BatchDispatch,
}

/// Where the arguments of an indirect execution lie.
#[derive(Clone, Copy, Debug, PartialEq, Eq, Structural)]
pub enum ArgumentSource {
    /// A resource of the backend.
    Resource(u64),
    /// The argument buffer uploaded just before.
    UploadedArguments,
}

/// One call on a command list, or one piece of host work that recording a command
/// does between such calls. Calls are carried out in order; one that fails ends
/// the recording.
#[derive(Clone, Copy, Debug, PartialEq, Eq, Structural)]
pub enum Call {
    /// The calls up to the next one of these carry out the command at this index of
    /// the stream. Where a call speaks of the command, it is this one.
    Command { command: usize },
    /// Adds a barrier to the group that the next `IssueBarriers` issues.
    QueueBarrier(Barrier),
    /// Issues the queued barriers in one call, one group per barrier type.
    IssueBarriers,
    SetDescriptorHeaps,
    SetComputeRootSignature { pipeline: u64 },
    SetPipelineState { pipeline: u64 },
    /// Checks the bindings of the command against what the pipeline declares.
    ValidateBindings { pipeline: u64 },
    /// Sets the push constants of a frame-table dispatch. The user words lie in the
    /// recorder's constants.
    BindFrameTable { base: u32, user_first: usize, user_count: usize },
    /// Sets `dwords` root constants from the command's argument bytes.
    SetRootConstants { first_byte: usize, dwords: u32 },
    Dispatch { x: u32, y: u32, z: u32 },
    /// Creates an upload buffer of `size` bytes holding the command's argument
    /// bytes, and keeps it until the submission has retired.
    UploadArguments { size: u64 },
    ExecuteIndirect { signature: IndirectSignature, count: u32, arguments: ArgumentSource, offset: u64 },
    /// Writes a timestamp into the query heap.
    EndQuery { index: u32 },
    ResolveQueries { count: u32 },
    CopyBufferRegion { dst: u64, dst_offset: u64, src: u64, src_offset: u64, size: u64 },
    CopyResource { dst: u64, src: u64 },
    /// Maps a resource, writes zeros over the range, unmaps it.
    ZeroMapped { resource: u64, offset: u64, size: u64 },
    /// Maps a resource, writes the command's bytes at the offset, unmaps it.
    WriteMapped { resource: u64, offset: u64, size: u64 },
    /// Records the staged texture upload with this index.
    StagedTextureUpload { upload: usize },
    CopyTextureToReadback { src: u64, dst: u64 },
    /// Stages the command's words as the frame table of this submission and copies it
    /// to the device.
    FrameTablePrologue,
    /// Records a render pass onto the list. `prologue_done` says that the frame
    /// table has been copied by this list already.
    RenderPass { target: u64, command: usize, prologue_done: bool },
}

/// The calls that issue a group of barriers: none for an empty group.
pub open spec fn issue(barriers: Seq<Barrier>) -> Seq<Call> {
    if barriers.len() == 0 {
        Seq::empty()
    } else {
        barriers.map_values(|b: Barrier| Call::QueueBarrier(b)).push(Call::IssueBarriers)
    }
}

/// The calls that issue one barrier.
pub open spec fn issue_one(barrier: Barrier) -> Seq<Call> {
    seq![Call::QueueBarrier(barrier), Call::IssueBarriers]
}

/// Every barrier in the calls pairs its stages and accesses.
pub open spec fn calls_well_paired(calls: Seq<Call>) -> bool {
    forall|i: int|
        0 <= i < calls.len() ==> (#[trigger] calls[i] matches Call::QueueBarrier(b)
            ==> barrier_well_paired(b))
}

/// Queues the barriers of a group and issues them; nothing for an empty group.
pub fn barrier_group(calls: &mut Vec<Call>, barriers: &[Barrier])
    ensures
        final(calls)@ == old(calls)@ + issue(barriers@),
{
    if barriers.len() == 0 {
        return;
    }
    let ghost start = calls@;
    let mut i: usize = 0;
    while i < barriers.len()
        invariant
            i <= barriers.len(),
            calls@ == start + barriers@.take(i as int).map_values(
                |b: Barrier| Call::QueueBarrier(b),
            ),
        decreases barriers.len() - i,
    {
        calls.push(Call::QueueBarrier(barriers[i]));
        i += 1;
    }
    assert(barriers@.take(i as int) =~= barriers@);
    calls.push(Call::IssueBarriers);
}

/// Issues one barrier.
pub fn issue_barrier(calls: &mut Vec<Call>, barrier: Barrier)
    ensures
        final(calls)@ == old(calls)@ + issue_one(barrier),
{
    calls.push(Call::QueueBarrier(barrier));
    calls.push(Call::IssueBarriers);
}

/// Records buffer barriers as one group.
pub fn barrier_buffers(calls: &mut Vec<Call>, barriers: &[BufferBarrier])
    ensures
        final(calls)@ == old(calls)@ + issue(
            barriers@.map_values(|b: BufferBarrier| Barrier::Buffer(b)),
        ),
{
    let mut group: Vec<Barrier> = Vec::new();
    let mut i: usize = 0;
    while i < barriers.len()
        invariant
            i <= barriers.len(),
            group@ == barriers@.take(i as int).map_values(|b: BufferBarrier| Barrier::Buffer(b)),
        decreases barriers.len() - i,
    {
        group.push(Barrier::Buffer(barriers[i]));
        i += 1;
    }
    assert(barriers@.take(i as int) =~= barriers@);
    barrier_group(calls, group.as_slice());
}

/// Records texture barriers as one group.
pub fn barrier_textures(calls: &mut Vec<Call>, barriers: &[TextureBarrier])
    ensures
        final(calls)@ == old(calls)@ + issue(
            barriers@.map_values(|b: TextureBarrier| Barrier::Texture(b)),
        ),
{
    let mut group: Vec<Barrier> = Vec::new();
    let mut i: usize = 0;
    while i < barriers.len()
        invariant
            i <= barriers.len(),
            group@ == barriers@.take(i as int).map_values(|b: TextureBarrier| Barrier::Texture(b)),
        decreases barriers.len() - i,
    {
        group.push(Barrier::Texture(barriers[i]));
        i += 1;
    }
    assert(barriers@.take(i as int) =~= barriers@);
    barrier_group(calls, group.as_slice());
}

/// Records global barriers as one group.
pub fn barrier_globals(calls: &mut Vec<Call>, barriers: &[GlobalBarrier])
    ensures
        final(calls)@ == old(calls)@ + issue(
            barriers@.map_values(|b: GlobalBarrier| Barrier::Global(b)),
        ),
{
    let mut group: Vec<Barrier> = Vec::new();
    let mut i: usize = 0;
    while i < barriers.len()
        invariant
            i <= barriers.len(),
            group@ == barriers@.take(i as int).map_values(|b: GlobalBarrier| Barrier::Global(b)),
        decreases barriers.len() - i,
    {
        group.push(Barrier::Global(barriers[i]));
        i += 1;
    }
    assert(barriers@.take(i as int) =~= barriers@);
    barrier_group(calls, group.as_slice());
}

/// Appending paired calls to paired calls leaves them paired.
pub proof fn lemma_paired_concat(a: Seq<Call>, b: Seq<Call>)
    requires
        calls_well_paired(a),
        calls_well_paired(b),
    ensures
        calls_well_paired(a + b),
{
    assert forall|i: int| 0 <= i < (a + b).len() implies (#[trigger] (a
        + b)[i] matches Call::QueueBarrier(x) ==> barrier_well_paired(x)) by {
        if i < a.len() {
            assert((a + b)[i] == a[i]);
        } else {
            assert((a + b)[i] == b[i - a.len()]);
        }
    }
}

} // verus!
