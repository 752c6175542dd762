//! What a submission stages before it is recorded: whether it stages anything, and
//! how the staged uploads reach the commands that take them.

use vstd::prelude::*;

use super::commands::{is_upload, needs_staging, GpuCommand, GraphCommand};
use super::record::{BeltSlice, Layouts, RecordError, RecordInputs, RecordView, StagedTextureUpload};
use super::record_laws::{
    belt_steps, graph_recording_uses_every_staged_upload, graph_staged_uploads_never_run_out,
    graph_prepass_stages_every_upload, prepass_stages_every_upload,
    recording_uses_every_staged_upload, staged_uploads_never_run_out,
};
use super::stream::{run_graph, run_stream};
use super::submit::{graph_staging, stream_staging, StagingStep};
use super::types::RecordTables;

verus! {

/// What staging one upload gave.
#[derive(Clone, Copy, Debug, PartialEq, Eq, Structural)]
pub enum Staged {
    Slice(BeltSlice),
    Upload(StagedTextureUpload),
}

/// The belt slices among the staged uploads, in order.
pub open spec fn slices(staged: Seq<Staged>) -> Seq<BeltSlice>
    decreases staged.len(),
{
    if staged.len() == 0 {
        Seq::empty()
    } else {
        match staged.last() {
            Staged::Slice(s) => slices(staged.drop_last()).push(s),
            Staged::Upload(_) => slices(staged.drop_last()),
        }
    }
}

/// The texture uploads among the staged uploads, in order.
pub open spec fn uploads(staged: Seq<Staged>) -> Seq<StagedTextureUpload>
    decreases staged.len(),
{
    if staged.len() == 0 {
        Seq::empty()
    } else {
        match staged.last() {
            Staged::Slice(_) => uploads(staged.drop_last()),
            Staged::Upload(u) => uploads(staged.drop_last()).push(u),
        }
    }
}

/// Each step was carried out, and gave what its kind of step gives.
pub open spec fn answers(steps: Seq<StagingStep>, staged: Seq<Staged>) -> bool {
    &&& steps.len() == staged.len()
    &&& forall|i: int|
        #![trigger steps[i]]
        #![trigger staged[i]]
        0 <= i < steps.len() ==> (steps[i] is BeltWrite) == (staged[i] is Slice)
}

/// Parts staged uploads into belt slices and texture uploads.
pub fn split_staged(staged: &Vec<Staged>) -> (parts: (Vec<BeltSlice>, Vec<StagedTextureUpload>))
    ensures
        parts.0@ == slices(staged@),
        parts.1@ == uploads(staged@),
{
    let mut belt: Vec<BeltSlice> = Vec::new();
    let mut textures: Vec<StagedTextureUpload> = Vec::new();
    let mut i: usize = 0;
    while i < staged.len()
        invariant
            i <= staged.len(),
            belt@ == slices(staged@.take(i as int)),
            textures@ == uploads(staged@.take(i as int)),
        decreases staged.len() - i,
    {
        assert(staged@.take(i + 1).drop_last() =~= staged@.take(i as int));
        match staged[i] {
            Staged::Slice(s) => {
                belt.push(s);
            },
            Staged::Upload(u) => {
                textures.push(u);
            },
        }
        i += 1;
    }
    assert(staged@.take(i as int) =~= staged@);
    (belt, textures)
}

/// Whether a stream has an upload to stage, so that staging memory is reclaimed
/// before it is recorded.
pub fn stream_has_upload(commands: &Vec<GpuCommand>) -> (upload: bool)
    ensures
        upload == exists|i: int| 0 <= i < commands@.len() && needs_staging(#[trigger] commands@[i]),
{
    let mut i: usize = 0;
    while i < commands.len()
        invariant
            i <= commands.len(),
            forall|j: int| 0 <= j < i ==> !needs_staging(#[trigger] commands@[j]),
        decreases commands.len() - i,
    {
        if is_upload(&commands[i]) {
            assert(needs_staging(commands@[i as int]));
            return true;
        }
        i += 1;
    }
    false
}

/// The graph command is a compute command with an upload to stage.
pub open spec fn graph_needs_staging(cmd: GraphCommand) -> bool {
    cmd matches GraphCommand::Compute(c) && needs_staging(c)
}

/// Whether a graph has an upload to stage.
pub fn graph_has_upload(commands: &Vec<GraphCommand>) -> (upload: bool)
    ensures
        upload == exists|i: int|
            0 <= i < commands@.len() && graph_needs_staging(#[trigger] commands@[i]),
{
    let mut i: usize = 0;
    while i < commands.len()
        invariant
            i <= commands.len(),
            forall|j: int| 0 <= j < i ==> !graph_needs_staging(#[trigger] commands@[j]),
        decreases commands.len() - i,
    {
        match &commands[i] {
            GraphCommand::Compute(c) => {
                if is_upload(c) {
                    assert(graph_needs_staging(commands@[i as int]));
                    return true;
                }
            },
            GraphCommand::Render { .. } => {},
        }
        i += 1;
    }
    false
}

proof fn lemma_split_counts(steps: Seq<StagingStep>, staged: Seq<Staged>)
    requires
        answers(steps, staged),
    ensures
        slices(staged).len() == belt_steps(steps),
        uploads(staged).len() == steps.len() - belt_steps(steps),
    decreases steps.len(),
{
    if steps.len() > 0 {
        let s = steps.drop_last();
        let t = staged.drop_last();
        assert forall|i: int| 0 <= i < s.len() implies (#[trigger] s[i] is BeltWrite) == (t[i]
            is Slice) by {
            assert(s[i] == steps[i]);
        }
        assert forall|i: int| 0 <= i < s.len() implies (s[i] is BeltWrite) == (#[trigger] t[i]
            is Slice) by {
            assert(s[i] == steps[i]);
        }
        lemma_split_counts(s, t);
        assert((steps[steps.len() - 1] is BeltWrite) == (staged[steps.len() - 1] is Slice));
    }
}

/// A stream whose uploads were all staged never lacks one: recorded with what its
/// pre-pass staged, it is not stopped for want of a slice or an upload, and where
/// nothing else stops it, it takes every one of them.
pub proof fn staged_stream_takes_what_was_staged(
    tables: RecordTables,
    inputs: RecordInputs,
    textures: Layouts,
    st: RecordView,
    commands: Seq<GpuCommand>,
    staged: Seq<Staged>,
)
    requires
        st.belt_idx == 0,
        st.texture_upload_idx == 0,
        stream_staging(tables, commands) is Ok,
        answers(stream_staging(tables, commands)->Ok_0, staged),
        inputs.belt_slices@ == slices(staged),
        inputs.staged_texture_uploads@ == uploads(staged),
    ensures
        ({
            let run = run_stream(tables, inputs, textures, st, commands);
            &&& run.error != Some(RecordError::WriteBufferBeltSliceMissing)
            &&& run.error != Some(RecordError::WriteTextureStagedUploadMissing)
            &&& run.error is None ==> run.recorded.state.belt_idx == inputs.belt_slices@.len()
            &&& run.error is None ==> run.recorded.state.texture_upload_idx
                == inputs.staged_texture_uploads@.len()
        }),
{
    prepass_stages_every_upload(tables, commands);
    lemma_split_counts(stream_staging(tables, commands)->Ok_0, staged);
    staged_uploads_never_run_out(tables, inputs, textures, st, commands);
    if run_stream(tables, inputs, textures, st, commands).error is None {
        recording_uses_every_staged_upload(tables, inputs, textures, st, commands);
    }
}

/// The same of a graph.
pub proof fn staged_graph_takes_what_was_staged(
    tables: RecordTables,
    inputs: RecordInputs,
    textures: Layouts,
    st: RecordView,
    commands: Seq<GraphCommand>,
    staged: Seq<Staged>,
)
    requires
        st.belt_idx == 0,
        st.texture_upload_idx == 0,
        graph_staging(tables, commands) is Ok,
        answers(graph_staging(tables, commands)->Ok_0, staged),
        inputs.belt_slices@ == slices(staged),
        inputs.staged_texture_uploads@ == uploads(staged),
    ensures
        ({
            let run = run_graph(tables, inputs, textures, st, commands);
            &&& run.error != Some(RecordError::WriteBufferBeltSliceMissing)
            &&& run.error != Some(RecordError::WriteTextureStagedUploadMissing)
            &&& run.error is None ==> run.recorded.state.belt_idx == inputs.belt_slices@.len()
            &&& run.error is None ==> run.recorded.state.texture_upload_idx
                == inputs.staged_texture_uploads@.len()
        }),
{
    graph_prepass_stages_every_upload(tables, commands);
    lemma_split_counts(graph_staging(tables, commands)->Ok_0, staged);
    graph_staged_uploads_never_run_out(tables, inputs, textures, st, commands);
    if run_graph(tables, inputs, textures, st, commands).error is None {
        graph_recording_uses_every_staged_upload(tables, inputs, textures, st, commands);
    }
}

} // verus!
