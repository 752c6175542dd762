//! A raster pass from its first requirement to its signal: what is done next, given
//! what has been done.

use vstd::prelude::*;

use super::raster::RasterError;
use super::raster_backing::CudaPhysKind;
use super::raster_pass::{
    commands_key, key_fingerprint, pass_key, raster_fingerprint, RasterScene, RenderCommand, TargetLoad,
};
use super::raster_record::{
    after_reads, can_reuse, check_target, collect_requirements, commands_requirements, finish_pass,
    needed, needed_buffers, needs_twin_sync, read_under, staging_requirements, twin_lags,
    Requirement,
};

verus! {

broadcast use vstd::std_specs::hash::group_hash_axioms;

/// A pass whose binds were lowered to its frame table.
pub struct RasterPass {
    pub device: u64,
    pub target: u64,
    pub load: TargetLoad,
    pub commands: Vec<RenderCommand>,
    /// The frame table, and the words of one of its rows.
    pub staging: Vec<u32>,
    pub row_stride: usize,
}

/// Where a pass stands.
#[derive(Clone, Copy, Debug, PartialEq, Eq, Structural)]
pub enum PassPhase {
    /// A buffer is given the kind of memory that a requirement asks for.
    Ensure { next: usize },
    /// The worker is flushed and the streams of the device are waited for: a twin lags
    /// behind its buffer.
    SyncTwins,
    /// A buffer is made ready for the companion.
    Refresh { next: usize },
    /// The stream that allocates is waited for: some buffer is in shared memory.
    SyncAllocStream,
    /// The queue of the companion waits for a fence value.
    WaitQueue,
    /// The list recorded last is run again.
    Reuse,
    /// A list is recorded and submitted.
    Record,
    /// The pass was submitted and signals a fence value.
    Over { signal: u64 },
}

/// What has to be done next.
#[derive(Clone, Copy, Debug, PartialEq, Eq, Structural)]
pub enum PassAction {
    Ensure { requirement: Requirement },
    SyncTwins,
    Refresh { buffer: u64 },
    SyncAllocStream,
    WaitQueue { value: u64 },
    Reuse { fingerprint: u64 },
    Record { fingerprint: u64 },
    Finished { signal: u64 },
}

/// What became of an action.
#[derive(Clone, Copy, Debug, PartialEq, Eq, Structural)]
pub enum PassEvent {
    Performed,
    /// The companion has to wait for this fence value; zero for none.
    Refreshed { fence: u64 },
    /// The list ran again under this fence value; `None` where it could not.
    Reused { again: Option<u64> },
    Submitted { signal: u64 },
}

/// A pass in progress.
pub struct PassRun {
    pub pass: RasterPass,
    pub requirements: Vec<Requirement>,
    /// The buffers that the pass reads: those of the input assembler, then those of
    /// shaders.
    pub handles: Vec<u64>,
    pub fingerprint: u64,
    /// Largest fence value that a buffer was made ready under.
    pub wait: u64,
    /// Some buffer is in shared memory.
    pub shared: bool,
    pub phase: PassPhase,
}

/// What changes while a pass runs.
#[verifier::ext_equal]
pub struct PassState {
    pub handles: Seq<u64>,
    pub fingerprint: u64,
    pub wait: u64,
    pub shared: bool,
    pub phase: PassPhase,
}

/// The buffer is in shared memory.
pub open spec fn is_shared(scene: RasterScene, handle: u64) -> bool {
    scene.buffers@.contains_key(handle) && scene.buffers@[handle].phys_kind is Shared
}

/// Some twin lags behind its buffer.
pub open spec fn any_lags(scene: RasterScene, handles: Seq<u64>) -> bool {
    exists|i: int| 0 <= i < handles.len() && twin_lags(scene, #[trigger] handles[i])
}

/// What a pass needs of its buffers.
pub open spec fn pass_requirements(scene: RasterScene, pass: RasterPass) -> Seq<Requirement> {
    commands_requirements(scene, pass.commands@) + staging_requirements(scene, pass.staging@)
}

/// The pass runs the list recorded last, or records one.
pub open spec fn at_list(scene: RasterScene, target: u64, s: PassState) -> PassState {
    PassState {
        phase: if scene.list_cache@.contains_key(target) && scene.list_cache@[target]
            == s.fingerprint {
            PassPhase::Reuse
        } else {
            PassPhase::Record
        },
        ..s
    }
}

/// The queue waits where a buffer was made ready under a fence value.
pub open spec fn at_wait(scene: RasterScene, target: u64, s: PassState) -> PassState {
    if s.wait > 0 {
        PassState { phase: PassPhase::WaitQueue, ..s }
    } else {
        at_list(scene, target, s)
    }
}

/// The stream that allocates is waited for where a buffer is in shared memory.
pub open spec fn at_alloc_sync(scene: RasterScene, target: u64, s: PassState) -> PassState {
    if s.shared {
        PassState { phase: PassPhase::SyncAllocStream, ..s }
    } else {
        at_wait(scene, target, s)
    }
}

/// The next buffer is made ready, if there is one.
pub open spec fn at_refresh(scene: RasterScene, target: u64, s: PassState, next: int) -> PassState {
    if next < s.handles.len() {
        PassState {
            shared: s.shared || is_shared(scene, s.handles[next]),
            phase: PassPhase::Refresh { next: next as usize },
            ..s
        }
    } else {
        at_alloc_sync(scene, target, s)
    }
}

/// What follows once every buffer has the memory that it needs.
pub open spec fn ensured(scene: RasterScene, pass: RasterPass, requirements: Seq<Requirement>) -> Result<
    PassState,
    RasterError,
> {
    match pass_key(
        scene,
        pass.target,
        pass.load,
        pass.commands@,
        pass.staging@,
        pass.row_stride as nat,
    ) {
        Err(e) => Err(e),
        Ok(key) => {
            let s = PassState {
                handles: needed(requirements, true) + needed(requirements, false),
                fingerprint: key_fingerprint(key),
                wait: 0,
                shared: false,
                phase: PassPhase::SyncTwins,
            };
            Ok(
                if any_lags(scene, s.handles) {
                    s
                } else {
                    at_refresh(scene, pass.target, s, 0)
                },
            )
        },
    }
}

/// The larger fence value.
pub open spec fn later_fence(a: u64, b: u64) -> u64 {
    if a >= b {
        a
    } else {
        b
    }
}

/// The event is one of the action that the phase asks for.
pub open spec fn answers(phase: PassPhase, event: PassEvent) -> bool {
    match phase {
        PassPhase::Refresh { .. } => event is Refreshed,
        PassPhase::Reuse => event is Reused,
        PassPhase::Record => event is Submitted,
        PassPhase::Over { .. } => false,
        _ => event is Performed,
    }
}

/// The state after an event that leaves the scene alone, or why the pass ends.
pub open spec fn advanced(
    scene: RasterScene,
    pass: RasterPass,
    requirements: Seq<Requirement>,
    s: PassState,
    event: PassEvent,
) -> Result<PassState, RasterError> {
    match s.phase {
        PassPhase::Ensure { next } => if next + 1 < requirements.len() {
            Ok(PassState { phase: PassPhase::Ensure { next: (next + 1) as usize }, ..s })
        } else {
            ensured(scene, pass, requirements)
        },
        PassPhase::SyncTwins => Ok(at_refresh(scene, pass.target, s, 0)),
        PassPhase::Refresh { next } => Ok(
            at_refresh(
                scene,
                pass.target,
                PassState { wait: later_fence(s.wait, event->fence), ..s },
                next + 1,
            ),
        ),
        PassPhase::SyncAllocStream => Ok(at_wait(scene, pass.target, s)),
        PassPhase::WaitQueue => Ok(at_list(scene, pass.target, s)),
        _ => Ok(PassState { phase: PassPhase::Record, ..s }),
    }
}

/// The signal of an event that ends a pass.
pub open spec fn ending(event: PassEvent) -> Option<u64> {
    match event {
        PassEvent::Reused { again } => again,
        PassEvent::Submitted { signal } => Some(signal),
        _ => None,
    }
}

/// The scene after a pass that signals a fence value. A newly recorded list is
/// remembered by its fingerprint.
pub open spec fn pass_finished(
    before: RasterScene,
    after: RasterScene,
    target: u64,
    handles: Seq<u64>,
    signal: u64,
    recorded: Option<u64>,
) -> bool {
    &&& after.render_targets@ == before.render_targets@.insert(
        target,
        (super::raster::CudaRenderTarget {
            last_dx12_fence: signal,
            ..before.render_targets@[target]
        }),
    )
    &&& after_reads(before.buffers@, after.buffers@, handles, signal)
    &&& after.list_cache@ == (match recorded {
        Some(f) => before.list_cache@.insert(target, f),
        None => before.list_cache@,
    })
    &&& after.pipelines == before.pipelines
    &&& after.buffer_slots == before.buffer_slots
}

impl PassRun {
    /// What changes while the pass runs: its commands and its requirements do not, and
    /// are spoken of by themselves.
    pub open spec fn state(self) -> PassState {
        PassState {
            handles: self.handles@,
            fingerprint: self.fingerprint,
            wait: self.wait,
            shared: self.shared,
            phase: self.phase,
        }
    }

    /// The phase names a requirement or a buffer that there is.
    pub open spec fn wf(self) -> bool {
        match self.phase {
            PassPhase::Ensure { next } => next < self.requirements@.len(),
            PassPhase::Refresh { next } => next < self.handles@.len(),
            _ => true,
        }
    }

    fn go_to_list(&mut self, scene: &RasterScene)
        ensures
            final(self).state() == at_list(*scene, old(self).pass.target, old(self).state()),
            final(self).pass == old(self).pass,
            final(self).requirements == old(self).requirements,
    {
        self.phase = if can_reuse(scene, self.pass.target, self.fingerprint) {
            PassPhase::Reuse
        } else {
            PassPhase::Record
        };
    }

    fn go_to_wait(&mut self, scene: &RasterScene)
        ensures
            final(self).state() == at_wait(*scene, old(self).pass.target, old(self).state()),
            final(self).pass == old(self).pass,
            final(self).requirements == old(self).requirements,
    {
        if self.wait > 0 {
            self.phase = PassPhase::WaitQueue;
        } else {
            self.go_to_list(scene);
        }
    }

    fn go_to_refresh(&mut self, scene: &RasterScene, next: usize)
        ensures
            final(self).state() == at_refresh(
                *scene,
                old(self).pass.target,
                old(self).state(),
                next as int,
            ),
            final(self).pass == old(self).pass,
            final(self).requirements == old(self).requirements,
    {
        if next < self.handles.len() {
            let handle: u64 = self.handles[next];
            if let Some(buffer) = scene.buffers.get(&handle) {
                if let CudaPhysKind::Shared = buffer.phys_kind {
                    self.shared = true;
                }
            }
            self.phase = PassPhase::Refresh { next };
        } else if self.shared {
            self.phase = PassPhase::SyncAllocStream;
        } else {
            self.go_to_wait(scene);
        }
    }

    fn finish_ensure(&mut self, scene: &RasterScene) -> (result: Result<(), RasterError>)
        ensures
            match ensured(*scene, old(self).pass, old(self).requirements@) {
                Ok(s) => result is Ok && final(self).state() == s,
                Err(e) => result == Err::<(), RasterError>(e) && final(self).state()
                    == old(self).state(),
            },
            final(self).pass == old(self).pass,
            final(self).requirements == old(self).requirements,
    {
        let fingerprint: u64 = match raster_fingerprint(
            scene,
            self.pass.target,
            self.pass.load,
            &self.pass.commands,
            &self.pass.staging,
            self.pass.row_stride,
        ) {
            Ok(fingerprint) => fingerprint,
            Err(e) => {
                return Err(e);
            },
        };
        let mut handles = needed_buffers(&self.requirements, true);
        let mut shaders = needed_buffers(&self.requirements, false);
        handles.append(&mut shaders);
        let lags = needs_twin_sync(scene, &handles);
        self.handles = handles;
        self.fingerprint = fingerprint;
        self.wait = 0;
        self.shared = false;
        self.phase = PassPhase::SyncTwins;
        if !lags {
            self.go_to_refresh(scene, 0);
        }
        Ok(())
    }

    /// Begins a pass: its target must belong to the device, which must have a companion.
    pub fn start(scene: &RasterScene, pass: RasterPass, device_known: bool, companion: bool) -> (run: Result<
        PassRun,
        RasterError,
    >)
        ensures
            ({
                let target = pass.target;
                let requirements = pass_requirements(*scene, pass);
                if !scene.render_targets@.contains_key(target) {
                    run matches Err(e) && e == RasterError::InvalidRenderTarget
                } else if scene.render_targets@[target].device != pass.device {
                    run matches Err(e) && e == RasterError::TargetOnOtherDevice
                } else if !device_known {
                    run matches Err(e) && e == (RasterError::InvalidDevice { device: pass.device })
                } else if !companion {
                    run matches Err(e) && e == RasterError::CompanionRequired
                } else if requirements.len() == 0 {
                    match ensured(*scene, pass, requirements) {
                        Ok(s) => run matches Ok(r) && r.wf() && r.pass == pass
                            && r.requirements@ == requirements && r.state() == s,
                        Err(e) => run matches Err(f) && f == e,
                    }
                } else {
                    run matches Ok(r) && r.wf() && r.pass == pass && r.requirements@
                        == requirements && r.phase == (PassPhase::Ensure { next: 0 })
                }
            }),
    {
        match check_target(scene, pass.device, pass.target) {
            Ok(_) => {},
            Err(e) => {
                return Err(e);
            },
        }
        if !device_known {
            return Err(RasterError::InvalidDevice { device: pass.device });
        }
        if !companion {
            return Err(RasterError::CompanionRequired);
        }
        let requirements = collect_requirements(scene, &pass.commands, &pass.staging);
        let mut run = PassRun {
            pass,
            requirements,
            handles: Vec::new(),
            fingerprint: 0,
            wait: 0,
            shared: false,
            phase: PassPhase::Ensure { next: 0 },
        };
        if run.requirements.len() == 0 {
            match run.finish_ensure(scene) {
                Ok(_) => {},
                Err(e) => {
                    return Err(e);
                },
            }
        }
        Ok(run)
    }

    /// What has to be done next.
    pub fn action(&self) -> (action: PassAction)
        requires
            self.wf(),
        ensures
            action == (match self.phase {
                PassPhase::Ensure { next } => PassAction::Ensure {
                    requirement: self.requirements@[next as int],
                },
                PassPhase::SyncTwins => PassAction::SyncTwins,
                PassPhase::Refresh { next } => PassAction::Refresh {
                    buffer: self.handles@[next as int],
                },
                PassPhase::SyncAllocStream => PassAction::SyncAllocStream,
                PassPhase::WaitQueue => PassAction::WaitQueue { value: self.wait },
                PassPhase::Reuse => PassAction::Reuse { fingerprint: self.fingerprint },
                PassPhase::Record => PassAction::Record { fingerprint: self.fingerprint },
                PassPhase::Over { signal } => PassAction::Finished { signal },
            }),
    {
        match self.phase {
            PassPhase::Ensure { next } => PassAction::Ensure {
                requirement: self.requirements[next],
            },
            PassPhase::SyncTwins => PassAction::SyncTwins,
            PassPhase::Refresh { next } => PassAction::Refresh { buffer: self.handles[next] },
            PassPhase::SyncAllocStream => PassAction::SyncAllocStream,
            PassPhase::WaitQueue => PassAction::WaitQueue { value: self.wait },
            PassPhase::Reuse => PassAction::Reuse { fingerprint: self.fingerprint },
            PassPhase::Record => PassAction::Record { fingerprint: self.fingerprint },
            PassPhase::Over { signal } => PassAction::Finished { signal },
        }
    }

    /// Takes in what became of the action. The scene is as the action left it; a pass that
    /// was submitted is noted in it.
    pub fn report(&mut self, scene: &mut RasterScene, event: PassEvent) -> (result: Result<
        (),
        RasterError,
    >)
        requires
            old(self).wf(),
            answers(old(self).phase, event),
            old(scene).render_targets@.contains_key(old(self).pass.target),
        ensures
            final(self).wf(),
            final(self).pass == old(self).pass,
            final(self).requirements == old(self).requirements,
            match ending(event) {
                Some(signal) => {
                    &&& result is Ok
                    &&& final(self).state() == (PassState {
                        phase: PassPhase::Over { signal },
                        ..old(self).state()
                    })
                    &&& pass_finished(
                        *old(scene),
                        *final(scene),
                        old(self).pass.target,
                        old(self).handles@,
                        signal,
                        if event is Submitted {
                            Some(old(self).fingerprint)
                        } else {
                            None
                        },
                    )
                },
                None => {
                    &&& *final(scene) == *old(scene)
                    &&& match advanced(
                        *old(scene),
                        old(self).pass,
                        old(self).requirements@,
                        old(self).state(),
                        event,
                    ) {
                        Ok(s) => result is Ok && final(self).state() == s,
                        Err(e) => result == Err::<(), RasterError>(e) && final(self).state()
                            == old(self).state(),
                    }
                },
            },
    {
        match event {
            PassEvent::Reused { again } => {
                match again {
                    Some(signal) => {
                        finish_pass(scene, self.pass.target, &self.handles, signal, None);
                        self.phase = PassPhase::Over { signal };
                    },
                    None => {
                        self.phase = PassPhase::Record;
                    },
                }
                Ok(())
            },
            PassEvent::Submitted { signal } => {
                finish_pass(
                    scene,
                    self.pass.target,
                    &self.handles,
                    signal,
                    Some(self.fingerprint),
                );
                self.phase = PassPhase::Over { signal };
                Ok(())
            },
            PassEvent::Refreshed { fence } => {
                if fence > self.wait {
                    self.wait = fence;
                }
                if let PassPhase::Refresh { next } = self.phase {
                    let total: usize = self.handles.len();
                    assert(next < total);
                    self.go_to_refresh(scene, next + 1);
                }
                Ok(())
            },
            PassEvent::Performed => {
                match self.phase {
                    PassPhase::Ensure { next } => {
                        let total: usize = self.requirements.len();
                        assert(next < total);
                        if next + 1 < total {
                            self.phase = PassPhase::Ensure { next: next + 1 };
                            Ok(())
                        } else {
                            self.finish_ensure(scene)
                        }
                    },
                    PassPhase::SyncTwins => {
                        self.go_to_refresh(scene, 0);
                        Ok(())
                    },
                    PassPhase::SyncAllocStream => {
                        self.go_to_wait(scene);
                        Ok(())
                    },
                    PassPhase::WaitQueue => {
                        self.go_to_list(scene);
                        Ok(())
                    },
                    _ => Ok(()),
                }
            },
        }
    }
}

/// A list runs only once every buffer of the pass was made ready, the stream that
/// allocates was waited for where it had to be, and the queue waits for the largest fence
/// value that a buffer was made ready under.
pub proof fn lists_run_after_their_buffers(
    scene: RasterScene,
    pass: RasterPass,
    requirements: Seq<Requirement>,
    s: PassState,
    event: PassEvent,
)
    requires
        answers(s.phase, event),
        ending(event) is None,
        advanced(scene, pass, requirements, s, event) is Ok,
    ensures
        ({
            let after = advanced(scene, pass, requirements, s, event)->Ok_0;
            after.phase is Reuse || after.phase is Record ==> {
                ||| s.phase is WaitQueue
                ||| s.phase is Reuse
                ||| after.wait == 0 && (s.phase is SyncAllocStream || !after.shared) && (
                s.phase matches PassPhase::Refresh { next } ==> next + 1 >= s.handles.len()) && (
                s.phase is SyncTwins || s.phase is Ensure ==> after.handles.len() == 0)
            }
        }),
{
}

/// The fence value that the queue waits for is at least that of every buffer.
pub proof fn waits_only_grow(
    scene: RasterScene,
    pass: RasterPass,
    requirements: Seq<Requirement>,
    s: PassState,
    event: PassEvent,
)
    requires
        answers(s.phase, event),
        ending(event) is None,
        !(s.phase is Ensure),
        advanced(scene, pass, requirements, s, event) is Ok,
    ensures
        ({
            let after = advanced(scene, pass, requirements, s, event)->Ok_0;
            &&& after.wait >= s.wait
            &&& event matches PassEvent::Refreshed { fence } ==> after.wait >= fence
            &&& s.shared ==> after.shared
            &&& after.handles == s.handles
            &&& after.fingerprint == s.fingerprint
        }),
{
}

/// After a pass every buffer that it read is guarded by its signal.
pub proof fn finished_pass_guards_its_buffers(
    before: RasterScene,
    after: RasterScene,
    target: u64,
    handles: Seq<u64>,
    signal: u64,
    recorded: Option<u64>,
    i: int,
)
    requires
        pass_finished(before, after, target, handles, signal, recorded),
        0 <= i < handles.len(),
        before.buffers@.contains_key(handles[i]),
    ensures
        after.buffers@.contains_key(handles[i]),
        after.buffers@[handles[i]].shared matches Some(shared) ==> shared.last_dx12_ia_fence
            >= signal,
        after.render_targets@[target].last_dx12_fence == signal,
{
    assert(handles.contains(handles[i]));
    assert(after.buffers@.dom().contains(handles[i]));
    assert(after.buffers@[handles[i]] == read_under(before.buffers@[handles[i]], signal));
}

proof fn lemma_reads_keep_keys(
    before: RasterScene,
    after: RasterScene,
    handles: Seq<u64>,
    signal: u64,
    commands: Seq<RenderCommand>,
)
    requires
        after_reads(before.buffers@, after.buffers@, handles, signal),
        after.pipelines == before.pipelines,
    ensures
        commands_key(after, commands) == commands_key(before, commands),
    decreases commands.len(),
{
    if commands.len() > 0 {
        lemma_reads_keep_keys(before, after, handles, signal, commands.drop_last());
        assert forall|b: u64| #[trigger]
            after.buffers@.contains_key(b) == before.buffers@.contains_key(b) by {
            assert(after.buffers@.dom().contains(b) == before.buffers@.dom().contains(b));
        }
        match commands.last() {
            RenderCommand::SetVertexBuffer { slot, buffer, offset } => {
                assert(after.buffers@.contains_key(buffer) == before.buffers@.contains_key(buffer));
            },
            RenderCommand::SetIndexBuffer { buffer, offset, format } => {
                assert(after.buffers@.contains_key(buffer) == before.buffers@.contains_key(buffer));
            },
            _ => {},
        }
    }
}

/// A pass that was recorded and comes again, with the contents of its buffers unchanged,
/// has the same fingerprint and runs the list recorded before.
pub proof fn repeated_pass_reuses_its_list(
    before: RasterScene,
    after: RasterScene,
    pass: RasterPass,
    handles: Seq<u64>,
    signal: u64,
    key: Seq<u64>,
    s: PassState,
)
    requires
        pass_key(
            before,
            pass.target,
            pass.load,
            pass.commands@,
            pass.staging@,
            pass.row_stride as nat,
        ) == Ok::<Seq<u64>, RasterError>(key),
        pass_finished(before, after, pass.target, handles, signal, Some(key_fingerprint(key))),
        s.fingerprint == key_fingerprint(key),
    ensures
        pass_key(
            after,
            pass.target,
            pass.load,
            pass.commands@,
            pass.staging@,
            pass.row_stride as nat,
        ) == Ok::<Seq<u64>, RasterError>(key),
        at_list(after, pass.target, s).phase is Reuse,
{
    lemma_reads_keep_keys(before, after, handles, signal, pass.commands@);
}

} // verus!
