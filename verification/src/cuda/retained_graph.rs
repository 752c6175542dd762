//! Captured graphs that are kept for relaunch, and what became of them.

use std::collections::HashMap;
use vstd::prelude::*;

use super::ops::Pins;
use crate::dx12::context::lemma_take_to_set;

verus! {

broadcast use vstd::std_specs::hash::group_hash_axioms;

/// Counters of captures, launches, fallbacks and evictions.
#[derive(Clone, Copy, Debug, PartialEq, Eq, Structural)]
pub struct CudaGraphStats {
    pub captures: u64,
    pub launches: u64,
    pub fallbacks: u64,
    pub evictions: u64,
}

/// The counters at one moment.
#[derive(Clone, Copy, Debug, PartialEq, Eq, Structural)]
pub struct CudaGraphStatsSnapshot {
    pub captures: u64,
    pub launches: u64,
    pub fallbacks: u64,
    pub evictions: u64,
}

/// A counter after one more event: it wraps around.
pub open spec fn counted(count: u64, events: nat) -> u64 {
    ((count + events) % 0x1_0000_0000_0000_0000) as u64
}

impl Default for CudaGraphStats {
    fn default() -> (stats: Self)
        ensures
            stats == (CudaGraphStats { captures: 0, launches: 0, fallbacks: 0, evictions: 0 }),
    {
        CudaGraphStats { captures: 0, launches: 0, fallbacks: 0, evictions: 0 }
    }
}

impl CudaGraphStats {
    /// Reads the counters.
    pub fn snapshot(&self) -> (snapshot: CudaGraphStatsSnapshot)
        ensures
            snapshot == (CudaGraphStatsSnapshot {
                captures: self.captures,
                launches: self.launches,
                fallbacks: self.fallbacks,
                evictions: self.evictions,
            }),
    {
        CudaGraphStatsSnapshot {
            captures: self.captures,
            launches: self.launches,
            fallbacks: self.fallbacks,
            evictions: self.evictions,
        }
    }

    /// Sets every counter to zero.
    pub fn reset(&mut self)
        ensures
            *final(self) == (CudaGraphStats { captures: 0, launches: 0, fallbacks: 0, evictions: 0 }),
    {
        self.captures = 0;
        self.launches = 0;
        self.fallbacks = 0;
        self.evictions = 0;
    }

    /// Counts a capture.
    pub fn count_capture(&mut self)
        ensures
            *final(self) == (CudaGraphStats { captures: counted(old(self).captures, 1), ..*old(self) }),
    {
        self.captures = self.captures.wrapping_add(1);
    }

    /// Counts a launch of a graph.
    pub fn count_launch(&mut self)
        ensures
            *final(self) == (CudaGraphStats { launches: counted(old(self).launches, 1), ..*old(self) }),
    {
        self.launches = self.launches.wrapping_add(1);
    }

    /// Counts an eviction.
    pub fn count_eviction(&mut self)
        ensures
            *final(self) == (CudaGraphStats { evictions: counted(old(self).evictions, 1), ..*old(self) }),
    {
        self.evictions = self.evictions.wrapping_add(1);
    }
}

/// One captured graph island with the resources that it refers to.
pub struct CudaRetainedPartition {
    pub graph: u64,
    pub pins: Pins,
    /// Timeline value of its last launch.
    pub last_launch_tv: u64,
}

/// The captured islands of one partition.
pub struct CudaRetainedProgram {
    pub islands: Vec<CudaRetainedPartition>,
    /// Timeline value of the last launch of any island.
    pub last_launch_tv: u64,
}

/// A context and a partition key as one number.
pub open spec fn packed(ctx: u64, key: u64) -> u128 {
    (ctx * 0x1_0000_0000_0000_0000 + key) as u128
}

/// Two pairs of context and key that are packed alike are alike.
pub proof fn packing_is_injective(ctx: u64, key: u64, ctx2: u64, key2: u64)
    requires
        packed(ctx, key) == packed(ctx2, key2),
    ensures
        ctx == ctx2,
        key == key2,
{
}

/// Packs a context and a partition key.
pub(crate) fn pack(ctx: u64, key: u64) -> (k: u128)
    ensures
        k == packed(ctx, key),
        k / 0x1_0000_0000_0000_0000 == ctx,
{
    ctx as u128 * 0x1_0000_0000_0000_0000 + key as u128
}

/// A program that waits for its last launch to retire before it is dropped.
pub struct PendingDrop {
    pub retire_at: u64,
    pub program: CudaRetainedProgram,
}

/// What a registry holds.
#[verifier::ext_equal]
pub struct RegistryView {
    /// Programs by context and partition key.
    pub graphs: Map<(u64, u64), CudaRetainedProgram>,
    /// Programs that were removed and may still run, oldest removal first.
    pub pending_drops: Seq<PendingDrop>,
}

/// Retained programs by context and partition key, and removed programs that may
/// still run.
pub struct GraphRegistry {
    graphs: HashMap<u128, CudaRetainedProgram>,
    pending_drops: Vec<PendingDrop>,
}

/// The programs that may still run once a timeline value has retired.
pub open spec fn unretired(pending: Seq<PendingDrop>, retired: u64) -> Seq<PendingDrop> {
    pending.filter(|p: PendingDrop| p.retire_at > retired)
}

/// The programs of other contexts.
pub open spec fn of_other_contexts(
    graphs: Map<(u64, u64), CudaRetainedProgram>,
    ctx: u64,
) -> Map<(u64, u64), CudaRetainedProgram> {
    graphs.remove_keys(graphs.dom().filter(|k: (u64, u64)| k.0 == ctx))
}

/// `removed` holds the programs of a context, each once, in the order of `keys`.
pub open spec fn lists_context(
    graphs: Map<(u64, u64), CudaRetainedProgram>,
    ctx: u64,
    keys: Seq<u64>,
    removed: Seq<CudaRetainedProgram>,
) -> bool {
    &&& keys.no_duplicates()
    &&& forall|key: u64| #[trigger] keys.contains(key) <==> graphs.contains_key((ctx, key))
    &&& removed.len() == keys.len()
    &&& forall|i: int| 0 <= i < keys.len() ==> #[trigger] removed[i] == graphs[(ctx, keys[i])]
}

/// The pending drops of programs whose last launch, or `fallback` where that is
/// later, has to retire first.
pub open spec fn deferred(programs: Seq<CudaRetainedProgram>, fallback: u64) -> Seq<PendingDrop> {
    Seq::new(
        programs.len(),
        |i: int|
            PendingDrop {
                retire_at: if programs[i].last_launch_tv >= fallback {
                    programs[i].last_launch_tv
                } else {
                    fallback
                },
                program: programs[i],
            },
    )
}

impl View for GraphRegistry {
    type V = RegistryView;

    closed spec fn view(&self) -> RegistryView {
        RegistryView {
            graphs: Map::new(
                |k: (u64, u64)| self.graphs@.contains_key(packed(k.0, k.1)),
                |k: (u64, u64)| self.graphs@[packed(k.0, k.1)],
            ),
            pending_drops: self.pending_drops@,
        }
    }
}

/// The registry after a program was removed and its drop deferred.
pub open spec fn evicted(view: RegistryView, ctx: u64, key: u64, retired: u64, fallback: u64) -> RegistryView {
    let drained = unretired(view.pending_drops, retired);
    if view.graphs.contains_key((ctx, key)) {
        RegistryView {
            graphs: view.graphs.remove((ctx, key)),
            pending_drops: drained + deferred(seq![view.graphs[(ctx, key)]], fallback),
        }
    } else {
        RegistryView { graphs: view.graphs, pending_drops: drained }
    }
}

/// The later of two timeline values.
pub fn later(a: u64, b: u64) -> (value: u64)
    ensures
        value == (if a >= b {
            a
        } else {
            b
        }),
{
    if a >= b {
        a
    } else {
        b
    }
}

impl GraphRegistry {
    /// An empty registry.
    pub fn new() -> (registry: Self)
        ensures
            registry@ == (RegistryView { graphs: Map::empty(), pending_drops: Seq::empty() }),
    {
        let registry = GraphRegistry { graphs: HashMap::new(), pending_drops: Vec::new() };
        assert(registry@.graphs =~= Map::empty());
        registry
    }

    /// Keeps a program, in place of the one that was kept under the same key.
    pub fn insert(&mut self, ctx: u64, key: u64, program: CudaRetainedProgram)
        ensures
            final(self)@ == (RegistryView {
                graphs: old(self)@.graphs.insert((ctx, key), program),
                ..old(self)@
            }),
    {
        self.graphs.insert(pack(ctx, key), program);
        proof {
            assert forall|c: u64, k: u64| packed(c, k) == packed(ctx, key) implies c == ctx && k
                == key by {
                packing_is_injective(c, k, ctx, key);
            }
            assert(self@.graphs =~= old(self)@.graphs.insert((ctx, key), program));
        }
    }

    /// The program kept under a key.
    pub fn get(&self, ctx: u64, key: u64) -> (program: Option<&CudaRetainedProgram>)
        ensures
            program == (if self@.graphs.contains_key((ctx, key)) {
                Some(&self@.graphs[(ctx, key)])
            } else {
                None
            }),
    {
        self.graphs.get(&pack(ctx, key))
    }

    /// Removes a program.
    pub fn remove(&mut self, ctx: u64, key: u64) -> (program: Option<CudaRetainedProgram>)
        ensures
            final(self)@ == (RegistryView {
                graphs: old(self)@.graphs.remove((ctx, key)),
                ..old(self)@
            }),
            program == (if old(self)@.graphs.contains_key((ctx, key)) {
                Some(old(self)@.graphs[(ctx, key)])
            } else {
                None
            }),
    {
        let program = self.graphs.remove(&pack(ctx, key));
        proof {
            assert forall|c: u64, k: u64| packed(c, k) == packed(ctx, key) implies c == ctx && k
                == key by {
                packing_is_injective(c, k, ctx, key);
            }
            assert(self@.graphs =~= old(self)@.graphs.remove((ctx, key)));
        }
        program
    }

    fn context_keys(&self, ctx: u64) -> (keys: Vec<u64>)
        ensures
            keys@.no_duplicates(),
            forall|key: u64| #[trigger]
                keys@.contains(key) <==> self@.graphs.contains_key((ctx, key)),
    {
        let mut keys: Vec<u64> = Vec::new();
        let ghost all = self.graphs@;
        for entry in iter: self.graphs.iter()
            invariant
                all == self.graphs@,
                iter.seq().no_duplicates(),
                forall|i: int|
                    0 <= i < iter.seq().len() ==> all.contains_key(*(#[trigger] iter.seq()[i]).0)
                        && all[*iter.seq()[i].0] == *iter.seq()[i].1,
                forall|k: u128| #[trigger] all.contains_key(k) ==> iter.seq().contains((&k, &all[k])),
                forall|key: u64| #[trigger]
                    keys@.contains(key) ==> all.contains_key(packed(ctx, key)) && exists|i: int|
                        0 <= i < iter.index() && *(#[trigger] iter.seq()[i]).0 == packed(ctx, key),
                forall|i: int, key: u64|
                    0 <= i < iter.index() && *(#[trigger] iter.seq()[i]).0 == #[trigger] packed(
                        ctx,
                        key,
                    ) ==> keys@.contains(key),
                keys@.no_duplicates(),
        {
            let ghost before = keys@;
            let k: u128 = *entry.0;
            let c: u64 = (k / 0x1_0000_0000_0000_0000) as u64;
            let key: u64 = (k % 0x1_0000_0000_0000_0000) as u64;
            assert(k == packed(c, key));
            if c == ctx {
                proof {
                    if before.contains(key) {
                        let i = choose|i: int|
                            0 <= i < iter.index() && *(#[trigger] iter.seq()[i]).0 == packed(ctx, key);
                        assert(iter.seq()[i] == iter.seq()[iter.index() as int]);
                    }
                }
                keys.push(key);
                assert(keys@[before.len() as int] == key);
            }
            assert forall|x: u64| before.contains(x) implies #[trigger] keys@.contains(x) by {
                let i = choose|i: int| 0 <= i < before.len() && before[i] == x;
                assert(keys@[i] == x);
            }
            assert forall|x: u64| #[trigger] keys@.contains(x) implies all.contains_key(packed(ctx, x))
                && exists|i: int|
                0 <= i < iter.index() + 1 && *(#[trigger] iter.seq()[i]).0 == packed(ctx, x) by {
                if before.contains(x) {
                    let i = choose|i: int|
                        0 <= i < iter.index() && *(#[trigger] iter.seq()[i]).0 == packed(ctx, x);
                    assert(*iter.seq()[i].0 == packed(ctx, x));
                } else {
                    let j = choose|j: int| 0 <= j < keys@.len() && keys@[j] == x;
                    assert(j == before.len());
                    assert(*iter.seq()[iter.index() as int].0 == packed(ctx, x));
                }
            }
            assert forall|i: int, x: u64|
                0 <= i < iter.index() + 1 && *(#[trigger] iter.seq()[i]).0 == #[trigger] packed(
                    ctx,
                    x,
                ) implies keys@.contains(x) by {
                if i == iter.index() {
                    packing_is_injective(ctx, x, c, key);
                } else {
                    assert(before.contains(x));
                }
            }
        }
        assert forall|key: u64| #[trigger] keys@.contains(key) <==> self@.graphs.contains_key(
            (ctx, key),
        ) by {
            if all.contains_key(packed(ctx, key)) {
                assert(keys@.contains(key));
            }
        }
        keys
    }

    /// Removes the programs of a context, in no particular order.
    pub fn remove_context(&mut self, ctx: u64) -> (removed: Vec<CudaRetainedProgram>)
        ensures
            final(self)@ == (RegistryView {
                graphs: of_other_contexts(old(self)@.graphs, ctx),
                ..old(self)@
            }),
            exists|keys: Seq<u64>| #[trigger] lists_context(old(self)@.graphs, ctx, keys, removed@),
    {
        let keys = self.context_keys(ctx);
        let mut removed: Vec<CudaRetainedProgram> = Vec::new();
        let ghost start = self@;
        let mut i: usize = 0;
        let ghost gone = |n: int| Set::new(|k: (u64, u64)| k.0 == ctx && keys@.take(n).contains(k.1));
        assert(start.graphs.remove_keys(gone(0)) =~= start.graphs);
        while i < keys.len()
            invariant
                i <= keys.len(),
                keys@.no_duplicates(),
                forall|key: u64| #[trigger]
                    keys@.contains(key) <==> start.graphs.contains_key((ctx, key)),
                gone == (|n: int| Set::new(|k: (u64, u64)| k.0 == ctx && keys@.take(n).contains(k.1))),
                self@ == (RegistryView { graphs: start.graphs.remove_keys(gone(i as int)), ..start }),
                removed@.len() == i,
                forall|j: int|
                    0 <= j < i ==> #[trigger] removed@[j] == start.graphs[(ctx, keys@[j])],
            decreases keys.len() - i,
        {
            proof {
                lemma_take_to_set(keys@, i as int);
                assert(keys@.contains(keys@[i as int]));
                assert forall|x: u64| #[trigger] keys@.take(i + 1).contains(x) <==> keys@.take(
                    i as int,
                ).contains(x) || x == keys@[i as int] by {
                    assert(keys@.take(i + 1).to_set().contains(x) == keys@.take(
                        i as int,
                    ).to_set().insert(keys@[i as int]).contains(x));
                }
                assert(!keys@.take(i as int).to_set().contains(keys@[i as int]));
                assert(start.graphs.remove_keys(gone(i as int)).remove((ctx, keys@[i as int]))
                    =~= start.graphs.remove_keys(gone(i + 1)));
            }
            match self.remove(ctx, keys[i]) {
                Some(program) => {
                    removed.push(program);
                },
                None => {},
            }
            i += 1;
        }
        proof {
            assert(keys@.take(i as int) =~= keys@);
            assert(self@.graphs =~= of_other_contexts(start.graphs, ctx));
            assert(lists_context(start.graphs, ctx, keys@, removed@));
        }
        removed
    }

    /// Drops a program once a timeline value has retired.
    pub fn defer_drop(&mut self, retire_at: u64, program: CudaRetainedProgram)
        ensures
            final(self)@ == (RegistryView {
                pending_drops: old(self)@.pending_drops.push(PendingDrop { retire_at, program }),
                ..old(self)@
            }),
    {
        self.pending_drops.push(PendingDrop { retire_at, program });
        assert(self@.graphs =~= old(self)@.graphs);
    }

    /// Takes out the programs whose last launch has retired, in the order of their
    /// removal, to be dropped.
    pub fn drain_retired(&mut self, retired: u64) -> (dropped: Vec<PendingDrop>)
        ensures
            final(self)@ == (RegistryView {
                pending_drops: unretired(old(self)@.pending_drops, retired),
                ..old(self)@
            }),
            dropped@ == old(self)@.pending_drops.filter(|p: PendingDrop| p.retire_at <= retired),
    {
        let ghost all = self.pending_drops@;
        let mut kept: Vec<PendingDrop> = Vec::new();
        let mut dropped: Vec<PendingDrop> = Vec::new();
        let mut pending: Vec<PendingDrop> = Vec::new();
        std::mem::swap(&mut pending, &mut self.pending_drops);
        let ghost keep = |p: PendingDrop| p.retire_at > retired;
        let ghost shed = |p: PendingDrop| p.retire_at <= retired;
        proof {
            assert(all.take(0) =~= Seq::empty());
            reveal(Seq::filter);
        }
        for entry in iter: pending
            invariant
                iter.seq() == all,
                keep == (|p: PendingDrop| p.retire_at > retired),
                shed == (|p: PendingDrop| p.retire_at <= retired),
                kept@ == all.take(iter.index() as int).filter(keep),
                dropped@ == all.take(iter.index() as int).filter(shed),
        {
            proof {
                reveal(Seq::filter);
                let n = iter.index() as int;
                assert(all.take(n + 1).drop_last() =~= all.take(n));
                assert(all.take(n + 1).last() == entry);
            }
            if entry.retire_at > retired {
                kept.push(entry);
            } else {
                dropped.push(entry);
            }
        }
        assert(all.take(all.len() as int) =~= all);
        self.pending_drops = kept;
        assert(self@.graphs =~= old(self)@.graphs);
        dropped
    }

    /// Removes a program and defers its drop until its last launch, or `fallback`
    /// where that is later, has retired. Takes out what may be dropped by now.
    pub fn evict_retained(
        &mut self,
        stats: &mut CudaGraphStats,
        ctx: u64,
        key: u64,
        retired: u64,
        fallback: u64,
    ) -> (dropped: Vec<PendingDrop>)
        ensures
            final(self)@ == evicted(old(self)@, ctx, key, retired, fallback),
            dropped@ == old(self)@.pending_drops.filter(|p: PendingDrop| p.retire_at <= retired),
            *final(stats) == (CudaGraphStats {
                evictions: if old(self)@.graphs.contains_key((ctx, key)) {
                    counted(old(stats).evictions, 1)
                } else {
                    old(stats).evictions
                },
                ..*old(stats)
            }),
    {
        let dropped = self.drain_retired(retired);
        match self.remove(ctx, key) {
            Some(program) => {
                let retire_at: u64 = later(program.last_launch_tv, fallback);
                self.defer_drop(retire_at, program);
                stats.count_eviction();
            },
            None => {},
        }
        assert(self@ =~= evicted(old(self)@, ctx, key, retired, fallback));
        dropped
    }

    /// Removes the programs of a context and defers their drops.
    pub fn evict_context_graphs(
        &mut self,
        stats: &mut CudaGraphStats,
        ctx: u64,
        retired: u64,
        fallback: u64,
    ) -> (dropped: Vec<PendingDrop>)
        ensures
            final(self)@.graphs == of_other_contexts(old(self)@.graphs, ctx),
            dropped@ == old(self)@.pending_drops.filter(|p: PendingDrop| p.retire_at <= retired),
            exists|keys: Seq<u64>, removed: Seq<CudaRetainedProgram>|
                {
                    &&& #[trigger] lists_context(old(self)@.graphs, ctx, keys, removed)
                    &&& final(self)@.pending_drops == unretired(old(self)@.pending_drops, retired)
                        + deferred(removed, fallback)
                    &&& *final(stats) == (CudaGraphStats {
                        evictions: counted(old(stats).evictions, removed.len()),
                        ..*old(stats)
                    })
                },
    {
        let dropped = self.drain_retired(retired);
        let removed = self.remove_context(ctx);
        let ghost all = removed@;
        let ghost mid = self@;
        let ghost count = stats.evictions;
        assert(mid.pending_drops + deferred(all.take(0), fallback) =~= mid.pending_drops);
        for program in iter: removed
            invariant
                iter.seq() == all,
                self@.graphs == mid.graphs,
                self@.pending_drops == mid.pending_drops + deferred(
                    all.take(iter.index() as int),
                    fallback,
                ),
                *stats == (CudaGraphStats {
                    evictions: counted(count, iter.index() as nat),
                    ..*old(stats)
                }),
        {
            let retire_at: u64 = later(program.last_launch_tv, fallback);
            self.defer_drop(retire_at, program);
            stats.count_eviction();
            proof {
                let n = iter.index() as int;
                assert(all.take(n + 1)[n] == program);
                assert(mid.pending_drops + deferred(all.take(n + 1), fallback) =~= (
                mid.pending_drops + deferred(all.take(n), fallback)).push(
                    PendingDrop { retire_at, program },
                ));
            }
        }
        assert(all.take(all.len() as int) =~= all);
        dropped
    }

    /// Keeps a newly captured program. The one kept before under the same key is
    /// dropped once its last launch and this submission have retired.
    pub fn replace(
        &mut self,
        ctx: u64,
        key: u64,
        retired: u64,
        fence: u64,
        program: CudaRetainedProgram,
    ) -> (dropped: Vec<PendingDrop>)
        ensures
            ({
                let freed = evicted(old(self)@, ctx, key, retired, fence);
                final(self)@ == (RegistryView {
                    graphs: freed.graphs.insert((ctx, key), program),
                    ..freed
                })
            }),
            dropped@ == old(self)@.pending_drops.filter(|p: PendingDrop| p.retire_at <= retired),
    {
        let dropped = self.drain_retired(retired);
        match self.remove(ctx, key) {
            Some(old_program) => {
                let retire_at: u64 = later(old_program.last_launch_tv, fence);
                self.defer_drop(retire_at, old_program);
            },
            None => {},
        }
        assert(self@ =~= evicted(old(self)@, ctx, key, retired, fence));
        self.insert(ctx, key, program);
        dropped
    }
}

/// A program with one island launched once more.
pub open spec fn relaunched(
    before: CudaRetainedProgram,
    after: CudaRetainedProgram,
    island: int,
    fence: u64,
) -> bool {
    &&& after.last_launch_tv == fence
    &&& after.islands@ == before.islands@.update(
        island,
        CudaRetainedPartition { last_launch_tv: fence, ..before.islands@[island] },
    )
}

/// Why a retained island cannot be launched.
#[derive(Clone, Copy, Debug, PartialEq, Eq, Structural)]
pub enum RelaunchError {
    MissingProgram { ctx: u64, key: u64 },
    MissingIsland { ctx: u64, key: u64, island: usize },
}

/// The graph of a retained island.
pub open spec fn island_graph(view: RegistryView, ctx: u64, key: u64, island: usize) -> Result<
    u64,
    RelaunchError,
> {
    if !view.graphs.contains_key((ctx, key)) {
        Err(RelaunchError::MissingProgram { ctx, key })
    } else if island >= view.graphs[(ctx, key)].islands@.len() {
        Err(RelaunchError::MissingIsland { ctx, key, island })
    } else {
        Ok(view.graphs[(ctx, key)].islands@[island as int].graph)
    }
}

impl GraphRegistry {
    /// The graph to launch for a retained island.
    pub fn island_to_launch(&self, ctx: u64, key: u64, island: usize) -> (graph: Result<
        u64,
        RelaunchError,
    >)
        ensures
            graph == island_graph(self@, ctx, key, island),
    {
        match self.get(ctx, key) {
            Some(program) => if island < program.islands.len() {
                Ok(program.islands[island].graph)
            } else {
                Err(RelaunchError::MissingIsland { ctx, key, island })
            },
            None => Err(RelaunchError::MissingProgram { ctx, key }),
        }
    }

    /// Notes that an island was launched.
    pub fn mark_launched(&mut self, ctx: u64, key: u64, island: usize, fence: u64)
        requires
            island_graph(old(self)@, ctx, key, island) is Ok,
        ensures
            final(self)@.pending_drops == old(self)@.pending_drops,
            final(self)@.graphs.dom() == old(self)@.graphs.dom(),
            forall|k: (u64, u64)|
                k != (ctx, key) ==> #[trigger] final(self)@.graphs[k] == old(self)@.graphs[k],
            relaunched(
                old(self)@.graphs[(ctx, key)],
                final(self)@.graphs[(ctx, key)],
                island as int,
                fence,
            ),
    {
        match self.remove(ctx, key) {
            Some(mut program) => {
                let ghost before = program;
                program.islands[island].last_launch_tv = fence;
                program.last_launch_tv = fence;
                assert(relaunched(before, program, island as int, fence));
                self.insert(ctx, key, program);
                assert(self@.graphs.dom() =~= old(self)@.graphs.dom());
            },
            None => {},
        }
    }
}

/// Every program that waits to be dropped waits at least for its last launch.
pub open spec fn drops_wait_for_launches(view: RegistryView) -> bool {
    forall|i: int|
        0 <= i < view.pending_drops.len() ==> (#[trigger] view.pending_drops[i]).retire_at
            >= view.pending_drops[i].program.last_launch_tv
}

/// Eviction keeps every removed program waiting at least for its last launch.
pub proof fn eviction_waits_for_launches(
    view: RegistryView,
    ctx: u64,
    key: u64,
    retired: u64,
    fallback: u64,
)
    requires
        drops_wait_for_launches(view),
    ensures
        drops_wait_for_launches(evicted(view, ctx, key, retired, fallback)),
{
    let keep = |p: PendingDrop| p.retire_at > retired;
    let drained = unretired(view.pending_drops, retired);
    assert forall|i: int| 0 <= i < drained.len() implies (#[trigger] drained[i]).retire_at
        >= drained[i].program.last_launch_tv by {
        assert(drained.contains(drained[i]));
        view.pending_drops.lemma_filter_contains_rev(keep, drained[i]);
        assert(view.pending_drops.contains(drained[i]));
    }
}

/// A program is dropped only once its last launch has retired.
pub proof fn dropped_programs_have_retired(view: RegistryView, retired: u64)
    requires
        drops_wait_for_launches(view),
    ensures
        ({
            let dropped = view.pending_drops.filter(|p: PendingDrop| p.retire_at <= retired);
            forall|i: int|
                0 <= i < dropped.len() ==> (#[trigger] dropped[i]).program.last_launch_tv <= retired
        }),
{
    let shed = |p: PendingDrop| p.retire_at <= retired;
    let dropped = view.pending_drops.filter(shed);
    assert forall|i: int| 0 <= i < dropped.len() implies (#[trigger] dropped[i]).program.last_launch_tv
        <= retired by {
        assert(dropped.contains(dropped[i]));
        view.pending_drops.lemma_filter_contains_rev(shed, dropped[i]);
        view.pending_drops.lemma_filter_pred(shed, i);
        assert(view.pending_drops.contains(dropped[i]));
        assert(shed(dropped[i]));
    }
}

/// Whether launches block until they are done, which captures cannot abide, from
/// the setting of `CUDA_LAUNCH_BLOCKING`.
pub fn cuda_launch_blocking_active(setting: &Option<String>) -> (active: bool)
    ensures
        active == (setting is Some && setting->Some_0@ != seq!['0']),
{
    match setting {
        Some(value) => {
            let text = value.as_str();
            assert(text@.len() == 1 && text@[0] == '0' ==> text@ =~= seq!['0']);
            !(text.unicode_len() == 1 && text.get_char(0) == '0')
        },
        None => false,
    }
}

} // verus!
