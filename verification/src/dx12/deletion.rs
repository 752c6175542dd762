//! Deferred deletion: objects that wait for a fence value before they are
//! released.

use vstd::prelude::*;

verus! {

/// Objects that wait for their fence values, in the order in which they were
/// queued.
pub struct DeletionQueue<T> {
    pub entries: Vec<(u64, T)>,
}

impl<T> View for DeletionQueue<T> {
    type V = Seq<(u64, T)>;

    open spec fn view(&self) -> Seq<(u64, T)> {
        self.entries@
    }
}

/// The queued objects whose fence value has been reached, in order.
pub open spec fn reached<T>(entries: Seq<(u64, T)>, completed: u64) -> Seq<T>
    decreases entries.len(),
{
    if entries.len() == 0 {
        Seq::empty()
    } else if entries.last().0 <= completed {
        reached(entries.drop_last(), completed).push(entries.last().1)
    } else {
        reached(entries.drop_last(), completed)
    }
}

/// The entries whose fence value has not been reached, in order.
pub open spec fn outstanding<T>(entries: Seq<(u64, T)>, completed: u64) -> Seq<(u64, T)>
    decreases entries.len(),
{
    if entries.len() == 0 {
        Seq::empty()
    } else if entries.last().0 <= completed {
        outstanding(entries.drop_last(), completed)
    } else {
        outstanding(entries.drop_last(), completed).push(entries.last())
    }
}

impl<T> DeletionQueue<T> {
    /// A queue with nothing waiting.
    pub fn new() -> (queue: DeletionQueue<T>)
        ensures
            queue@ == Seq::<(u64, T)>::empty(),
    {
        DeletionQueue { entries: Vec::new() }
    }

    /// Queues an object until `fence_value` is reached.
    pub fn queue(&mut self, fence_value: u64, object: T)
        ensures
            final(self)@ == old(self)@.push((fence_value, object)),
    {
        self.entries.push((fence_value, object));
    }

    /// How many items wait.
    pub fn pending_len(&self) -> (len: usize)
        ensures
            len == self@.len(),
    {
        self.entries.len()
    }

    /// Takes out every object whose fence value has been reached.
    pub fn drain_up_to_completed(&mut self, completed: u64) -> (batch: Vec<T>)
        ensures
            batch@ == reached(old(self)@, completed),
            final(self)@ == outstanding(old(self)@, completed),
    {
        let mut kept: Vec<(u64, T)> = Vec::new();
        let mut batch: Vec<T> = Vec::new();
        let mut entries: Vec<(u64, T)> = Vec::new();
        entries.append(&mut self.entries);
        let ghost all = old(self)@;
        for entry in iter: entries
            invariant
                iter.seq() == all,
                batch@ == reached(all.take(iter.index()), completed),
                kept@ == outstanding(all.take(iter.index()), completed),
        {
            assert(all.take(iter.index() + 1).drop_last() =~= all.take(iter.index()));
            let (fence_value, object) = entry;
            if fence_value <= completed {
                batch.push(object);
            } else {
                kept.push((fence_value, object));
            }
        }
        assert(all.take(all.len() as int) =~= all);
        self.entries = kept;
        batch
    }

    /// Takes out everything, whatever has been reached.
    pub fn drain_everything(&mut self) -> (batch: Vec<T>)
        ensures
            batch@ == old(self)@.map_values(|e: (u64, T)| e.1),
            final(self)@ == Seq::<(u64, T)>::empty(),
    {
        let mut batch: Vec<T> = Vec::new();
        let mut entries: Vec<(u64, T)> = Vec::new();
        entries.append(&mut self.entries);
        let ghost all = old(self)@;
        for entry in iter: entries
            invariant
                iter.seq() == all,
                batch@ == all.take(iter.index()).map_values(|e: (u64, T)| e.1),
        {
            batch.push(entry.1);
            assert(batch@ =~= all.take(iter.index() + 1).map_values(|e: (u64, T)| e.1));
        }
        assert(all.take(all.len() as int) =~= all);
        batch
    }
}

/// Draining loses nothing and invents nothing: each entry is either released or
/// kept.
pub proof fn drain_splits_the_queue<T>(entries: Seq<(u64, T)>, completed: u64)
    ensures
        reached(entries, completed).len() + outstanding(entries, completed).len() == entries.len(),
        forall|i: int|
            0 <= i < entries.len() ==> if (#[trigger] entries[i]).0 <= completed {
                reached(entries, completed).contains(entries[i].1)
            } else {
                outstanding(entries, completed).contains(entries[i])
            },
        forall|i: int|
            0 <= i < outstanding(entries, completed).len() ==> (#[trigger] outstanding(
                entries,
                completed,
            )[i]).0 > completed,
    decreases entries.len(),
{
    if entries.len() > 0 {
        let rest = entries.drop_last();
        drain_splits_the_queue(rest, completed);
        let r = reached(rest, completed);
        let o = outstanding(rest, completed);
        if entries.last().0 <= completed {
            assert(r.push(entries.last().1).last() == entries.last().1);
        } else {
            assert(o.push(entries.last()).last() == entries.last());
        }
        assert forall|i: int| 0 <= i < entries.len() implies (if (#[trigger] entries[i]).0
            <= completed {
            reached(entries, completed).contains(entries[i].1)
        } else {
            outstanding(entries, completed).contains(entries[i])
        }) by {
            if i < rest.len() {
                assert(rest[i] == entries[i]);
                if entries[i].0 <= completed {
                    let k = choose|k: int| 0 <= k < r.len() && r[k] == entries[i].1;
                    assert(reached(entries, completed)[k] == entries[i].1);
                } else {
                    let k = choose|k: int| 0 <= k < o.len() && o[k] == entries[i];
                    assert(outstanding(entries, completed)[k] == entries[i]);
                }
            } else {
                if entries[i].0 <= completed {
                    assert(reached(entries, completed)[r.len() as int] == entries[i].1);
                } else {
                    assert(outstanding(entries, completed)[o.len() as int] == entries[i]);
                }
            }
        }
    }
}

} // verus!
