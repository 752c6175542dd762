//! Tables keyed by handles: selection and removal by device.

use std::collections::HashMap;
use vstd::prelude::*;

use super::context::lemma_take_to_set;

verus! {

broadcast use vstd::std_specs::hash::group_hash_axioms;

/// Something that lives on a device.
pub trait DeviceOwned {
    spec fn on_device(&self) -> u64;

    fn device(&self) -> (device: u64)
        ensures
            device == self.on_device(),
    ;
}

/// The handles of the entries that live on a device.
pub open spec fn on_device_keys<V: DeviceOwned>(map: Map<u64, V>, device: u64) -> Set<u64> {
    map.dom().filter(|k: u64| map[k].on_device() == device)
}

/// The entries that do not live on a device.
pub open spec fn off_device<V: DeviceOwned>(map: Map<u64, V>, device: u64) -> Map<u64, V> {
    map.remove_keys(on_device_keys(map, device))
}

/// A test on the entries of a table.
pub trait Selector<V> {
    spec fn selects(&self, entry: V) -> bool;

    fn test(&self, entry: &V) -> (selected: bool)
        ensures
            selected == self.selects(*entry),
    ;
}

/// The handles of the entries that a test selects.
pub open spec fn selected_keys<V, S: Selector<V>>(map: Map<u64, V>, selector: S) -> Set<u64> {
    map.dom().filter(|k: u64| selector.selects(map[k]))
}

/// Lists the handles of the entries that a test selects, in no particular order.
pub fn keys_where<V, S: Selector<V>>(map: &HashMap<u64, V>, selector: &S) -> (handles: Vec<u64>)
    ensures
        handles@.no_duplicates(),
        handles@.to_set() == selected_keys(map@, *selector),
{
    let mut handles: Vec<u64> = Vec::new();
    let ghost all = map@;
    for entry in iter: map.iter()
        invariant
            all == map@,
            iter.seq().no_duplicates(),
            forall|i: int|
                0 <= i < iter.seq().len() ==> all.contains_key(*(#[trigger] iter.seq()[i]).0)
                    && all[*iter.seq()[i].0] == *iter.seq()[i].1,
            forall|k: u64| #[trigger] all.contains_key(k) ==> iter.seq().contains((&k, &all[k])),
            forall|k: u64| #[trigger]
                handles@.contains(k) ==> all.contains_key(k) && selector.selects(all[k]) && exists|i: int|
                    0 <= i < iter.index() && *(#[trigger] iter.seq()[i]).0 == k,
            forall|i: int|
                0 <= i < iter.index() && selector.selects(*(#[trigger] iter.seq()[i]).1) ==> handles@.contains(
                    *iter.seq()[i].0,
                ),
            handles@.no_duplicates(),
    {
        let ghost before = handles@;
        if selector.test(entry.1) {
            proof {
                if before.contains(*entry.0) {
                    let i = choose|i: int|
                        0 <= i < iter.index() && *(#[trigger] iter.seq()[i]).0 == *entry.0;
                    assert(iter.seq()[i] == iter.seq()[iter.index() as int]);
                }
            }
            handles.push(*entry.0);
            assert(handles@[before.len() as int] == *entry.0);
            assert forall|k: u64| before.contains(k) implies #[trigger] handles@.contains(k) by {
                let i = choose|i: int| 0 <= i < before.len() && before[i] == k;
                assert(handles@[i] == k);
            }
        }
        assert forall|k: u64| #[trigger] handles@.contains(k) implies all.contains_key(k)
            && selector.selects(all[k]) && exists|i: int| 0 <= i < iter.index() + 1 && *(#[trigger] iter.seq()[i]).0 == k by {
            if before.contains(k) {
                let i = choose|i: int| 0 <= i < iter.index() && *(#[trigger] iter.seq()[i]).0 == k;
                assert(*iter.seq()[i].0 == k);
            } else {
                let j = choose|j: int| 0 <= j < handles@.len() && handles@[j] == k;
                assert(j == before.len());
                assert(*iter.seq()[iter.index() as int].0 == k);
            }
        }
    }
    assert(handles@.to_set() =~= selected_keys(all, *selector));
    handles
}

/// Selects what lives on a device.
pub struct OnDevice {
    pub device: u64,
}

impl<V: DeviceOwned> Selector<V> for OnDevice {
    open spec fn selects(&self, entry: V) -> bool {
        entry.on_device() == self.device
    }

    fn test(&self, entry: &V) -> (selected: bool) {
        entry.device() == self.device
    }
}

/// Lists the handles of the entries that live on a device, in no particular order.
pub fn handles_on_device<V: DeviceOwned>(map: &HashMap<u64, V>, device: u64) -> (handles: Vec<u64>)
    ensures
        handles@.no_duplicates(),
        handles@.to_set() == on_device_keys(map@, device),
{
    let selector = OnDevice { device };
    let handles = keys_where(map, &selector);
    assert(selected_keys(map@, selector) =~= on_device_keys(map@, device));
    handles
}

/// Removes every entry that lives on a device.
pub fn remove_on_device<V: DeviceOwned>(map: &mut HashMap<u64, V>, device: u64)
    ensures
        final(map)@ == off_device(old(map)@, device),
{
    let handles = handles_on_device(map, device);
    let ghost all = map@;
    let mut i: usize = 0;
    assert(all.remove_keys(handles@.take(0).to_set()) =~= all);
    while i < handles.len()
        invariant
            i <= handles.len(),
            map@ == all.remove_keys(handles@.take(i as int).to_set()),
        decreases handles.len() - i,
    {
        proof {
            lemma_take_to_set(handles@, i as int);
        }
        map.remove(&handles[i]);
        assert(map@ =~= all.remove_keys(handles@.take(i + 1).to_set()));
        i += 1;
    }
    assert(handles@.take(i as int) =~= handles@);
}

/// Lists the handles of a table, in no particular order.
pub fn all_handles<V>(map: &HashMap<u64, V>) -> (handles: Vec<u64>)
    ensures
        handles@.no_duplicates(),
        handles@.to_set() == map@.dom(),
{
    let mut handles: Vec<u64> = Vec::new();
    let ghost all = map@;
    for entry in iter: map.iter()
        invariant
            all == map@,
            iter.seq().no_duplicates(),
            forall|i: int|
                0 <= i < iter.seq().len() ==> all.contains_key(*(#[trigger] iter.seq()[i]).0)
                    && all[*iter.seq()[i].0] == *iter.seq()[i].1,
            forall|k: u64| #[trigger] all.contains_key(k) ==> iter.seq().contains((&k, &all[k])),
            handles@.len() == iter.index(),
            forall|i: int| 0 <= i < iter.index() ==> handles@[i] == *(#[trigger] iter.seq()[i]).0,
            forall|i: int| 0 <= i < iter.index() ==> all.contains_key(#[trigger] handles@[i]),
            forall|i: int|
                0 <= i < iter.index() ==> handles@.contains(*(#[trigger] iter.seq()[i]).0),
            handles@.no_duplicates(),
    {
        let ghost before = handles@;
        assert forall|i: int| 0 <= i < handles@.len() implies handles@[i] != *entry.0 by {
            if handles@[i] == *entry.0 {
                assert(iter.seq()[i] == iter.seq()[iter.index() as int]);
            }
        }
        handles.push(*entry.0);
        assert forall|i: int| 0 <= i < iter.index() + 1 implies handles@.contains(
            *(#[trigger] iter.seq()[i]).0,
        ) by {
            assert(handles@[i] == *iter.seq()[i].0);
        }
    }
    assert(handles@.to_set() =~= all.dom()) by {
        assert forall|k: u64| handles@.to_set().contains(k) == #[trigger] all.dom().contains(k) by {
            if handles@.contains(k) {
                let i = choose|i: int| 0 <= i < handles@.len() && handles@[i] == k;
                assert(handles@[i] == k);
            }
            if all.contains_key(k) {
                assert(handles@.contains(k));
            }
        }
    }
    handles
}

} // verus!
