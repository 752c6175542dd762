//! Pipelines kept on disk: a stale one is discarded once, a new one is taken in.

use std::collections::HashMap;
use vstd::prelude::*;

use crate::text::{decimal, push_decimal};

verus! {

broadcast use vstd::std_specs::hash::group_hash_axioms;

/// Cached pipelines by the key of their code.
pub struct PsoCache {
    pub compute_blobs: HashMap<u64, Vec<u8>>,
    /// Something has changed since it was loaded.
    pub dirty: bool,
}

/// What follows a failed attempt to create a pipeline.
#[derive(Clone, Copy, Debug, PartialEq, Eq, Structural)]
pub enum CreateRetry {
    /// The cached pipeline was stale: try once more without it.
    WithoutCache,
    GiveUp,
}

fn same_bytes(a: &Vec<u8>, b: &Vec<u8>) -> (same: bool)
    ensures
        same == (a@ == b@),
{
    if a.len() != b.len() {
        return false;
    }
    let mut i: usize = 0;
    while i < a.len()
        invariant
            i <= a.len(),
            a@.len() == b@.len(),
            forall|j: int| 0 <= j < i ==> a@[j] == b@[j],
        decreases a.len() - i,
    {
        if a[i] != b[i] {
            return false;
        }
        i += 1;
    }
    assert(a@ =~= b@);
    true
}

impl PsoCache {
    /// Whether a pipeline is cached: the first attempt then uses it.
    pub fn has(&self, key: u64) -> (cached: bool)
        ensures
            cached == self.compute_blobs@.contains_key(key),
    {
        self.compute_blobs.contains_key(&key)
    }

    /// Takes in that an attempt failed. A cached pipeline that was used is discarded.
    pub fn create_failed(&mut self, key: u64, used_cache: bool) -> (retry: CreateRetry)
        ensures
            retry == (if used_cache {
                CreateRetry::WithoutCache
            } else {
                CreateRetry::GiveUp
            }),
            final(self).compute_blobs@ == (if used_cache {
                old(self).compute_blobs@.remove(key)
            } else {
                old(self).compute_blobs@
            }),
            final(self).dirty == (old(self).dirty || used_cache),
    {
        if !used_cache {
            return CreateRetry::GiveUp;
        }
        self.compute_blobs.remove(&key);
        self.dirty = true;
        CreateRetry::WithoutCache
    }

    /// Takes in the blob of a pipeline that was created. What is cached already is
    /// left alone.
    pub fn created(&mut self, key: u64, blob: Vec<u8>)
        ensures
            ({
                let known = old(self).compute_blobs@.contains_key(key)
                    && old(self).compute_blobs@[key]@ == blob@;
                &&& final(self).dirty == (old(self).dirty || !known)
                &&& final(self).compute_blobs@ == (if known {
                    old(self).compute_blobs@
                } else {
                    old(self).compute_blobs@.insert(key, blob)
                })
            }),
    {
        let known = match self.compute_blobs.get(&key) {
            Some(previous) => same_bytes(previous, &blob),
            None => false,
        };
        if !known {
            self.compute_blobs.insert(key, blob);
            self.dirty = true;
        }
    }
}

/// The file in which the pipelines of an adapter are kept.
pub fn cache_file_name(adapter_id: u32) -> (name: String)
    ensures
        name@ == "dx12_pso_"@ + decimal(adapter_id as nat) + ".bin"@,
{
    let mut name: String = String::from_str("dx12_pso_");
    push_decimal(&mut name, adapter_id as u64);
    name.append(".bin");
    name
}

/// The name of a compute shader in messages.
pub fn compute_shader_name(shader: u64) -> (name: String)
    ensures
        name@ == "compute_shader#"@ + decimal(shader as nat),
{
    let mut name: String = String::from_str("compute_shader#");
    push_decimal(&mut name, shader);
    name
}


} // verus!
