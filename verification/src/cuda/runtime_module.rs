//! Helper kernels that the runtime compiles itself: their architecture names and
//! where the toolkit headers are.

use vstd::prelude::*;

use crate::text::{push_signed, signed_decimal};

verus! {

/// What the updater kernel reports where a grid is larger than the device allows.
pub const STATUS_OVERSIZED_GRID: i32 = -1;

/// Largest upload that a captured graph reads with the host copy kernel.
pub const COPY_FROM_HOST_MAX_BYTES: usize = 4096;

/// Threads of a launch of the host copy kernel, which is one block.
pub const COPY_FROM_HOST_THREADS: u32 = 256;

/// The architecture that the run-time compiler takes for a compute capability.
pub fn nvrtc_arch(major: i32, minor: i32) -> (arch: String)
    ensures
        arch@ == "sm_"@ + signed_decimal(major as int) + signed_decimal(minor as int),
{
    let mut arch: String = String::from_str("sm_");
    push_signed(&mut arch, major as i64);
    push_signed(&mut arch, minor as i64);
    arch
}

/// The header that an `include` directory of the toolkit must hold.
pub fn required_header() -> (name: &'static str)
    ensures
        name@ == "cuda_device_runtime_api.h"@,
{
    "cuda_device_runtime_api.h"
}

/// Where the toolkit may have its headers, in the order of the search. The setting
/// of `CUDA_PATH`, joined with `include`, comes first.
pub open spec fn include_candidates(cuda_path_include: Option<Seq<char>>) -> Seq<Seq<char>> {
    let fixed = seq![
        "C:\\Program Files\\NVIDIA GPU Computing Toolkit\\CUDA\\v13.1\\include"@,
        "C:\\Program Files\\NVIDIA GPU Computing Toolkit\\CUDA\\v13.0\\include"@,
        "/usr/local/cuda/include"@,
        "/usr/local/cuda-13.1/include"@,
    ];
    match cuda_path_include {
        Some(path) => seq![path] + fixed,
        None => fixed,
    }
}

/// The directories to search for the toolkit headers.
pub fn cuda_include_candidates(cuda_path_include: &Option<String>) -> (paths: Vec<String>)
    ensures
        paths@.len() == include_candidates(
            match *cuda_path_include {
                Some(p) => Some(p@),
                None => None,
            },
        ).len(),
        forall|i: int|
            0 <= i < paths@.len() ==> (#[trigger] paths@[i])@ == include_candidates(
                match *cuda_path_include {
                    Some(p) => Some(p@),
                    None => None,
                },
            )[i],
{
    let mut paths: Vec<String> = Vec::new();
    if let Some(path) = cuda_path_include {
        paths.push(path.clone());
    }
    paths.push(
        String::from_str("C:\\Program Files\\NVIDIA GPU Computing Toolkit\\CUDA\\v13.1\\include"),
    );
    paths.push(
        String::from_str("C:\\Program Files\\NVIDIA GPU Computing Toolkit\\CUDA\\v13.0\\include"),
    );
    paths.push(String::from_str("/usr/local/cuda/include"));
    paths.push(String::from_str("/usr/local/cuda-13.1/include"));
    paths
}

/// Picks the first directory that holds the header, if any does.
pub fn cuda_include_path(found: &Vec<bool>) -> (index: Option<usize>)
    ensures
        match index {
            Some(i) => i < found@.len() && found@[i as int] && forall|j: int|
                0 <= j < i ==> !#[trigger] found@[j],
            None => forall|j: int| 0 <= j < found@.len() ==> !#[trigger] found@[j],
        },
{
    let mut i: usize = 0;
    while i < found.len()
        invariant
            i <= found.len(),
            forall|j: int| 0 <= j < i ==> !#[trigger] found@[j],
        decreases found.len() - i,
    {
        if found[i] {
            return Some(i);
        }
        i += 1;
    }
    None
}

} // verus!
