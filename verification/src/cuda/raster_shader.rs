//! The shaders of a graphics pipeline: how their stages are compiled, and what a pipeline
//! takes from them.

use vstd::prelude::*;

use super::raster::RasterError;
use crate::dx12::backend::{BindlessSlotKind, ShaderReflection};
use crate::dx12::commands::ResourceCategory;
use crate::text::{decimal, push_decimal};

verus! {

/// A stage of a shader.
#[derive(Clone, Copy, Debug, PartialEq, Eq, Structural)]
pub enum ShaderStage {
    Vertex,
    Fragment,
    Compute,
}

/// The entry point of a stage; `None` where a pipeline has no such stage.
pub open spec fn entry_of(stage: ShaderStage) -> Option<Seq<char>> {
    match stage {
        ShaderStage::Vertex => Some("vs_main"@),
        ShaderStage::Fragment => Some("fs_main"@),
        ShaderStage::Compute => None,
    }
}

/// The entry point of a stage that a graphics pipeline has.
pub fn stage_entry(stage: ShaderStage) -> (entry: Result<&'static str, RasterError>)
    ensures
        match entry_of(stage) {
            Some(name) => entry is Ok && entry->Ok_0@ == name,
            None => entry == Err::<&'static str, RasterError>(
                RasterError::UnsupportedStage { stage },
            ),
        },
{
    match stage {
        ShaderStage::Vertex => Ok("vs_main"),
        ShaderStage::Fragment => Ok("fs_main"),
        ShaderStage::Compute => Err(RasterError::UnsupportedStage { stage }),
    }
}

/// The definitions that a stage is compiled with: that of the companion, then those of
/// the shader in order.
pub fn stage_defines(defines: &Vec<(String, String)>) -> (all: Vec<(String, String)>)
    ensures
        all@.len() == defines@.len() + 1,
        all@[0].0@ == "__DX12__"@,
        all@[0].1@ == "1"@,
        forall|i: int|
            0 <= i < defines@.len() ==> (#[trigger] all@[i + 1]).0@ == defines@[i].0@ && all@[i
                + 1].1@ == defines@[i].1@,
{
    let mut name: String = String::new();
    name.append("__DX12__");
    assert(name@ =~= "__DX12__"@);
    let mut value: String = String::new();
    value.append("1");
    assert(value@ =~= "1"@);
    let mut all: Vec<(String, String)> = Vec::new();
    all.push((name, value));
    let mut i: usize = 0;
    while i < defines.len()
        invariant
            i <= defines.len(),
            all@.len() == i + 1,
            all@[0].0@ == "__DX12__"@,
            all@[0].1@ == "1"@,
            forall|j: int|
                0 <= j < i ==> (#[trigger] all@[j + 1]).0@ == defines@[j].0@ && all@[j + 1].1@
                    == defines@[j].1@,
        decreases defines.len() - i,
    {
        all.push((defines[i].0.clone(), defines[i].1.clone()));
        i += 1;
    }
    all
}

/// What the compiler reported, or what the source says where it reported nothing.
pub open spec fn reported_or<T>(reported: Seq<T>, of_source: Seq<T>) -> Seq<T> {
    if reported.len() == 0 {
        of_source
    } else {
        reported
    }
}

/// What is known of a stage: what the compiler reported, filled in from the source where
/// it reported no categories or no kinds of slots.
pub fn completed_reflection(
    reflection: ShaderReflection,
    categories: Vec<Option<ResourceCategory>>,
    slot_kinds: Vec<Option<BindlessSlotKind>>,
) -> (completed: ShaderReflection)
    ensures
        completed.push_constant_categories@ == reported_or(
            reflection.push_constant_categories@,
            categories@,
        ),
        completed.push_constant_slot_kinds@ == reported_or(
            reflection.push_constant_slot_kinds@,
            slot_kinds@,
        ),
        completed.binding_element_strides@ == reflection.binding_element_strides@,
{
    let mut completed = reflection;
    if completed.push_constant_categories.len() == 0 {
        completed.push_constant_categories = categories;
    }
    if completed.push_constant_slot_kinds.len() == 0 {
        completed.push_constant_slot_kinds = slot_kinds;
    }
    completed
}

/// The name under which the shaders of a pipeline are reported.
pub fn shader_debug_name(vertex_shader: u64, fragment_shader: u64) -> (name: String)
    ensures
        name@ == "shader(vs=#"@ + decimal(vertex_shader as nat) + ", fs=#"@ + decimal(
            fragment_shader as nat,
        ) + ")"@,
{
    let mut name: String = String::new();
    name.append("shader(vs=#");
    push_decimal(&mut name, vertex_shader);
    name.append(", fs=#");
    push_decimal(&mut name, fragment_shader);
    name.append(")");
    assert(name@ =~= "shader(vs=#"@ + decimal(vertex_shader as nat) + ", fs=#"@ + decimal(
        fragment_shader as nat,
    ) + ")"@);
    name
}

} // verus!
