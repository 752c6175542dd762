use std::collections::HashMap;

use goldy::cuda::raster::{
    format_to_dxgi, index_format_to_dxgi, input_elements, topology_to_d3d12, topology_type_to_d3d12,
    vertex_format_to_dxgi, CudaGraphicsPipeline, IndexFormat, InputElement, PrimitiveTopology,
    RasterError, RasterTables, Semantic, TargetParts, VertexAttribute, VertexFormat,
    TOPOLOGY_TRIANGLESTRIP, TOPOLOGY_TYPE_LINE, TOPOLOGY_TYPE_POINT, TOPOLOGY_TYPE_TRIANGLE,
};
use goldy::cuda::raster_shader::{
    completed_reflection, shader_debug_name, stage_defines, stage_entry, ShaderStage,
};
use goldy::cuda::texture::{CopyEnd, TextureFormat};
use goldy::dx12::backend::{BindlessSlotKind, ShaderReflection};
use goldy::dx12::commands::ResourceCategory;

#[test]
fn rejects_non_float_target_format_message() {
    let err = format_to_dxgi(TextureFormat::Bgra8Unorm).unwrap_err().message();
    assert!(err.contains("unsupported"), "{err}");
    assert_eq!(err, "CUDA/DX12 raster: unsupported texture format Bgra8Unorm");
}

#[test]
fn triangle_list_topology_maps() {
    assert_eq!(topology_type_to_d3d12(PrimitiveTopology::TriangleList), TOPOLOGY_TYPE_TRIANGLE);
}

#[test]
fn line_topologies_map() {
    assert_eq!(topology_type_to_d3d12(PrimitiveTopology::LineList), TOPOLOGY_TYPE_LINE);
    assert_eq!(topology_type_to_d3d12(PrimitiveTopology::LineStrip), TOPOLOGY_TYPE_LINE);
}

#[test]
fn direct3d_numbers_are_those_of_the_headers() {
    assert_eq!(topology_type_to_d3d12(PrimitiveTopology::PointList), TOPOLOGY_TYPE_POINT);
    assert_eq!(topology_to_d3d12(PrimitiveTopology::TriangleStrip), TOPOLOGY_TRIANGLESTRIP);
    assert_eq!(format_to_dxgi(TextureFormat::Rgba32Float), Ok(2));
    assert_eq!(vertex_format_to_dxgi(VertexFormat::Float32x3), 6);
    assert_eq!(vertex_format_to_dxgi(VertexFormat::Unorm8x4), 28);
    assert_eq!(index_format_to_dxgi(IndexFormat::Uint16), 57);
    assert_eq!(index_format_to_dxgi(IndexFormat::Uint32), 42);
}

#[test]
fn attributes_get_semantics_by_location() {
    let elements = input_elements(&vec![
        VertexAttribute { location: 0, format: VertexFormat::Float32x3, offset: 0 },
        VertexAttribute { location: 1, format: VertexFormat::Float32x4, offset: 12 },
        VertexAttribute { location: 2, format: VertexFormat::Float32x2, offset: 28 },
    ]);
    assert_eq!(elements.len(), 3);
    assert_eq!(
        elements[0],
        InputElement { semantic: Semantic::Position, dxgi_format: 6, offset: 0 }
    );
    assert_eq!(elements[1].semantic, Semantic::Color);
    assert!(matches!(elements[2].semantic, Semantic::TexCoord { .. }));
    assert_eq!(elements[2].offset, 28);
}

fn tables() -> RasterTables {
    let mut devices = HashMap::new();
    devices.insert(1, true);
    devices.insert(2, false);
    let mut shaders = HashMap::new();
    shaders.insert(10, 1);
    shaders.insert(11, 2);
    RasterTables {
        devices,
        shaders,
        pipelines: HashMap::new(),
        render_targets: HashMap::new(),
        textures: HashMap::new(),
        texture_slots: HashMap::new(),
        next_pipeline: 1,
        next_render_target: 1,
        next_texture: 1,
    }
}

fn parts(texture_id: u64) -> TargetParts {
    TargetParts { texture_id, resource: texture_id + 100, storage_slot: 7, rtv_offset: 3 }
}

#[test]
fn devices_need_a_companion() {
    let tables = tables();
    assert_eq!(tables.companion(1), Ok(()));
    assert_eq!(tables.companion(2), Err(RasterError::CompanionRequired));
    assert_eq!(tables.companion(3), Err(RasterError::InvalidDevice { device: 3 }));
}

#[test]
fn pipelines_want_shaders_of_their_device() {
    let mut tables = tables();
    let format = TextureFormat::Rgba32Float;
    assert_eq!(tables.plan_pipeline(1, 10, 10, format), Ok(()));
    assert_eq!(tables.plan_pipeline(1, 9, 10, format), Err(RasterError::InvalidVertexShader));
    assert_eq!(tables.plan_pipeline(1, 11, 10, format), Err(RasterError::VertexShaderOnOtherDevice));
    assert_eq!(tables.plan_pipeline(1, 10, 9, format), Err(RasterError::InvalidFragmentShader));
    assert_eq!(tables.plan_pipeline(1, 10, 11, format), Err(RasterError::FragmentShaderOnOtherDevice));
    let handle = tables.finish_pipeline(CudaGraphicsPipeline {
        device: 1,
        pipeline_state: 50,
        root_signature: 51,
        vertex_stride: 24,
        topology: PrimitiveTopology::TriangleList,
        slot_kinds: 0,
    });
    assert_eq!(handle, 1);
    assert_eq!(tables.next_pipeline, 2);
    assert_eq!(tables.pipelines[&1].pipeline_state, 50);
    tables.destroy_pipeline(handle);
    assert!(tables.pipelines.is_empty());
}

#[test]
fn render_targets_are_made_and_forgotten() {
    let mut tables = tables();
    let format = TextureFormat::Rgba32Float;
    assert_eq!(tables.plan_render_target(1, 64, 32, format, false), Ok(()));
    assert_eq!(
        tables.plan_render_target(1, 64, 32, format, true),
        Err(RasterError::DepthUnsupported)
    );
    assert_eq!(
        tables.plan_render_target(1, 0, 32, format, false),
        Err(RasterError::ZeroDimension)
    );
    assert!(tables.plan_render_target(1, 64, 32, TextureFormat::R8Unorm, false).is_err());
    let target = tables.finish_render_target(1, 64, 32, parts(40));
    assert_eq!(tables.render_targets[&target].width, 64);
    assert_eq!(tables.textures.len(), 1);
    assert_eq!(tables.texture_slots.len(), 1);
    tables.destroy_render_target(target);
    assert!(tables.render_targets.is_empty());
    assert_eq!(tables.textures.len(), 1);
}

#[test]
fn render_target_copies_match_in_size() {
    let mut tables = tables();
    let a = tables.finish_render_target(1, 64, 32, parts(40));
    let b = tables.finish_render_target(1, 64, 32, TargetParts { storage_slot: 8, ..parts(41) });
    let c = tables.finish_render_target(1, 16, 32, TargetParts { storage_slot: 9, ..parts(42) });
    assert!(matches!(tables.copy_render_target(99, b), Err(RasterError::InvalidCopySource)));
    let b_texture = *tables.textures.iter().find(|(_, t)| t.id == 41).unwrap().0;
    let c_texture = *tables.textures.iter().find(|(_, t)| t.id == 42).unwrap().0;
    let copy = tables.copy_render_target(a, b_texture).unwrap();
    assert_eq!(copy.copy.width_bytes, 64 * 16);
    assert_eq!(copy.copy.height, 32);
    assert_eq!(copy.copy.src, CopyEnd::Array { texture: 40, x_bytes: 0, y: 0 });
    let refused = tables.copy_render_target(a, c_texture).err().unwrap();
    assert_eq!(
        refused,
        RasterError::CopySizeMismatch { width: 64, height: 32, to_width: 16, to_height: 32 }
    );
    assert_eq!(
        refused.message(),
        "CUDA/DX12: CopyRenderTarget size mismatch (64x32 \u{2192} 16x32)"
    );
    assert!(matches!(tables.copy_render_target(a, 999), Err(RasterError::InvalidCopyDestination)));
    let _ = c;
}

#[test]
fn stages_are_compiled_for_the_companion() {
    assert_eq!(stage_entry(ShaderStage::Vertex), Ok("vs_main"));
    assert_eq!(stage_entry(ShaderStage::Fragment), Ok("fs_main"));
    let error = stage_entry(ShaderStage::Compute).unwrap_err();
    assert_eq!(error, RasterError::UnsupportedStage { stage: ShaderStage::Compute });
    assert_eq!(error.message(), "CUDA/DX12 raster: unsupported stage Compute");
    let defines = vec![(String::from("A"), String::from("2"))];
    let all = stage_defines(&defines);
    assert_eq!(all[0], (String::from("__DX12__"), String::from("1")));
    assert_eq!(all[1..], defines);
    assert_eq!(shader_debug_name(3, 12), "shader(vs=#3, fs=#12)");
}

#[test]
fn reflection_falls_back_to_the_source() {
    let reported = |kinds: Vec<Option<BindlessSlotKind>>| ShaderReflection {
        push_constant_categories: vec![Some(ResourceCategory::Texture)],
        push_constant_slot_kinds: kinds,
        binding_element_strides: vec![Some(4)],
    };
    let categories = vec![None, Some(ResourceCategory::Sampler)];
    let silent = completed_reflection(reported(vec![]), categories, vec![None, None]);
    assert_eq!(silent.push_constant_categories, vec![Some(ResourceCategory::Texture)]);
    assert_eq!(silent.push_constant_slot_kinds.len(), 2);
    assert_eq!(silent.binding_element_strides, vec![Some(4)]);
    let spoken = completed_reflection(reported(vec![None]), vec![], vec![None, None]);
    assert_eq!(spoken.push_constant_slot_kinds.len(), 1);
}
