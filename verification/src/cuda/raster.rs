//! Raster on the companion device: formats, pipelines and render targets.

use std::collections::HashMap;
use vstd::prelude::*;

use super::raster_shader::ShaderStage;
use super::texture::{memcpy_array_to_array, CudaTexture, Memcpy2D, TextureFormat, TextureKind};
use crate::text::{decimal, push_decimal};

verus! {

broadcast use vstd::std_specs::hash::group_hash_axioms;

pub const DXGI_FORMAT_R32G32B32A32_FLOAT: u32 = 2;

pub const DXGI_FORMAT_R32G32B32_FLOAT: u32 = 6;

pub const DXGI_FORMAT_R32G32_FLOAT: u32 = 16;

pub const DXGI_FORMAT_R8G8B8A8_UNORM: u32 = 28;

pub const DXGI_FORMAT_R8G8B8A8_UINT: u32 = 30;

pub const DXGI_FORMAT_R32_FLOAT: u32 = 41;

pub const DXGI_FORMAT_R32_UINT: u32 = 42;

pub const DXGI_FORMAT_R32_SINT: u32 = 43;

pub const DXGI_FORMAT_R16_UINT: u32 = 57;

pub const TOPOLOGY_POINTLIST: i32 = 1;

pub const TOPOLOGY_LINELIST: i32 = 2;

pub const TOPOLOGY_LINESTRIP: i32 = 3;

pub const TOPOLOGY_TRIANGLELIST: i32 = 4;

pub const TOPOLOGY_TRIANGLESTRIP: i32 = 5;

pub const TOPOLOGY_TYPE_POINT: i32 = 1;

pub const TOPOLOGY_TYPE_LINE: i32 = 2;

pub const TOPOLOGY_TYPE_TRIANGLE: i32 = 3;

/// How the vertices of a draw form primitives.
#[derive(Clone, Copy, Debug, PartialEq, Eq, Structural)]
pub enum PrimitiveTopology {
    PointList,
    LineList,
    LineStrip,
    TriangleList,
    TriangleStrip,
}

/// Format of a vertex attribute.
#[derive(Clone, Copy, Debug, PartialEq, Eq, Structural)]
pub enum VertexFormat {
    Float32,
    Float32x2,
    Float32x3,
    Float32x4,
    Uint32,
    Sint32,
    Uint8x4,
    Unorm8x4,
}

/// Format of an index.
#[derive(Clone, Copy, Debug, PartialEq, Eq, Structural)]
pub enum IndexFormat {
    Uint16,
    Uint32,
}

/// Why a raster request is refused.
#[derive(Clone, Copy, Debug, PartialEq, Eq, Structural)]
pub enum RasterError {
    UnsupportedFormat { format: TextureFormat },
    /// The format that a pipeline renders to.
    UnsupportedTargetFormat { format: TextureFormat },
    /// The format of a render target.
    UnsupportedRenderTargetFormat { format: TextureFormat },
    /// A graphics pipeline has no such stage.
    UnsupportedStage { stage: ShaderStage },
    DepthUnsupported,
    ZeroDimension,
    InvalidDevice { device: u64 },
    CompanionRequired,
    InvalidVertexShader,
    VertexShaderOnOtherDevice,
    InvalidFragmentShader,
    FragmentShaderOnOtherDevice,
    InvalidRenderTarget,
    TargetOnOtherDevice,
    InvalidPipeline,
    InvalidVertexBuffer,
    InvalidIndexBuffer,
    VertexOffsetOutOfRange,
    IndexOffsetOutOfRange,
    VertexBackingMissing,
    IndexBackingMissing,
    SharedBackingMissing,
    SourceOutOfRange,
    UnexpectedPhysKind,
    ClearDepthUnsupported,
    BindNotLowered,
    BufferWithoutSlot { buffer: u64 },
    InvalidCopySource,
    InvalidCopyDestination,
    CopyFormatMismatch { from: TextureFormat, to: TextureFormat },
    CopySizeMismatch { width: u32, height: u32, to_width: u32, to_height: u32 },
}

/// The name of a stage.
pub open spec fn stage_label(stage: ShaderStage) -> Seq<char> {
    match stage {
        ShaderStage::Vertex => "Vertex"@,
        ShaderStage::Fragment => "Fragment"@,
        ShaderStage::Compute => "Compute"@,
    }
}

/// What each error is reported as.
pub open spec fn raster_message(error: RasterError) -> Seq<char> {
    match error {
        RasterError::UnsupportedFormat { format } => "CUDA/DX12 raster: unsupported texture format "@
            + format.label(),
        RasterError::UnsupportedTargetFormat { format } => "CUDA/DX12 raster: only Rgba32Float targets are supported (got "@
            + format.label() + ")"@,
        RasterError::UnsupportedRenderTargetFormat { format } => "CUDA/DX12 raster: only Rgba32Float render targets are supported (got "@
            + format.label() + ")"@,
        RasterError::UnsupportedStage { stage } => "CUDA/DX12 raster: unsupported stage "@
            + stage_label(stage),
        RasterError::BufferWithoutSlot { buffer } => "BindResources: buffer "@ + decimal(
            buffer as nat,
        ) + " has no registry slot"@,
        RasterError::CopyFormatMismatch { from, to } => "CUDA/DX12: CopyRenderTarget format mismatch ("@
            + from.label() + " → "@ + to.label() + ")"@,
        RasterError::CopySizeMismatch { width, height, to_width, to_height } => "CUDA/DX12: CopyRenderTarget size mismatch ("@
            + decimal(width as nat) + "x"@ + decimal(height as nat) + " → "@ + decimal(
            to_width as nat,
        ) + "x"@ + decimal(to_height as nat) + ")"@,
        RasterError::DepthUnsupported => "CUDA/DX12 raster: depth buffers are not supported in the first slice"@,
        RasterError::ZeroDimension => "CUDA/DX12 raster: render target dimensions must be non-zero"@,
        RasterError::InvalidDevice { .. } => "CUDA: invalid device"@,
        RasterError::CompanionRequired => "CUDA/DX12: companion required for raster"@,
        RasterError::InvalidVertexShader => "CUDA/DX12: invalid vertex shader"@,
        RasterError::VertexShaderOnOtherDevice => "CUDA/DX12: vertex shader belongs to a different device"@,
        RasterError::InvalidFragmentShader => "CUDA/DX12: invalid fragment shader"@,
        RasterError::FragmentShaderOnOtherDevice => "CUDA/DX12: fragment shader belongs to a different device"@,
        RasterError::InvalidRenderTarget => "CUDA/DX12: invalid render target"@,
        RasterError::TargetOnOtherDevice => "CUDA/DX12: render target belongs to a different device"@,
        RasterError::InvalidPipeline => "CUDA/DX12: invalid graphics pipeline"@,
        RasterError::InvalidVertexBuffer => "CUDA/DX12: invalid vertex buffer"@,
        RasterError::InvalidIndexBuffer => "CUDA/DX12: invalid index buffer"@,
        RasterError::VertexOffsetOutOfRange => "CUDA/DX12: vertex buffer offset out of range"@,
        RasterError::IndexOffsetOutOfRange => "CUDA/DX12: index buffer offset out of range"@,
        RasterError::VertexBackingMissing => "CUDA/DX12: vertex buffer missing shared backing"@,
        RasterError::IndexBackingMissing => "CUDA/DX12: index buffer missing shared backing"@,
        RasterError::SharedBackingMissing => "CUDA/DX12: Shared VB missing backing"@,
        RasterError::SourceOutOfRange => "CUDA/DX12: VB source view"@,
        RasterError::UnexpectedPhysKind => "CUDA/DX12: vertex buffer phys_kind=Native after VERTEX ensure (expected Shared or NativeAndTwin)"@,
        RasterError::ClearDepthUnsupported => "CUDA/DX12 raster: ClearDepth is not supported in the first slice"@,
        RasterError::BindNotLowered => "CUDA/DX12 raster: BindResources must be lowered before record"@,
        RasterError::InvalidCopySource => "CUDA/DX12: invalid CopyRenderTarget source"@,
        RasterError::InvalidCopyDestination => "CUDA/DX12: invalid CopyRenderTarget destination"@,
    }
}

impl RasterError {
    /// The message of the error.
    pub fn message(&self) -> (text: String)
        ensures
            text@ == raster_message(*self),
    {
        let mut text: String = String::new();
        match *self {
            RasterError::UnsupportedFormat { format } => {
                text.append("CUDA/DX12 raster: unsupported texture format ");
                text.append(format.name());
            },
            RasterError::UnsupportedTargetFormat { format } => {
                text.append("CUDA/DX12 raster: only Rgba32Float targets are supported (got ");
                text.append(format.name());
                text.append(")");
            },
            RasterError::UnsupportedRenderTargetFormat { format } => {
                text.append("CUDA/DX12 raster: only Rgba32Float render targets are supported (got ");
                text.append(format.name());
                text.append(")");
            },
            RasterError::UnsupportedStage { stage } => {
                text.append("CUDA/DX12 raster: unsupported stage ");
                match stage {
                    ShaderStage::Vertex => text.append("Vertex"),
                    ShaderStage::Fragment => text.append("Fragment"),
                    ShaderStage::Compute => text.append("Compute"),
                }
            },
            RasterError::BufferWithoutSlot { buffer } => {
                text.append("BindResources: buffer ");
                push_decimal(&mut text, buffer);
                text.append(" has no registry slot");
            },
            RasterError::CopyFormatMismatch { from, to } => {
                text.append("CUDA/DX12: CopyRenderTarget format mismatch (");
                text.append(from.name());
                text.append(" → ");
                text.append(to.name());
                text.append(")");
            },
            RasterError::CopySizeMismatch { width, height, to_width, to_height } => {
                text.append("CUDA/DX12: CopyRenderTarget size mismatch (");
                push_decimal(&mut text, width as u64);
                text.append("x");
                push_decimal(&mut text, height as u64);
                text.append(" → ");
                push_decimal(&mut text, to_width as u64);
                text.append("x");
                push_decimal(&mut text, to_height as u64);
                text.append(")");
            },
            RasterError::DepthUnsupported => {
                text.append("CUDA/DX12 raster: depth buffers are not supported in the first slice");
            },
            RasterError::ZeroDimension => {
                text.append("CUDA/DX12 raster: render target dimensions must be non-zero");
            },
            RasterError::InvalidDevice { .. } => {
                text.append("CUDA: invalid device");
            },
            RasterError::CompanionRequired => {
                text.append("CUDA/DX12: companion required for raster");
            },
            RasterError::InvalidVertexShader => {
                text.append("CUDA/DX12: invalid vertex shader");
            },
            RasterError::VertexShaderOnOtherDevice => {
                text.append("CUDA/DX12: vertex shader belongs to a different device");
            },
            RasterError::InvalidFragmentShader => {
                text.append("CUDA/DX12: invalid fragment shader");
            },
            RasterError::FragmentShaderOnOtherDevice => {
                text.append("CUDA/DX12: fragment shader belongs to a different device");
            },
            RasterError::InvalidRenderTarget => {
                text.append("CUDA/DX12: invalid render target");
            },
            RasterError::TargetOnOtherDevice => {
                text.append("CUDA/DX12: render target belongs to a different device");
            },
            RasterError::InvalidPipeline => {
                text.append("CUDA/DX12: invalid graphics pipeline");
            },
            RasterError::InvalidVertexBuffer => {
                text.append("CUDA/DX12: invalid vertex buffer");
            },
            RasterError::InvalidIndexBuffer => {
                text.append("CUDA/DX12: invalid index buffer");
            },
            RasterError::VertexOffsetOutOfRange => {
                text.append("CUDA/DX12: vertex buffer offset out of range");
            },
            RasterError::IndexOffsetOutOfRange => {
                text.append("CUDA/DX12: index buffer offset out of range");
            },
            RasterError::VertexBackingMissing => {
                text.append("CUDA/DX12: vertex buffer missing shared backing");
            },
            RasterError::IndexBackingMissing => {
                text.append("CUDA/DX12: index buffer missing shared backing");
            },
            RasterError::SharedBackingMissing => {
                text.append("CUDA/DX12: Shared VB missing backing");
            },
            RasterError::SourceOutOfRange => {
                text.append("CUDA/DX12: VB source view");
            },
            RasterError::UnexpectedPhysKind => {
                text.append("CUDA/DX12: vertex buffer phys_kind=Native after VERTEX ensure (expected Shared or NativeAndTwin)");
            },
            RasterError::ClearDepthUnsupported => {
                text.append("CUDA/DX12 raster: ClearDepth is not supported in the first slice");
            },
            RasterError::BindNotLowered => {
                text.append("CUDA/DX12 raster: BindResources must be lowered before record");
            },
            RasterError::InvalidCopySource => {
                text.append("CUDA/DX12: invalid CopyRenderTarget source");
            },
            RasterError::InvalidCopyDestination => {
                text.append("CUDA/DX12: invalid CopyRenderTarget destination");
            },
        }
        assert(text@ =~= raster_message(*self));
        text
    }
}

/// The DXGI format of a render target.
pub open spec fn target_dxgi(format: TextureFormat) -> Option<u32> {
    match format {
        TextureFormat::Rgba32Float => Some(DXGI_FORMAT_R32G32B32A32_FLOAT),
        TextureFormat::Rgba8Unorm => Some(DXGI_FORMAT_R8G8B8A8_UNORM),
        _ => None,
    }
}

/// The DXGI format of a texture format, where raster has one.
pub fn format_to_dxgi(format: TextureFormat) -> (dxgi: Result<u32, RasterError>)
    ensures
        dxgi == (match target_dxgi(format) {
            Some(f) => Ok(f),
            None => Err(RasterError::UnsupportedFormat { format }),
        }),
{
    match format {
        TextureFormat::Rgba32Float => Ok(DXGI_FORMAT_R32G32B32A32_FLOAT),
        TextureFormat::Rgba8Unorm => Ok(DXGI_FORMAT_R8G8B8A8_UNORM),
        _ => Err(RasterError::UnsupportedFormat { format }),
    }
}

/// The DXGI format of a vertex attribute.
pub open spec fn vertex_dxgi(format: VertexFormat) -> u32 {
    match format {
        VertexFormat::Float32 => DXGI_FORMAT_R32_FLOAT,
        VertexFormat::Float32x2 => DXGI_FORMAT_R32G32_FLOAT,
        VertexFormat::Float32x3 => DXGI_FORMAT_R32G32B32_FLOAT,
        VertexFormat::Float32x4 => DXGI_FORMAT_R32G32B32A32_FLOAT,
        VertexFormat::Uint32 => DXGI_FORMAT_R32_UINT,
        VertexFormat::Sint32 => DXGI_FORMAT_R32_SINT,
        VertexFormat::Uint8x4 => DXGI_FORMAT_R8G8B8A8_UINT,
        VertexFormat::Unorm8x4 => DXGI_FORMAT_R8G8B8A8_UNORM,
    }
}

/// The DXGI format of a vertex attribute.
pub fn vertex_format_to_dxgi(format: VertexFormat) -> (dxgi: u32)
    ensures
        dxgi == vertex_dxgi(format),
{
    match format {
        VertexFormat::Float32 => DXGI_FORMAT_R32_FLOAT,
        VertexFormat::Float32x2 => DXGI_FORMAT_R32G32_FLOAT,
        VertexFormat::Float32x3 => DXGI_FORMAT_R32G32B32_FLOAT,
        VertexFormat::Float32x4 => DXGI_FORMAT_R32G32B32A32_FLOAT,
        VertexFormat::Uint32 => DXGI_FORMAT_R32_UINT,
        VertexFormat::Sint32 => DXGI_FORMAT_R32_SINT,
        VertexFormat::Uint8x4 => DXGI_FORMAT_R8G8B8A8_UINT,
        VertexFormat::Unorm8x4 => DXGI_FORMAT_R8G8B8A8_UNORM,
    }
}

/// The DXGI format of an index.
pub open spec fn index_dxgi(format: IndexFormat) -> u32 {
    match format {
        IndexFormat::Uint16 => DXGI_FORMAT_R16_UINT,
        IndexFormat::Uint32 => DXGI_FORMAT_R32_UINT,
    }
}

/// The DXGI format of an index.
pub fn index_format_to_dxgi(format: IndexFormat) -> (dxgi: u32)
    ensures
        dxgi == index_dxgi(format),
{
    match format {
        IndexFormat::Uint16 => DXGI_FORMAT_R16_UINT,
        IndexFormat::Uint32 => DXGI_FORMAT_R32_UINT,
    }
}

/// The topology that the input assembler takes.
pub open spec fn d3d12_topology(topology: PrimitiveTopology) -> i32 {
    match topology {
        PrimitiveTopology::PointList => TOPOLOGY_POINTLIST,
        PrimitiveTopology::LineList => TOPOLOGY_LINELIST,
        PrimitiveTopology::LineStrip => TOPOLOGY_LINESTRIP,
        PrimitiveTopology::TriangleList => TOPOLOGY_TRIANGLELIST,
        PrimitiveTopology::TriangleStrip => TOPOLOGY_TRIANGLESTRIP,
    }
}

/// The topology that the input assembler takes.
pub fn topology_to_d3d12(topology: PrimitiveTopology) -> (d3d12: i32)
    ensures
        d3d12 == d3d12_topology(topology),
{
    match topology {
        PrimitiveTopology::PointList => TOPOLOGY_POINTLIST,
        PrimitiveTopology::LineList => TOPOLOGY_LINELIST,
        PrimitiveTopology::LineStrip => TOPOLOGY_LINESTRIP,
        PrimitiveTopology::TriangleList => TOPOLOGY_TRIANGLELIST,
        PrimitiveTopology::TriangleStrip => TOPOLOGY_TRIANGLESTRIP,
    }
}

/// The topology type that a pipeline is made for: lists and strips share one.
pub fn topology_type_to_d3d12(topology: PrimitiveTopology) -> (d3d12: i32)
    ensures
        d3d12 == (match topology {
            PrimitiveTopology::PointList => TOPOLOGY_TYPE_POINT,
            PrimitiveTopology::LineList => TOPOLOGY_TYPE_LINE,
            PrimitiveTopology::LineStrip => TOPOLOGY_TYPE_LINE,
            PrimitiveTopology::TriangleList => TOPOLOGY_TYPE_TRIANGLE,
            PrimitiveTopology::TriangleStrip => TOPOLOGY_TYPE_TRIANGLE,
        }),
{
    match topology {
        PrimitiveTopology::PointList => TOPOLOGY_TYPE_POINT,
        PrimitiveTopology::LineList | PrimitiveTopology::LineStrip => TOPOLOGY_TYPE_LINE,
        PrimitiveTopology::TriangleList | PrimitiveTopology::TriangleStrip =>
            TOPOLOGY_TYPE_TRIANGLE,
    }
}

/// An attribute of a vertex.
#[derive(Clone, Copy, Debug, PartialEq, Eq, Structural)]
pub struct VertexAttribute {
    pub location: u32,
    pub format: VertexFormat,
    pub offset: u32,
}

/// What an attribute means to a shader.
#[derive(Clone, Copy, Debug, PartialEq, Eq, Structural)]
pub enum Semantic {
    Position,
    Color,
    TexCoord { index: u32 },
}

/// An element of the input layout of a pipeline.
#[derive(Clone, Copy, Debug, PartialEq, Eq, Structural)]
pub struct InputElement {
    pub semantic: Semantic,
    pub dxgi_format: u32,
    pub offset: u32,
}

/// The attribute is a color: at location one, with three or four components.
pub open spec fn is_color(attribute: VertexAttribute) -> bool {
    attribute.location == 1 && (attribute.format is Float32x3 || attribute.format is Float32x4
        || attribute.format is Unorm8x4 || attribute.format is Uint8x4)
}

/// How many attributes are texture coordinates.
pub open spec fn texcoords(attributes: Seq<VertexAttribute>) -> nat
    decreases attributes.len(),
{
    if attributes.len() == 0 {
        0
    } else {
        let last = attributes.last();
        texcoords(attributes.drop_last()) + if last.location == 0 || is_color(last) {
            0nat
        } else {
            1nat
        }
    }
}

/// The input element of an attribute: what is neither the position nor a color is a
/// texture coordinate, numbered in order.
pub open spec fn input_element(attributes: Seq<VertexAttribute>, i: int) -> InputElement {
    let attribute = attributes[i];
    InputElement {
        semantic: if attribute.location == 0 {
            Semantic::Position
        } else if is_color(attribute) {
            Semantic::Color
        } else {
            Semantic::TexCoord { index: texcoords(attributes.take(i)) as u32 }
        },
        dxgi_format: vertex_dxgi(attribute.format),
        offset: attribute.offset,
    }
}

/// The input layout of a pipeline.
pub fn input_elements(attributes: &Vec<VertexAttribute>) -> (elements: Vec<InputElement>)
    requires
        attributes@.len() <= u32::MAX,
    ensures
        elements@ == Seq::new(attributes@.len(), |i: int| input_element(attributes@, i)),
{
    let mut elements: Vec<InputElement> = Vec::new();
    let mut texcoord_index: u32 = 0;
    let mut i: usize = 0;
    while i < attributes.len()
        invariant
            i <= attributes.len() <= u32::MAX,
            texcoord_index == texcoords(attributes@.take(i as int)),
            texcoord_index <= i,
            elements@.len() == i,
            forall|j: int| 0 <= j < i ==> #[trigger] elements@[j] == input_element(attributes@, j),
        decreases attributes.len() - i,
    {
        let attribute = attributes[i];
        assert(attributes@.take(i + 1).drop_last() =~= attributes@.take(i as int));
        let colored = attribute.location == 1 && match attribute.format {
            VertexFormat::Float32x3 | VertexFormat::Float32x4 | VertexFormat::Unorm8x4
            | VertexFormat::Uint8x4 => true,
            _ => false,
        };
        let semantic = if attribute.location == 0 {
            Semantic::Position
        } else if colored {
            Semantic::Color
        } else {
            let index: u32 = texcoord_index;
            texcoord_index += 1;
            Semantic::TexCoord { index }
        };
        elements.push(
            InputElement {
                semantic,
                dxgi_format: vertex_format_to_dxgi(attribute.format),
                offset: attribute.offset,
            },
        );
        i += 1;
    }
    assert(elements@ =~= Seq::new(attributes@.len(), |i: int| input_element(attributes@, i)));
    elements
}

/// A graphics pipeline.
#[derive(Clone, Copy, Debug, PartialEq, Eq, Structural)]
pub struct CudaGraphicsPipeline {
    pub device: u64,
    pub pipeline_state: u64,
    pub root_signature: u64,
    pub vertex_stride: u32,
    pub topology: PrimitiveTopology,
    /// How many bindless slots its shaders read.
    pub slot_kinds: usize,
}

/// A render target.
#[derive(Clone, Copy, Debug, PartialEq, Eq, Structural)]
pub struct CudaRenderTarget {
    pub device: u64,
    pub width: u32,
    pub height: u32,
    pub format: TextureFormat,
    pub cuda_texture: CudaTexture,
    pub resource: u64,
    pub rtv_offset: u32,
    /// Fence value after the last pass that rendered to it.
    pub last_dx12_fence: u64,
}

/// Pipelines, render targets and textures of the back end. A device is present with
/// whether it has a companion; a shader with the device it belongs to.
pub struct RasterTables {
    pub devices: HashMap<u64, bool>,
    pub shaders: HashMap<u64, u64>,
    pub pipelines: HashMap<u64, CudaGraphicsPipeline>,
    pub render_targets: HashMap<u64, CudaRenderTarget>,
    pub textures: HashMap<u64, CudaTexture>,
    /// Textures by bindless slot.
    pub texture_slots: HashMap<u32, u64>,
    pub next_pipeline: u64,
    pub next_render_target: u64,
    pub next_texture: u64,
}

/// The device exists and has a companion.
pub open spec fn companion_check(tables: RasterTables, device: u64) -> Result<(), RasterError> {
    if !tables.devices@.contains_key(device) {
        Err(RasterError::InvalidDevice { device })
    } else if !tables.devices@[device] {
        Err(RasterError::CompanionRequired)
    } else {
        Ok(())
    }
}

/// Whether a pipeline can be made, or why not.
pub open spec fn pipeline_check(
    tables: RasterTables,
    device: u64,
    vertex_shader: u64,
    fragment_shader: u64,
    target_format: TextureFormat,
) -> Result<(), RasterError> {
    if target_format !is Rgba32Float {
        Err(RasterError::UnsupportedTargetFormat { format: target_format })
    } else if companion_check(tables, device) is Err {
        companion_check(tables, device)
    } else if !tables.shaders@.contains_key(vertex_shader) {
        Err(RasterError::InvalidVertexShader)
    } else if tables.shaders@[vertex_shader] != device {
        Err(RasterError::VertexShaderOnOtherDevice)
    } else if !tables.shaders@.contains_key(fragment_shader) {
        Err(RasterError::InvalidFragmentShader)
    } else if tables.shaders@[fragment_shader] != device {
        Err(RasterError::FragmentShaderOnOtherDevice)
    } else {
        Ok(())
    }
}

/// Whether a render target can be made, or why not.
pub open spec fn target_check(
    tables: RasterTables,
    device: u64,
    width: u32,
    height: u32,
    color_format: TextureFormat,
    depth: bool,
) -> Result<(), RasterError> {
    if depth {
        Err(RasterError::DepthUnsupported)
    } else if color_format !is Rgba32Float {
        Err(RasterError::UnsupportedRenderTargetFormat { format: color_format })
    } else if width == 0 || height == 0 {
        Err(RasterError::ZeroDimension)
    } else {
        companion_check(tables, device)
    }
}

/// What a copy out of a render target does.
#[derive(Clone, Copy, Debug, PartialEq, Eq, Structural)]
pub struct TargetCopy {
    /// The stream waits for this value of the companion fence, unless it is zero.
    pub wait: u64,
    pub copy: Memcpy2D,
}

/// What the back end made for a render target.
#[derive(Clone, Copy, Debug, PartialEq, Eq, Structural)]
pub struct TargetParts {
    pub texture_id: u64,
    pub resource: u64,
    pub storage_slot: u32,
    pub rtv_offset: u32,
}

/// The imported texture of a render target.
pub open spec fn target_texture(parts: TargetParts, width: u32, height: u32) -> CudaTexture {
    CudaTexture {
        id: parts.texture_id,
        width,
        height,
        format: TextureFormat::Rgba32Float,
        kind: TextureKind::Direct,
        imported: true,
        srgb: false,
        storage_slot: Some(parts.storage_slot),
        sampled_slot: None,
    }
}

impl RasterTables {
    /// Checks that a device has a companion.
    pub fn companion(&self, device: u64) -> (result: Result<(), RasterError>)
        ensures
            result == companion_check(*self, device),
    {
        match self.devices.get(&device) {
            None => Err(RasterError::InvalidDevice { device }),
            Some(has) => if *has {
                Ok(())
            } else {
                Err(RasterError::CompanionRequired)
            },
        }
    }

    /// Checks a pipeline before its shaders are compiled.
    pub fn plan_pipeline(
        &self,
        device: u64,
        vertex_shader: u64,
        fragment_shader: u64,
        target_format: TextureFormat,
    ) -> (result: Result<(), RasterError>)
        ensures
            result == pipeline_check(*self, device, vertex_shader, fragment_shader, target_format),
    {
        match target_format {
            TextureFormat::Rgba32Float => {},
            _ => {
                return Err(RasterError::UnsupportedTargetFormat { format: target_format });
            },
        }
        if let Err(e) = self.companion(device) {
            return Err(e);
        }
        match self.shaders.get(&vertex_shader) {
            None => {
                return Err(RasterError::InvalidVertexShader);
            },
            Some(owner) => {
                if *owner != device {
                    return Err(RasterError::VertexShaderOnOtherDevice);
                }
            },
        }
        match self.shaders.get(&fragment_shader) {
            None => Err(RasterError::InvalidFragmentShader),
            Some(owner) => if *owner != device {
                Err(RasterError::FragmentShaderOnOtherDevice)
            } else {
                Ok(())
            },
        }
    }

    /// Enters a pipeline that was made.
    pub fn finish_pipeline(&mut self, pipeline: CudaGraphicsPipeline) -> (handle: u64)
        requires
            old(self).next_pipeline < u64::MAX,
        ensures
            handle == old(self).next_pipeline,
            final(self).pipelines@ == old(self).pipelines@.insert(handle, pipeline),
            *final(self) == (RasterTables {
                pipelines: final(self).pipelines,
                next_pipeline: (handle + 1) as u64,
                ..*old(self)
            }),
    {
        let handle: u64 = self.next_pipeline;
        self.next_pipeline = handle + 1;
        self.pipelines.insert(handle, pipeline);
        handle
    }

    /// Forgets a pipeline.
    pub fn destroy_pipeline(&mut self, pipeline: u64)
        ensures
            final(self).pipelines@ == old(self).pipelines@.remove(pipeline),
            *final(self) == (RasterTables { pipelines: final(self).pipelines, ..*old(self) }),
    {
        self.pipelines.remove(&pipeline);
    }

    /// Checks a render target before it is made.
    pub fn plan_render_target(
        &self,
        device: u64,
        width: u32,
        height: u32,
        color_format: TextureFormat,
        depth: bool,
    ) -> (result: Result<(), RasterError>)
        ensures
            result == target_check(*self, device, width, height, color_format, depth),
    {
        if depth {
            return Err(RasterError::DepthUnsupported);
        }
        match color_format {
            TextureFormat::Rgba32Float => {},
            _ => {
                return Err(RasterError::UnsupportedRenderTargetFormat { format: color_format });
            },
        }
        if width == 0 || height == 0 {
            return Err(RasterError::ZeroDimension);
        }
        self.companion(device)
    }

    /// Enters a render target that was made, and its texture under its storage slot.
    pub fn finish_render_target(&mut self, device: u64, width: u32, height: u32, parts: TargetParts) -> (handle:
        u64)
        requires
            old(self).next_texture < u64::MAX,
            old(self).next_render_target < u64::MAX,
        ensures
            handle == old(self).next_render_target,
            final(self).texture_slots@ == old(self).texture_slots@.insert(
                parts.storage_slot,
                old(self).next_texture,
            ),
            final(self).textures@ == old(self).textures@.insert(
                old(self).next_texture,
                target_texture(parts, width, height),
            ),
            final(self).render_targets@ == old(self).render_targets@.insert(
                handle,
                CudaRenderTarget {
                    device,
                    width,
                    height,
                    format: TextureFormat::Rgba32Float,
                    cuda_texture: target_texture(parts, width, height),
                    resource: parts.resource,
                    rtv_offset: parts.rtv_offset,
                    last_dx12_fence: 0,
                },
            ),
            *final(self) == (RasterTables {
                textures: final(self).textures,
                texture_slots: final(self).texture_slots,
                render_targets: final(self).render_targets,
                next_texture: (old(self).next_texture + 1) as u64,
                next_render_target: (handle + 1) as u64,
                ..*old(self)
            }),
    {
        let texture = CudaTexture {
            id: parts.texture_id,
            width,
            height,
            format: TextureFormat::Rgba32Float,
            kind: TextureKind::Direct,
            imported: true,
            srgb: false,
            storage_slot: Some(parts.storage_slot),
            sampled_slot: None,
        };
        let texture_handle: u64 = self.next_texture;
        self.next_texture = texture_handle + 1;
        self.texture_slots.insert(parts.storage_slot, texture_handle);
        self.textures.insert(texture_handle, texture);
        let handle: u64 = self.next_render_target;
        self.next_render_target = handle + 1;
        self.render_targets.insert(
            handle,
            CudaRenderTarget {
                device,
                width,
                height,
                format: TextureFormat::Rgba32Float,
                cuda_texture: texture,
                resource: parts.resource,
                rtv_offset: parts.rtv_offset,
                last_dx12_fence: 0,
            },
        );
        handle
    }

    /// Forgets a render target.
    pub fn destroy_render_target(&mut self, target: u64)
        ensures
            final(self).render_targets@ == old(self).render_targets@.remove(target),
            *final(self) == (RasterTables {
                render_targets: final(self).render_targets,
                ..*old(self)
            }),
    {
        self.render_targets.remove(&target);
    }

    /// Plans the copy of a render target into a texture: the stream first waits for
    /// the pass that rendered to it.
    pub fn copy_render_target(&self, src: u64, dst: u64) -> (copy: Result<TargetCopy, RasterError>)
        requires
            self.render_targets@.contains_key(src) ==> self.render_targets@[src].cuda_texture.wf(),
        ensures
            copy == (if !self.render_targets@.contains_key(src) {
                Err(RasterError::InvalidCopySource)
            } else if !self.textures@.contains_key(dst) {
                Err(RasterError::InvalidCopyDestination)
            } else {
                let from = self.render_targets@[src].cuda_texture;
                let to = self.textures@[dst];
                let fence = self.render_targets@[src].last_dx12_fence;
                let device = self.render_targets@[src].device;
                if from.format != to.format {
                    Err(RasterError::CopyFormatMismatch { from: from.format, to: to.format })
                } else if from.width != to.width || from.height != to.height {
                    Err(
                        RasterError::CopySizeMismatch {
                            width: from.width,
                            height: from.height,
                            to_width: to.width,
                            to_height: to.height,
                        },
                    )
                } else if fence > 0 && companion_check(*self, device) is Err {
                    Err(companion_check(*self, device)->Err_0)
                } else {
                    Ok(
                        TargetCopy {
                            wait: fence,
                            copy: super::execute::texture_copy(from, to)->Ok_0,
                        },
                    )
                }
            }),
    {
        let target = match self.render_targets.get(&src) {
            Some(target) => *target,
            None => {
                return Err(RasterError::InvalidCopySource);
            },
        };
        let to = match self.textures.get(&dst) {
            Some(texture) => *texture,
            None => {
                return Err(RasterError::InvalidCopyDestination);
            },
        };
        let from = target.cuda_texture;
        if from.format != to.format {
            return Err(RasterError::CopyFormatMismatch { from: from.format, to: to.format });
        }
        if from.width != to.width || from.height != to.height {
            return Err(
                RasterError::CopySizeMismatch {
                    width: from.width,
                    height: from.height,
                    to_width: to.width,
                    to_height: to.height,
                },
            );
        }
        if target.last_dx12_fence > 0 {
            if let Err(e) = self.companion(target.device) {
                return Err(e);
            }
        }
        match memcpy_array_to_array(&from, &to) {
            Ok(copy) => Ok(TargetCopy { wait: target.last_dx12_fence, copy }),
            Err(_) => Err(RasterError::InvalidCopyDestination),
        }
    }
}

} // verus!
