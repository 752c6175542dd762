//! The CUDA back end.

pub mod execute;
pub mod execute_laws;
pub mod flow_laws;
pub mod hold_laws;
pub mod memory;
pub mod operation_laws;
pub mod ops;
pub mod ops_laws;
pub mod pass_laws;
pub mod pinned_host;
pub mod pixels;
pub mod present;
pub mod present_laws;
pub mod raster;
pub mod raster_backing;
pub mod raster_laws;
pub mod raster_pass;
pub mod raster_record;
pub mod raster_run;
pub mod raster_scene_laws;
pub mod raster_shader;
pub mod retained_graph;
pub mod runtime_module;
pub mod submit;
pub mod submit_laws;
pub mod surface;
pub mod surface_evict;
pub mod surface_flow;
pub mod surface_frame;
pub mod surface_laws;
pub mod surface_table;
pub mod table_laws;
pub mod texture;
pub mod texture_objects;
pub mod timeline;
pub mod timeline_laws;
