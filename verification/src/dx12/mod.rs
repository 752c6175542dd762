//! Direct3D 12 backend.

pub mod accel;
pub mod accel_laws;
pub mod api_log;
pub mod backend;
pub mod backend_laws;
pub mod barriers;
pub mod buffer;
pub mod buffer_io;
pub mod buffer_lifecycle;
pub mod buffer_resize;
pub mod buffer_tiles;
pub mod command_list;
pub mod commands;
pub mod context;
pub mod context_laws;
pub mod deletion;
pub mod descriptor_laws;
pub mod device;
pub mod finish;
pub mod frame_laws;
pub mod frame_table;
pub mod frame_table_init;
pub mod io_laws;
pub mod lifecycle_laws;
pub mod list_laws;
pub mod lowering;
pub mod memory;
pub mod operation_laws;
pub mod outcome_laws;
pub mod pso_cache;
pub mod query_laws;
pub mod record;
pub mod record_laws;
pub mod setting_laws;
pub mod settings;
pub mod staging;
pub mod stream;
pub mod submit;
pub mod submit_laws;
pub mod tables;
pub mod tile_laws;
pub mod types;
