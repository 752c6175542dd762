//! GPU back ends of the Goldy runtime: what they decide, plan and record.

pub mod cuda;
pub mod dx12;
pub mod text;
