//! The data model and the raw storage format of a sampling profiler for Ruby
//! programs.

pub mod frame;
pub mod gzip;
mod keyed;
pub mod memory_error;
pub mod output_file;
pub mod output_format;
pub mod scanner_cache;
pub mod storage;
pub mod system;
pub mod text;
pub mod trace;
