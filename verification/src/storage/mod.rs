//! The versioned raw storage format.
//!
//! A raw data file is a gzip member. Its plain bytes start with a magic number and
//! a version, eight bytes in all:
//!
//!   b"rbspyXY\n"
//!
//! where `XY` is the version in decimal. The final b'\n' reserves a byte, which
//! leaves room for another way to encode versions. What follows is text in lines:
//! from version 2 on a header line, and then one stack trace per line.

pub mod bytes;
pub mod error;
pub mod laws;
pub mod line;
pub mod store;
pub mod stream;
pub mod version;

pub use error::{StorageError, TraceError};
pub use line::{read_line_bounded, LineReader, MAX_LINE_BYTES};
pub use store::Store;
pub use stream::{Record, TraceStream};
pub use version::{read_version, Version};
