//! Extraction of embedded, brotli-compressed static assets from the
//! read-only data sections of 64-bit PE and Mach-O executables.

pub mod binary;
pub mod codec;
pub mod dumper;

pub use dumper::Asset;
pub use dumper::Dumper;
