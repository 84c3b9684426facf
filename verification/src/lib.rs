//! A small structured-logging library: leveled log events are formatted as
//! JSON lines and handed to pluggable sinks, one of which rotates output
//! files once a configured number of lines has been written to the current
//! file.

pub mod console_writer;
pub mod decode;
pub mod file_store;
pub mod json;
pub mod log_entry;
pub mod logger;
pub mod memory_writer;
pub mod multi_writer;
pub mod rotation_writer;
pub mod sink_kind;
pub mod text;
pub mod writer;
