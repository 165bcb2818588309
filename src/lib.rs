//! A small dual-sink logging facility: log records are formatted for an
//! interactive console and, through a bounded queue drained by one consumer,
//! appended to hourly rotated files.
//!
//! The library decides; the host performs the I/O. Every decision (what line a
//! record becomes, when a file rotates and under which name, which record a
//! full queue drops, when the facility has drained) is a verified function.

pub mod data;
pub mod format;
pub mod logger;
pub mod queue;
pub mod record;
pub mod rotation;
pub mod setup;

pub use data::Data;
pub use format::{SinkConfig, format_record};
pub use logger::{Lifecycle, Logger};
pub use queue::{BoundedQueue, DropPolicy};
pub use record::{Level, LogRecord, Timestamp, Window};
pub use rotation::{FileWrite, RotatingFileSink, file_name};
pub use setup::{LOG_DIRECTORY, LOG_PREFIX, console_config, file_config};
