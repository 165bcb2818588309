use vstd::prelude::*;
use crate::format::SinkConfig;

verus! {

/// The directory that holds the log files.
pub const LOG_DIRECTORY: &'static str = "./logs";

/// The prefix of every log file's name.
pub const LOG_PREFIX: &'static str = "app.log";

/// The console sink: coloured, with thread id and name, file and line, no target.
pub fn console_config() -> (c: SinkConfig)
    ensures
        c == (SinkConfig {
            with_target: false,
            with_ansi: true,
            with_thread_ids: true,
            with_thread_names: true,
            with_file: true,
            with_line_number: true,
        }),
{
    SinkConfig {
        with_target: false,
        with_ansi: true,
        with_thread_ids: true,
        with_thread_names: true,
        with_file: true,
        with_line_number: true,
    }
}

/// The file sink: as the console, but without colour codes.
pub fn file_config() -> (c: SinkConfig)
    ensures
        c == (SinkConfig {
            with_target: false,
            with_ansi: false,
            with_thread_ids: true,
            with_thread_names: true,
            with_file: true,
            with_line_number: true,
        }),
{
    SinkConfig {
        with_target: false,
        with_ansi: false,
        with_thread_ids: true,
        with_thread_names: true,
        with_file: true,
        with_line_number: true,
    }
}

} // verus!
