//! Collection of GPU kernel traces from running processes.

pub mod calls;
pub mod constants;
pub mod cuprof;
pub mod cupti_plugin_wrapper;
pub mod events;
pub mod failures;
pub mod init;
pub mod injection;
pub mod messages;
pub mod numbers;
pub mod process;
pub mod releases;
pub mod shutdown;
pub mod staging;
pub mod text;
pub mod trigger;
pub mod unix_handler;
