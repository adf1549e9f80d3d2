//! Task bookkeeping and the process-management syscalls of a small
//! cooperative, single-core kernel.
pub mod config;
pub mod process;
pub mod task;
