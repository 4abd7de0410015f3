//! Benchmarking of external commands: sampling of a child process's resource
//! use while it runs, and reduction of the samples to summary statistics.

pub mod args;
pub mod benchmark;
pub mod error;
pub mod executor;
pub mod linux;
pub mod monitor;
pub mod process;
pub mod text;
