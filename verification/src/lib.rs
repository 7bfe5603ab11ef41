//! Core engine of a cgroup metrics exporter: name-resolution rules for
//! matched cgroups and aggregation of per-process OS counters into one
//! summary record per cgroup.

pub mod cgroups;
pub mod cpu_stat;
pub mod matcher;
pub mod procs;
pub mod resolve;
pub mod shell;
pub mod template;
pub mod text;
