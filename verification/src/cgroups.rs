//! The per-cgroup snapshot record: the resolved display name, the optional
//! per-controller kernel statistics, and the aggregated per-process
//! counters. A snapshot is assembled fresh every scrape and never mutated
//! afterwards.

use vstd::prelude::*;

use crate::cpu_stat::CpuStat;
use crate::procs::{
    fd_term, io_read_term, io_write_term, majflt_term, min_start, minflt_term, rss_term,
    stime_term, sum_of, sums_fit, threads_term, utime_term, ProcessMetrics, RawProcessSample,
};

verus! {

/// Controller statistics for the memory controller, carried through from
/// the cgroup filesystem reader for serialization.
#[verifier::external_type_specification]
#[verifier::external_body]
pub struct ExMemory(cgroups_rs::fs::memory::Memory);

/// CPU-accounting controller statistics, carried through.
#[verifier::external_type_specification]
#[verifier::external_body]
pub struct ExCpuAcct(cgroups_rs::fs::cpuacct::CpuAcct);

/// Cpuset controller state, carried through.
#[verifier::external_type_specification]
#[verifier::external_body]
pub struct ExCpuSet(cgroups_rs::fs::cpuset::CpuSet);

/// Block-I/O controller statistics, carried through.
#[verifier::external_type_specification]
#[verifier::external_body]
pub struct ExBlkIo(cgroups_rs::fs::blkio::BlkIo);

/// One cgroup's snapshot: its externally visible name, whatever controller
/// records were available (absence means the accounting facility is not
/// enabled for the hierarchy, not an error), and the aggregated counters of
/// its member processes.
pub struct CgroupMetrics {
    pub name: String,
    pub cpu: Option<CpuStat>,
    pub cpuacct: Option<cgroups_rs::fs::cpuacct::CpuAcct>,
    pub cpuset: Option<cgroups_rs::fs::cpuset::CpuSet>,
    pub memory: Option<cgroups_rs::fs::memory::Memory>,
    pub blkio: Option<cgroups_rs::fs::blkio::BlkIo>,
    pub rss: u64,
    pub utime_ticks: u64,
    pub stime_ticks: u64,
    pub cpu_ticks_total: u64,
    pub memory_usage_bytes: u64,
    pub num_fds: u64,
    pub num_procs: u64,
    pub num_threads: u64,
    pub io_read_bytes_total: u64,
    pub io_write_bytes_total: u64,
    pub major_page_faults_total: u64,
    pub minor_page_faults_total: u64,
    pub start_time: Option<i64>,
}

impl CgroupMetrics {
    /// Whether the aggregated fields of `self` are exactly those of `m`.
    pub open spec fn carries_proc_metrics(self, m: ProcessMetrics) -> bool {
        &&& self.rss == m.rss
        &&& self.memory_usage_bytes == m.memory_usage_bytes
        &&& self.utime_ticks == m.utime_ticks
        &&& self.stime_ticks == m.stime_ticks
        &&& self.cpu_ticks_total == m.cpu_ticks_total
        &&& self.num_fds == m.num_fds
        &&& self.num_procs == m.num_procs
        &&& self.num_threads == m.num_threads
        &&& self.io_read_bytes_total == m.io_read_bytes_total
        &&& self.io_write_bytes_total == m.io_write_bytes_total
        &&& self.major_page_faults_total == m.major_page_faults_total
        &&& self.minor_page_faults_total == m.minor_page_faults_total
        &&& self.start_time == m.start_time
    }

    /// Copies the aggregated counters of `metrics` into this snapshot,
    /// leaving the name and the controller records as they were.
    fn set_proc_metrics(&mut self, metrics: &ProcessMetrics)
        ensures
            final(self).carries_proc_metrics(*metrics),
            final(self).name == old(self).name,
            final(self).cpu == old(self).cpu,
            final(self).cpuacct == old(self).cpuacct,
            final(self).cpuset == old(self).cpuset,
            final(self).memory == old(self).memory,
            final(self).blkio == old(self).blkio,
    {
        self.rss = metrics.rss;
        self.memory_usage_bytes = metrics.memory_usage_bytes;
        self.utime_ticks = metrics.utime_ticks;
        self.stime_ticks = metrics.stime_ticks;
        self.cpu_ticks_total = metrics.cpu_ticks_total;
        self.num_fds = metrics.num_fds;
        self.num_procs = metrics.num_procs;
        self.num_threads = metrics.num_threads;
        self.io_read_bytes_total = metrics.io_read_bytes_total;
        self.io_write_bytes_total = metrics.io_write_bytes_total;
        self.major_page_faults_total = metrics.major_page_faults_total;
        self.minor_page_faults_total = metrics.minor_page_faults_total;
        self.start_time = metrics.start_time;
    }

    /// Assembles one snapshot from an already-resolved name, the controller
    /// records that were available, and the member-process samples, which
    /// are folded through the aggregator in one pass.
    pub fn from_parts(
        name: String,
        cpu: Option<CpuStat>,
        cpuacct: Option<cgroups_rs::fs::cpuacct::CpuAcct>,
        cpuset: Option<cgroups_rs::fs::cpuset::CpuSet>,
        memory: Option<cgroups_rs::fs::memory::Memory>,
        blkio: Option<cgroups_rs::fs::blkio::BlkIo>,
        samples: &Vec<RawProcessSample>,
        page_size: u64,
    ) -> (r: CgroupMetrics)
        requires
            sums_fit(samples@, page_size),
        ensures
            r.name@ == name@,
            r.cpu == cpu,
            r.cpuacct == cpuacct,
            r.cpuset == cpuset,
            r.memory == memory,
            r.blkio == blkio,
            r.rss == sum_of(samples@, rss_term(page_size)),
            r.memory_usage_bytes == r.rss,
            r.utime_ticks == sum_of(samples@, utime_term()),
            r.stime_ticks == sum_of(samples@, stime_term()),
            r.cpu_ticks_total == r.utime_ticks + r.stime_ticks,
            r.num_threads == sum_of(samples@, threads_term()),
            r.major_page_faults_total == sum_of(samples@, majflt_term()),
            r.minor_page_faults_total == sum_of(samples@, minflt_term()),
            r.io_read_bytes_total == sum_of(samples@, io_read_term()),
            r.io_write_bytes_total == sum_of(samples@, io_write_term()),
            r.num_fds == sum_of(samples@, fd_term()),
            r.num_procs == samples@.len(),
            r.start_time == min_start(samples@),
    {
        let metrics = ProcessMetrics::from_processes(samples, "", page_size);
        let mut snapshot = CgroupMetrics {
            name,
            cpu,
            cpuacct,
            cpuset,
            memory,
            blkio,
            rss: 0,
            utime_ticks: 0,
            stime_ticks: 0,
            cpu_ticks_total: 0,
            memory_usage_bytes: 0,
            num_fds: 0,
            num_procs: 0,
            num_threads: 0,
            io_read_bytes_total: 0,
            io_write_bytes_total: 0,
            major_page_faults_total: 0,
            minor_page_faults_total: 0,
            start_time: None,
        };
        snapshot.set_proc_metrics(&metrics);
        snapshot
    }

    /// The display name the snapshot was built with.
    pub fn name(&self) -> (r: &str)
        ensures
            r@ == self.name@,
    {
        self.name.as_str()
    }
}

} // verus!
