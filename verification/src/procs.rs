//! Aggregation of per-process OS counters into one summary record: a single
//! pass over fully-constructed samples, where a sample's absent optional
//! fields contribute nothing rather than spoiling the running sums.

use vstd::arithmetic::mul::lemma_mul_nonnegative;
use vstd::prelude::*;

verus! {

/// I/O byte counters of one process, when they could be read.
#[derive(Clone, Copy, Debug, PartialEq, Eq)]
pub struct ProcIo {
    pub read_bytes: u64,
    pub write_bytes: u64,
}

/// Point-in-time snapshot of one process. A field that is an `Option` is
/// absent when its source was unreadable (permissions, or the process had
/// already exited); such a sample still counts towards the aggregate.
#[derive(Clone, Copy, Debug, PartialEq, Eq)]
pub struct RawProcessSample {
    /// Resident memory, in pages.
    pub rss: u64,
    /// User-mode CPU time, in clock ticks.
    pub utime: u64,
    /// Kernel-mode CPU time, in clock ticks.
    pub stime: u64,
    pub num_threads: u64,
    pub majflt: u64,
    pub minflt: u64,
    pub io: Option<ProcIo>,
    pub fd_count: Option<u64>,
    /// Start time as an absolute timestamp, seconds since the epoch.
    pub start_time: Option<i64>,
}

/// Aggregated counters over the samples of one cgroup (or any other group of
/// processes). CPU time is kept in clock ticks and memory in bytes, so every
/// field is an exact integer; a host that reports seconds divides the tick
/// sums by the clock rate itself.
#[derive(Clone, Debug)]
pub struct ProcessMetrics {
    pub name: String,
    /// Resident memory of all samples, in bytes.
    pub rss: u64,
    pub utime_ticks: u64,
    pub stime_ticks: u64,
    pub cpu_ticks_total: u64,
    pub memory_usage_bytes: u64,
    pub num_fds: u64,
    pub num_procs: u64,
    pub num_threads: u64,
    pub io_read_bytes_total: u64,
    pub io_write_bytes_total: u64,
    pub major_page_faults_total: u64,
    pub minor_page_faults_total: u64,
    /// Earliest start time over the samples that had one; absent when none had.
    pub start_time: Option<i64>,
}

/// Sum of `f` over the samples of `s`.
pub open spec fn sum_of(s: Seq<RawProcessSample>, f: spec_fn(RawProcessSample) -> int) -> int
    decreases s.len(),
{
    if s.len() == 0 {
        0
    } else {
        sum_of(s.drop_last(), f) + f(s.last())
    }
}

pub open spec fn nonneg_terms(f: spec_fn(RawProcessSample) -> int) -> bool {
    forall|p: RawProcessSample| #[trigger] f(p) >= 0
}

pub open spec fn rss_term(page_size: u64) -> spec_fn(RawProcessSample) -> int {
    |p: RawProcessSample| p.rss * page_size
}

pub open spec fn utime_term() -> spec_fn(RawProcessSample) -> int {
    |p: RawProcessSample| p.utime as int
}

pub open spec fn stime_term() -> spec_fn(RawProcessSample) -> int {
    |p: RawProcessSample| p.stime as int
}

pub open spec fn threads_term() -> spec_fn(RawProcessSample) -> int {
    |p: RawProcessSample| p.num_threads as int
}

pub open spec fn majflt_term() -> spec_fn(RawProcessSample) -> int {
    |p: RawProcessSample| p.majflt as int
}

pub open spec fn minflt_term() -> spec_fn(RawProcessSample) -> int {
    |p: RawProcessSample| p.minflt as int
}

pub open spec fn io_read_term() -> spec_fn(RawProcessSample) -> int {
    |p: RawProcessSample|
        match p.io {
            Some(io) => io.read_bytes as int,
            None => 0,
        }
}

pub open spec fn io_write_term() -> spec_fn(RawProcessSample) -> int {
    |p: RawProcessSample|
        match p.io {
            Some(io) => io.write_bytes as int,
            None => 0,
        }
}

pub open spec fn fd_term() -> spec_fn(RawProcessSample) -> int {
    |p: RawProcessSample|
        match p.fd_count {
            Some(n) => n as int,
            None => 0,
        }
}

/// Minimum of the start times that are present, or absent when none is.
pub open spec fn min_start(s: Seq<RawProcessSample>) -> Option<i64>
    decreases s.len(),
{
    if s.len() == 0 {
        None
    } else {
        match (min_start(s.drop_last()), s.last().start_time) {
            (None, t) => t,
            (Some(m), None) => Some(m),
            (Some(m), Some(t)) => Some(if t < m { t } else { m }),
        }
    }
}

/// The start time of an aggregate is the minimum of the start times that
/// are present among the samples: it is absent exactly when every sample's
/// start time is absent, and otherwise it is a present start time that no
/// present start time undercuts.
pub proof fn lemma_min_start_is_minimum(s: Seq<RawProcessSample>)
    ensures
        (min_start(s) is None) <==> (forall|i: int|
            0 <= i < s.len() ==> s[i].start_time is None),
        min_start(s) matches Some(m) ==> (exists|i: int|
            0 <= i < s.len() && #[trigger] s[i].start_time == Some(m)) && (forall|i: int|
            0 <= i < s.len() ==> ((#[trigger] s[i].start_time) matches Some(t) ==> m <= t)),
    decreases s.len(),
{
    if s.len() > 0 {
        lemma_min_start_is_minimum(s.drop_last());
        assert forall|i: int| 0 <= i < s.drop_last().len() implies s.drop_last()[i] == s[i] by {}
        match min_start(s) {
            None => {
                assert(s.last() == s[s.len() - 1]);
            },
            Some(m) => {
                match (min_start(s.drop_last()), s.last().start_time) {
                    (None, t) => {
                        assert(t == Some(m));
                        assert(s[s.len() - 1].start_time == Some(m));
                    },
                    (Some(m0), None) => {
                        let w = choose|i: int|
                            0 <= i < s.drop_last().len() && s.drop_last()[i].start_time == Some(
                                m0,
                            );
                        assert(s[w].start_time == Some(m));
                    },
                    (Some(m0), Some(t)) => {
                        if t < m0 {
                            assert(s[s.len() - 1].start_time == Some(m));
                        } else {
                            let w = choose|i: int|
                                0 <= i < s.drop_last().len() && s.drop_last()[i].start_time
                                    == Some(m0);
                            assert(s[w].start_time == Some(m));
                        }
                    },
                }
            },
        }
    }
}

/// The machine limit on aggregation: every total fits in a `u64`.
pub open spec fn sums_fit(s: Seq<RawProcessSample>, page_size: u64) -> bool {
    &&& sum_of(s, rss_term(page_size)) <= u64::MAX
    &&& sum_of(s, utime_term()) + sum_of(s, stime_term()) <= u64::MAX
    &&& sum_of(s, threads_term()) <= u64::MAX
    &&& sum_of(s, majflt_term()) <= u64::MAX
    &&& sum_of(s, minflt_term()) <= u64::MAX
    &&& sum_of(s, io_read_term()) <= u64::MAX
    &&& sum_of(s, io_write_term()) <= u64::MAX
    &&& sum_of(s, fd_term()) <= u64::MAX
}

proof fn lemma_terms_nonneg(page_size: u64)
    ensures
        nonneg_terms(rss_term(page_size)),
        nonneg_terms(utime_term()),
        nonneg_terms(stime_term()),
        nonneg_terms(threads_term()),
        nonneg_terms(majflt_term()),
        nonneg_terms(minflt_term()),
        nonneg_terms(io_read_term()),
        nonneg_terms(io_write_term()),
        nonneg_terms(fd_term()),
{
    assert forall|p: RawProcessSample| #[trigger] rss_term(page_size)(p) >= 0 by {
        lemma_mul_nonnegative(p.rss as int, page_size as int);
    }
}

proof fn lemma_sum_take_step(s: Seq<RawProcessSample>, f: spec_fn(RawProcessSample) -> int, i: int)
    requires
        0 <= i < s.len(),
    ensures
        sum_of(s.take(i + 1), f) == sum_of(s.take(i), f) + f(s[i]),
{
    assert(s.take(i + 1).drop_last() =~= s.take(i));
    assert(s.take(i + 1).last() == s[i]);
}

proof fn lemma_sum_nonneg(s: Seq<RawProcessSample>, f: spec_fn(RawProcessSample) -> int)
    requires
        nonneg_terms(f),
    ensures
        sum_of(s, f) >= 0,
    decreases s.len(),
{
    if s.len() > 0 {
        lemma_sum_nonneg(s.drop_last(), f);
    }
}

proof fn lemma_sum_prefix_le(s: Seq<RawProcessSample>, f: spec_fn(RawProcessSample) -> int, i: int)
    requires
        nonneg_terms(f),
        0 <= i <= s.len(),
    ensures
        sum_of(s.take(i), f) <= sum_of(s, f),
    decreases s.len() - i,
{
    if i == s.len() {
        assert(s.take(i) =~= s);
    } else {
        lemma_sum_take_step(s, f, i);
        lemma_sum_prefix_le(s, f, i + 1);
    }
}

/// All the bounds one loop step needs for one running sum.
proof fn lemma_step_bounds(s: Seq<RawProcessSample>, f: spec_fn(RawProcessSample) -> int, i: int)
    requires
        nonneg_terms(f),
        0 <= i < s.len(),
        sum_of(s, f) <= u64::MAX,
    ensures
        sum_of(s.take(i + 1), f) == sum_of(s.take(i), f) + f(s[i]),
        0 <= sum_of(s.take(i), f),
        sum_of(s.take(i), f) + f(s[i]) <= u64::MAX,
        0 <= f(s[i]),
{
    lemma_sum_take_step(s, f, i);
    assert(nonneg_terms(f));
    lemma_sum_nonneg(s.take(i), f);
    lemma_sum_prefix_le(s, f, i + 1);
    assert(f(s[i]) >= 0);
}

impl ProcessMetrics {
    /// Folds the samples into one record in a single pass. Absent I/O or
    /// file-descriptor counters contribute zero; the start time is the
    /// minimum of the start times that are present; `num_procs` counts every
    /// sample. An empty sequence of samples yields an all-zero record with an
    /// absent start time.
    pub fn from_processes(samples: &Vec<RawProcessSample>, name: &str, page_size: u64) -> (r:
        ProcessMetrics)
        requires
            sums_fit(samples@, page_size),
        ensures
            r.name@ == name@,
            r.rss == sum_of(samples@, rss_term(page_size)),
            r.memory_usage_bytes == r.rss,
            r.utime_ticks == sum_of(samples@, utime_term()),
            r.stime_ticks == sum_of(samples@, stime_term()),
            r.cpu_ticks_total == r.utime_ticks + r.stime_ticks,
            r.num_threads == sum_of(samples@, threads_term()),
            r.major_page_faults_total == sum_of(samples@, majflt_term()),
            r.minor_page_faults_total == sum_of(samples@, minflt_term()),
            r.io_read_bytes_total == sum_of(samples@, io_read_term()),
            r.io_write_bytes_total == sum_of(samples@, io_write_term()),
            r.num_fds == sum_of(samples@, fd_term()),
            r.num_procs == samples@.len(),
            r.start_time == min_start(samples@),
    {
        let mut rss_acc: u64 = 0;
        let mut utime_acc: u64 = 0;
        let mut stime_acc: u64 = 0;
        let mut threads_acc: u64 = 0;
        let mut majflt_acc: u64 = 0;
        let mut minflt_acc: u64 = 0;
        let mut io_read_acc: u64 = 0;
        let mut io_write_acc: u64 = 0;
        let mut fd_acc: u64 = 0;
        let mut start_min: Option<i64> = None;
        let mut i: usize = 0;
        proof {
            assert(samples@.take(0) =~= Seq::<RawProcessSample>::empty());
        }
        while i < samples.len()
            invariant
                i <= samples.len(),
                sums_fit(samples@, page_size),
                rss_acc == sum_of(samples@.take(i as int), rss_term(page_size)),
                utime_acc == sum_of(samples@.take(i as int), utime_term()),
                stime_acc == sum_of(samples@.take(i as int), stime_term()),
                threads_acc == sum_of(samples@.take(i as int), threads_term()),
                majflt_acc == sum_of(samples@.take(i as int), majflt_term()),
                minflt_acc == sum_of(samples@.take(i as int), minflt_term()),
                io_read_acc == sum_of(samples@.take(i as int), io_read_term()),
                io_write_acc == sum_of(samples@.take(i as int), io_write_term()),
                fd_acc == sum_of(samples@.take(i as int), fd_term()),
                start_min == min_start(samples@.take(i as int)),
            decreases samples.len() - i,
        {
            let p = samples[i];
            proof {
                lemma_terms_nonneg(page_size);
                lemma_sum_nonneg(samples@, utime_term());
                lemma_sum_nonneg(samples@, stime_term());
                lemma_step_bounds(samples@, rss_term(page_size), i as int);
                lemma_step_bounds(samples@, utime_term(), i as int);
                lemma_step_bounds(samples@, stime_term(), i as int);
                lemma_step_bounds(samples@, threads_term(), i as int);
                lemma_step_bounds(samples@, majflt_term(), i as int);
                lemma_step_bounds(samples@, minflt_term(), i as int);
                lemma_step_bounds(samples@, io_read_term(), i as int);
                lemma_step_bounds(samples@, io_write_term(), i as int);
                lemma_step_bounds(samples@, fd_term(), i as int);
                lemma_sum_prefix_le(samples@, utime_term(), i + 1);
                lemma_sum_prefix_le(samples@, stime_term(), i + 1);
                assert(samples@.take(i + 1).drop_last() =~= samples@.take(i as int));
                assert(samples@.take(i + 1).last() == samples@[i as int]);
            }
            rss_acc = rss_acc + p.rss * page_size;
            utime_acc = utime_acc + p.utime;
            stime_acc = stime_acc + p.stime;
            threads_acc = threads_acc + p.num_threads;
            majflt_acc = majflt_acc + p.majflt;
            minflt_acc = minflt_acc + p.minflt;
            match p.io {
                Some(io) => {
                    io_read_acc = io_read_acc + io.read_bytes;
                    io_write_acc = io_write_acc + io.write_bytes;
                },
                None => {},
            }
            match p.fd_count {
                Some(n) => {
                    fd_acc = fd_acc + n;
                },
                None => {},
            }
            match p.start_time {
                Some(t) => {
                    start_min = Some(
                        match start_min {
                            Some(m) => if t < m {
                                t
                            } else {
                                m
                            },
                            None => t,
                        },
                    );
                },
                None => {},
            }
            i = i + 1;
        }
        proof {
            assert(samples@.take(samples@.len() as int) =~= samples@);
            lemma_terms_nonneg(page_size);
            lemma_sum_nonneg(samples@, utime_term());
            lemma_sum_nonneg(samples@, stime_term());
        }
        let cpu_ticks: u64 = utime_acc + stime_acc;
        ProcessMetrics {
            name: name.to_owned(),
            rss: rss_acc,
            utime_ticks: utime_acc,
            stime_ticks: stime_acc,
            cpu_ticks_total: cpu_ticks,
            memory_usage_bytes: rss_acc,
            num_fds: fd_acc,
            num_procs: samples.len() as u64,
            num_threads: threads_acc,
            io_read_bytes_total: io_read_acc,
            io_write_bytes_total: io_write_acc,
            major_page_faults_total: majflt_acc,
            minor_page_faults_total: minflt_acc,
            start_time: start_min,
        }
    }

    /// The display name the record was built with.
    pub fn name(&self) -> (r: &str)
        ensures
            r@ == self.name@,
    {
        self.name.as_str()
    }
}

} // verus!
