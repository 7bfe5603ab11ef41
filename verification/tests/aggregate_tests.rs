use cgroups_exporter::cgroups::CgroupMetrics;
use cgroups_exporter::cpu_stat::parse_v2_stat;
use cgroups_exporter::procs::{ProcIo, ProcessMetrics, RawProcessSample};

const PAGE: u64 = 4096;

fn sample() -> RawProcessSample {
    RawProcessSample {
        rss: 0,
        utime: 0,
        stime: 0,
        num_threads: 0,
        majflt: 0,
        minflt: 0,
        io: None,
        fd_count: None,
        start_time: None,
    }
}

#[test]
fn empty_input_aggregates_to_all_zero_and_absent_start_time() {
    let samples: Vec<RawProcessSample> = Vec::new();
    let m = ProcessMetrics::from_processes(&samples, "empty", PAGE);
    assert_eq!(m.name(), "empty");
    assert_eq!(m.rss, 0);
    assert_eq!(m.memory_usage_bytes, 0);
    assert_eq!(m.utime_ticks, 0);
    assert_eq!(m.stime_ticks, 0);
    assert_eq!(m.cpu_ticks_total, 0);
    assert_eq!(m.num_fds, 0);
    assert_eq!(m.num_procs, 0);
    assert_eq!(m.num_threads, 0);
    assert_eq!(m.io_read_bytes_total, 0);
    assert_eq!(m.io_write_bytes_total, 0);
    assert_eq!(m.major_page_faults_total, 0);
    assert_eq!(m.minor_page_faults_total, 0);
    assert_eq!(m.start_time, None);
}

#[test]
fn absent_io_counters_contribute_zero_not_an_error() {
    let sample_a = RawProcessSample {
        io: Some(ProcIo {
            read_bytes: 700,
            write_bytes: 300,
        }),
        ..sample()
    };
    let sample_b = sample();
    let m = ProcessMetrics::from_processes(&vec![sample_a, sample_b], "", PAGE);
    assert_eq!(m.io_read_bytes_total, 700);
    assert_eq!(m.io_write_bytes_total, 300);
    assert_eq!(m.num_procs, 2);
}

#[test]
fn counters_sum_over_all_samples() {
    let a = RawProcessSample {
        rss: 3,
        utime: 10,
        stime: 4,
        num_threads: 2,
        majflt: 1,
        minflt: 100,
        io: Some(ProcIo {
            read_bytes: 5,
            write_bytes: 6,
        }),
        fd_count: Some(7),
        start_time: Some(1000),
    };
    let b = RawProcessSample {
        rss: 2,
        utime: 1,
        stime: 2,
        num_threads: 1,
        majflt: 0,
        minflt: 50,
        io: Some(ProcIo {
            read_bytes: 10,
            write_bytes: 20,
        }),
        fd_count: None,
        start_time: Some(900),
    };
    let m = ProcessMetrics::from_processes(&vec![a, b], "group", PAGE);
    assert_eq!(m.rss, 5 * PAGE);
    assert_eq!(m.memory_usage_bytes, 5 * PAGE);
    assert_eq!(m.utime_ticks, 11);
    assert_eq!(m.stime_ticks, 6);
    assert_eq!(m.cpu_ticks_total, 17);
    assert_eq!(m.num_threads, 3);
    assert_eq!(m.major_page_faults_total, 1);
    assert_eq!(m.minor_page_faults_total, 150);
    assert_eq!(m.io_read_bytes_total, 15);
    assert_eq!(m.io_write_bytes_total, 26);
    assert_eq!(m.num_fds, 7);
    assert_eq!(m.num_procs, 2);
    assert_eq!(m.start_time, Some(900));
}

#[test]
fn start_time_is_the_minimum_of_present_start_times() {
    let with_time = |t: Option<i64>| RawProcessSample {
        start_time: t,
        ..sample()
    };
    let m = ProcessMetrics::from_processes(
        &vec![with_time(Some(50)), with_time(None), with_time(Some(20)), with_time(Some(90))],
        "",
        PAGE,
    );
    assert_eq!(m.start_time, Some(20));
    assert_eq!(m.num_procs, 4);
}

#[test]
fn start_time_stays_absent_when_no_sample_has_one() {
    let m = ProcessMetrics::from_processes(&vec![sample(), sample()], "", PAGE);
    assert_eq!(m.start_time, None);
}

#[test]
fn snapshot_assembles_name_controllers_and_aggregates() {
    let cpu = parse_v2_stat("usage_usec 100\nuser_usec 60\n");
    let samples = vec![RawProcessSample {
        rss: 1,
        utime: 2,
        stime: 3,
        ..sample()
    }];
    let snapshot = CgroupMetrics::from_parts(
        "session-1.scope".to_string(),
        Some(cpu),
        None,
        None,
        None,
        None,
        &samples,
        PAGE,
    );
    assert_eq!(snapshot.name(), "session-1.scope");
    assert_eq!(snapshot.cpu.unwrap().usage_usec, Some(100));
    assert!(snapshot.cpuacct.is_none());
    assert!(snapshot.cpuset.is_none());
    assert!(snapshot.memory.is_none());
    assert!(snapshot.blkio.is_none());
    assert_eq!(snapshot.rss, PAGE);
    assert_eq!(snapshot.utime_ticks, 2);
    assert_eq!(snapshot.stime_ticks, 3);
    assert_eq!(snapshot.cpu_ticks_total, 5);
    assert_eq!(snapshot.num_procs, 1);
    assert_eq!(snapshot.start_time, None);
}
