use quick::telemetry::{BenchmarkTimer, ProcessMetrics};

#[test]
fn status_report_is_read() {
    let status = "Name:\tquick\nVmSize:\t  123456 kB\nVmRSS:\t    4096 kB\r\nThreads:\t1\n";
    let m = ProcessMetrics::from_status(status);
    assert_eq!(m.rss_kb, 4096);
    assert_eq!(m.virtual_kb, 123456);
}

#[test]
fn later_lines_win_and_bad_amounts_are_skipped() {
    let status = "VmRSS: 10 kB\nVmRSS: 20 kB\nVmSize: lots kB\nVmSize: 5 MB";
    let m = ProcessMetrics::from_status(status);
    assert_eq!(m.rss_kb, 20);
    assert_eq!(m.virtual_kb, 0);
    assert_eq!(ProcessMetrics::from_status(""), ProcessMetrics::default());
    assert_eq!(ProcessMetrics::from_status(" VmRSS: 1 kB").rss_kb, 0);
    assert_eq!(ProcessMetrics::from_status("VmRSS: 99999999999999999999 kB").rss_kb, 0);
}

#[test]
fn timer_counts_up() {
    let t = BenchmarkTimer::start("work");
    assert_eq!(t.name(), "work");
    let a = t.elapsed_ns();
    let b = t.elapsed_ns();
    assert!(b >= a);
}
