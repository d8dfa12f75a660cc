use doublejit_vm::tools::perf::Profiler;

#[test]
fn test_profiler_counters() {
    let mut profiler = Profiler::new();

    profiler.inc_counter("test.counter", 5);
    profiler.inc_counter("test.counter", 3);

    assert_eq!(profiler.get_counter("test.counter"), 8);
}

#[test]
fn test_profiler_disabled() {
    let mut profiler = Profiler::disabled();

    profiler.inc_counter("test.counter", 10);
    {
        let _guard = profiler.start_timer("test.timer");
    }

    assert_eq!(profiler.counter_count(), 0);
    assert_eq!(profiler.timer_count(), 0);
}

#[test]
fn test_format_number() {
    assert_eq!(Profiler::format_number(1000), "1,000");
    assert_eq!(Profiler::format_number(1000000), "1,000,000");
    assert_eq!(Profiler::format_number(42), "42");
}

#[test]
fn durations_accumulate_under_a_name() {
    let mut profiler = Profiler::new();
    profiler.record_duration("stage", 10);
    profiler.record_duration("stage", 4);
    assert_eq!(profiler.timer_count(), 1);
    assert_eq!(profiler.timers[0].1.total_nanos, 14);
    assert_eq!(profiler.timers[0].1.count, 2);
    assert_eq!(profiler.timers[0].1.min_nanos, 4);
    assert_eq!(profiler.timers[0].1.max_nanos, 10);
}

#[test]
fn set_counter_overwrites() {
    let mut profiler = Profiler::new();
    profiler.inc_counter("n", 7);
    profiler.set_counter("n", 2);
    assert_eq!(profiler.get_counter("n"), 2);
    assert_eq!(profiler.get_counter("missing"), 0);
}
