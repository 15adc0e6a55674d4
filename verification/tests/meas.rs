use timeslice::meas::enabled::{usfmt, RtCpuData, RtTaskData};
use timeslice::meas::table::TaskTable;
use timeslice::meas::RuntimeMeas;
use timeslice::text::to_decimal;

fn run(rt: &mut RuntimeMeas, name: &str, core: usize, start: u32, runtime: u32) {
    let begin = rt.meas_begin(start);
    rt.meas_end(name, core, begin, start.wrapping_add(runtime));
}

#[test]
fn decimal_of_small_and_large_numbers() {
    assert_eq!(to_decimal(0), "0");
    assert_eq!(to_decimal(7), "7");
    assert_eq!(to_decimal(10), "10");
    assert_eq!(to_decimal(12345), "12345");
    assert_eq!(to_decimal(1_000_000), "1000000");
    assert_eq!(to_decimal(u64::MAX), "18446744073709551615");
}

#[test]
fn usfmt_below_one_millisecond_is_microseconds() {
    assert_eq!(usfmt(0), "0 us");
    assert_eq!(usfmt(1), "1 us");
    assert_eq!(usfmt(999), "999 us");
}

#[test]
fn usfmt_from_one_millisecond_rounds_up() {
    assert_eq!(usfmt(1000), "1 ms");
    assert_eq!(usfmt(1001), "2 ms");
    assert_eq!(usfmt(1500), "2 ms");
    assert_eq!(usfmt(2000), "2 ms");
    assert_eq!(usfmt(9_999_999), "10000 ms");
    assert_eq!(usfmt(u32::MAX), "4294968 ms");
}

#[test]
fn cpu_data_starts_empty_and_adds() {
    let mut cpu = RtCpuData::new();
    assert_eq!((cpu.cum(), cpu.min(), cpu.max()), (0, u32::MAX, 0));
    cpu.update(120);
    cpu.update(80);
    assert_eq!(cpu.cum(), 200);
    assert_eq!(cpu.swap_cum(0), 200);
    assert_eq!(cpu.cum(), 0);
    cpu.store_min(3);
    cpu.store_max(9);
    assert_eq!((cpu.min(), cpu.max()), (3, 9));
    cpu.update(5);
    cpu.reset();
    assert_eq!((cpu.cum(), cpu.min(), cpu.max()), (0, u32::MAX, 0));
}

#[test]
fn cpu_data_sum_wraps_at_32_bits() {
    let mut cpu = RtCpuData::new();
    cpu.update(u32::MAX);
    cpu.update(2);
    assert_eq!(cpu.cum(), 1);
}

#[test]
fn task_data_keeps_count_sum_min_max() {
    let mut task = RtTaskData::new();
    assert_eq!((task.count(), task.cum(), task.min(), task.max()), (0, 0, u32::MAX, 0));
    for rt in [120, 80, 200, 150] {
        task.update(rt);
    }
    assert_eq!((task.count(), task.cum(), task.min(), task.max()), (4, 550, 80, 200));
    assert_eq!(task.swap_count(0), 4);
    assert_eq!(task.swap_cum(0), 550);
    assert_eq!((task.count(), task.cum(), task.min(), task.max()), (0, 0, 80, 200));
    task.reset();
    assert_eq!((task.count(), task.cum(), task.min(), task.max()), (0, 0, u32::MAX, 0));
}

#[test]
fn task_table_holds_one_record_per_name() {
    let mut table = TaskTable::new();
    assert_eq!(table.len(), 0);
    assert!(!table.contains_key("a"));
    assert!(table.get("a").is_none());

    let mut a = RtTaskData::new();
    a.update(10);
    table.insert("a", a);
    let mut b = RtTaskData::new();
    b.update(20);
    b.update(30);
    table.insert("b", b);
    assert_eq!(table.len(), 2);
    assert_eq!(table.get("a").unwrap().cum(), 10);
    assert_eq!(table.get("b").unwrap().cum(), 50);

    a.update(5);
    table.insert("a", a);
    assert_eq!(table.len(), 2);
    assert_eq!(table.get("a").unwrap().cum(), 15);
    assert_eq!(table.get("b").unwrap().count(), 2);

    table.reset();
    assert_eq!(table.len(), 2);
    assert!(table.contains_key("a"));
    assert_eq!(table.get("a").unwrap().count(), 0);
    assert_eq!(table.get("b").unwrap().min(), u32::MAX);
}

#[test]
fn new_accumulator_is_switched_off() {
    let rt = RuntimeMeas::new(2);
    assert!(!rt.is_enabled());
}

#[test]
fn switched_off_begin_gives_minus_one_and_end_does_nothing() {
    let mut rt = RuntimeMeas::new(2);
    assert_eq!(rt.meas_begin(12345), -1);
    rt.meas_end("task_10ms", 0, 100, 200);
    assert!(rt.print_cpus(1_000_000).is_empty());
    assert!(rt.print_task("task_10ms", 10, 0).is_none());
}

#[test]
fn switched_on_begin_gives_the_clock_reading() {
    let mut rt = RuntimeMeas::new(1);
    rt.enable(true);
    assert!(rt.is_enabled());
    assert_eq!(rt.meas_begin(0), 0);
    assert_eq!(rt.meas_begin(12345), 12345);
    assert_eq!(rt.meas_begin(u32::MAX), 4_294_967_295);
}

#[test]
fn negative_token_is_ignored() {
    let mut rt = RuntimeMeas::new(1);
    let begin = rt.meas_begin(100);
    assert_eq!(begin, -1);
    rt.enable(true);
    rt.meas_end("t", 0, begin, 250);
    assert!(rt.print_task("t", 10, 0).is_none());
}

#[test]
fn aggregation_over_four_cycles() {
    let mut rt = RuntimeMeas::new(2);
    rt.enable(true);
    let mut start = 1_000;
    for runtime in [120, 80, 200, 150] {
        run(&mut rt, "t", 0, start, runtime);
        start += 10_000;
    }
    assert_eq!(
        rt.print_task("t", 10, 0).unwrap(),
        "t, 10 ms @ CPU 0: 137 us; min 80 us; max 200 us"
    );
}

#[test]
fn task_report_starts_count_and_sum_over() {
    let mut rt = RuntimeMeas::new(2);
    rt.enable(true);
    for runtime in [120, 80, 200, 150] {
        run(&mut rt, "t", 1, 0, runtime);
    }
    assert!(rt.print_task("t", 10, 1).is_some());
    // No run since the report: the mean is the largest 32-bit number.
    assert_eq!(
        rt.print_task("t", 10, 1).unwrap(),
        "t, 10 ms @ CPU 1: 4294968 ms; min 80 us; max 200 us"
    );
    run(&mut rt, "t", 1, 0, 3000);
    assert_eq!(
        rt.print_task("t", 10, 1).unwrap(),
        "t, 10 ms @ CPU 1: 3 ms; min 80 us; max 3 ms"
    );
}

#[test]
fn task_report_of_unknown_task_is_empty() {
    let mut rt = RuntimeMeas::new(2);
    rt.enable(true);
    run(&mut rt, "a", 0, 0, 10);
    assert!(rt.print_task("b", 10, 0).is_none());
    assert!(rt.print_task("a", 10, 0).is_some());
}

#[test]
fn tasks_are_kept_apart() {
    let mut rt = RuntimeMeas::new(2);
    rt.enable(true);
    run(&mut rt, "a", 0, 0, 10);
    run(&mut rt, "b", 1, 0, 2000);
    run(&mut rt, "a", 0, 0, 30);
    assert_eq!(rt.print_task("a", 10, 0).unwrap(), "a, 10 ms @ CPU 0: 20 us; min 10 us; max 30 us");
    assert_eq!(rt.print_task("b", 50, 1).unwrap(), "b, 50 ms @ CPU 1: 2 ms; min 2 ms; max 2 ms");
}

#[test]
fn cpu_busy_percent_over_one_second() {
    let mut rt = RuntimeMeas::new(2);
    rt.enable(true);
    assert!(rt.print_cpus(5_000).is_empty());
    run(&mut rt, "t", 0, 10_000, 237_000);
    let lines = rt.print_cpus(1_005_000);
    assert_eq!(lines.len(), 2);
    assert_eq!(lines[0], "CPU 0: 24 %; min 24 %; max 24 %");
    assert_eq!(lines[1], "CPU 1: 0 %; min 0 %; max 0 %");
}

#[test]
fn cpu_report_rounds_to_nearest_and_tracks_range() {
    let mut rt = RuntimeMeas::new(1);
    rt.enable(true);
    assert!(rt.print_cpus(0).is_empty());
    // 1499 us of 100000 us is 1.499 %.
    run(&mut rt, "t", 0, 0, 1_499);
    assert_eq!(rt.print_cpus(100_000), vec!["CPU 0: 1 %; min 1 %; max 1 %"]);
    // 1500 us of 100000 us is 1.5 %.
    run(&mut rt, "t", 0, 100_000, 1_500);
    assert_eq!(rt.print_cpus(200_000), vec!["CPU 0: 2 %; min 1 %; max 2 %"]);
    // The busy time was taken by the report: nothing since.
    assert_eq!(rt.print_cpus(300_000), vec!["CPU 0: 0 %; min 0 %; max 2 %"]);
}

#[test]
fn cpu_report_in_short_window_changes_nothing() {
    let mut rt = RuntimeMeas::new(1);
    rt.enable(true);
    assert!(rt.print_cpus(1_000).is_empty());
    run(&mut rt, "t", 0, 2_000, 50_000);
    assert!(rt.print_cpus(100_999).is_empty());
    assert!(rt.print_cpus(60_000).is_empty());
    // The window still starts at 1000 and the busy time is still there.
    assert_eq!(rt.print_cpus(101_000), vec!["CPU 0: 50 %; min 50 %; max 50 %"]);
}

#[test]
fn cpu_report_after_long_window_starts_over() {
    let mut rt = RuntimeMeas::new(1);
    rt.enable(true);
    assert!(rt.print_cpus(0).is_empty());
    run(&mut rt, "t", 0, 0, 100_000);
    assert!(rt.print_cpus(10_000_000).is_empty());
    // The window now starts at ten seconds; the busy time was kept.
    assert!(rt.print_cpus(10_099_999).is_empty());
    assert_eq!(rt.print_cpus(10_200_000), vec!["CPU 0: 50 %; min 50 %; max 50 %"]);
}

#[test]
fn cpu_report_just_below_ten_seconds_prints() {
    let mut rt = RuntimeMeas::new(1);
    rt.enable(true);
    assert!(rt.print_cpus(0).is_empty());
    run(&mut rt, "t", 0, 0, 9_999_999);
    assert_eq!(rt.print_cpus(9_999_999), vec!["CPU 0: 100 %; min 100 %; max 100 %"]);
}

#[test]
fn cpu_report_with_clock_behind_the_window_does_nothing() {
    let mut rt = RuntimeMeas::new(1);
    rt.enable(true);
    assert!(rt.print_cpus(4_000_000_000).is_empty());
    run(&mut rt, "t", 0, 0, 1_000);
    assert!(rt.print_cpus(500_000).is_empty());
    assert_eq!(rt.print_cpus(4_000_100_000), vec!["CPU 0: 1 %; min 1 %; max 1 %"]);
}

#[test]
fn large_busy_time_does_not_overflow() {
    let mut rt = RuntimeMeas::new(1);
    rt.enable(true);
    assert!(rt.print_cpus(0).is_empty());
    for _ in 0..429 {
        run(&mut rt, "t", 0, 0, 9_999_999);
    }
    // 4289999571 us over 100000 us.
    assert_eq!(rt.print_cpus(100_000), vec!["CPU 0: 4290000 %; min 4290000 %; max 4290000 %"]);
}

#[test]
fn enable_from_off_clears_and_enable_while_on_keeps() {
    let mut rt = RuntimeMeas::new(1);
    rt.enable(true);
    run(&mut rt, "t", 0, 0, 120);
    run(&mut rt, "t", 0, 0, 80);

    rt.enable(true);
    assert_eq!(rt.print_task("t", 10, 0).unwrap(), "t, 10 ms @ CPU 0: 100 us; min 80 us; max 120 us");

    run(&mut rt, "t", 0, 0, 50);
    rt.enable(false);
    assert!(!rt.is_enabled());
    rt.enable(true);
    assert!(rt.is_enabled());
    // The record is still there, and empty.
    assert!(rt.print_task("t", 10, 0).is_none());
    run(&mut rt, "t", 0, 0, 70);
    assert_eq!(rt.print_task("t", 10, 0).unwrap(), "t, 10 ms @ CPU 0: 70 us; min 70 us; max 70 us");
}

#[test]
fn enable_from_off_forgets_the_window_and_the_busy_time() {
    let mut rt = RuntimeMeas::new(1);
    rt.enable(true);
    assert!(rt.print_cpus(0).is_empty());
    run(&mut rt, "t", 0, 0, 50_000);
    rt.enable(false);
    rt.enable(true);
    // First report after switching on: only starts the window.
    assert!(rt.print_cpus(200_000).is_empty());
    assert_eq!(rt.print_cpus(300_000), vec!["CPU 0: 0 %; min 0 %; max 0 %"]);
}

#[test]
fn disable_twice_is_disable_once() {
    let mut rt = RuntimeMeas::new(1);
    rt.enable(true);
    run(&mut rt, "t", 0, 0, 120);
    rt.enable(false);
    assert!(!rt.is_enabled());
    assert_eq!(rt.meas_begin(5), -1);
    rt.enable(false);
    assert!(!rt.is_enabled());
    assert_eq!(rt.meas_begin(5), -1);
    assert!(rt.print_task("t", 10, 0).is_none());
}

#[test]
fn runtime_across_clock_wrap() {
    let mut rt = RuntimeMeas::new(1);
    rt.enable(true);
    let begin = rt.meas_begin(u32::MAX - 10);
    assert_eq!(begin, 4_294_967_285);
    rt.meas_end("t", 0, begin, 20);
    assert_eq!(rt.print_task("t", 10, 0).unwrap(), "t, 10 ms @ CPU 0: 31 us; min 31 us; max 31 us");
}

#[test]
fn token_beyond_32_bits_is_reduced() {
    let mut rt = RuntimeMeas::new(1);
    rt.enable(true);
    rt.meas_end("t", 0, 0x1_0000_0000 + 100, 350);
    assert_eq!(rt.print_task("t", 10, 0).unwrap(), "t, 10 ms @ CPU 0: 250 us; min 250 us; max 250 us");
}

#[test]
fn outliers_are_dropped() {
    let mut rt = RuntimeMeas::new(1);
    rt.enable(true);
    run(&mut rt, "t", 0, 0, 10_000_000);
    assert!(rt.print_task("t", 10, 0).is_none());
    // The clock went back by one microsecond: a runtime of nearly 2^32.
    rt.meas_end("t", 0, 1_000, 999);
    assert!(rt.print_task("t", 10, 0).is_none());
    run(&mut rt, "t", 0, 0, 9_999_999);
    assert_eq!(
        rt.print_task("t", 10, 0).unwrap(),
        "t, 10 ms @ CPU 0: 10000 ms; min 10000 ms; max 10000 ms"
    );
}

#[test]
fn zero_runtime_counts() {
    let mut rt = RuntimeMeas::new(1);
    rt.enable(true);
    run(&mut rt, "t", 0, 77, 0);
    assert_eq!(rt.print_task("t", 10, 0).unwrap(), "t, 10 ms @ CPU 0: 0 us; min 0 us; max 0 us");
}

#[test]
fn accumulator_without_cpus_reports_no_cpu() {
    let mut rt = RuntimeMeas::new(0);
    rt.enable(true);
    assert!(rt.print_cpus(0).is_empty());
    assert!(rt.print_cpus(500_000).is_empty());
}
