use timeslice::sched::schema::{ConfigError, Schema, TaskDesc};
use timeslice::sched::trigger::TriggerSlot;
use timeslice::sched::wheel::{thread_name, InitError, TimeSliceSched};

fn task(name: &str, period_ms: u32, core: usize, stack_kib: usize) -> TaskDesc {
    TaskDesc { name: name.to_string(), period_ms, core, stack_bytes: stack_kib * 1024 }
}

fn schema(periods: &[u32]) -> Schema {
    let mut tasks = Vec::new();
    for p in periods {
        tasks.push(task(&format!("task_{}ms", p), *p, 0, 4));
    }
    Schema { name: "sched_main".to_string(), num_objs: 1, tasks }
}

fn main_schema() -> Schema {
    Schema {
        name: "sched_main".to_string(),
        num_objs: 2,
        tasks: vec![
            task("task_10ms", 10, 0, 16),
            task("task_50ms", 50, 0, 3),
            task("task_100ms", 100, 1, 16),
            task("task_1000ms", 1000, 1, 3),
        ],
    }
}

fn started(schema: Schema, cores: usize) -> TimeSliceSched {
    let mut sched = TimeSliceSched::new(schema, cores).unwrap();
    assert!(sched.init().is_ok());
    sched
}

#[test]
fn trigger_slot_merges_wakeups() {
    let mut slot = TriggerSlot::new();
    assert!(!slot.is_pending());
    assert!(!slot.take());
    slot.raise();
    slot.raise();
    slot.raise();
    assert!(slot.is_pending());
    assert!(slot.take());
    assert!(!slot.is_pending());
    assert!(!slot.take());
}

#[test]
fn thread_name_ends_in_nul() {
    assert_eq!(thread_name("sched_main", 0), "sched_main_cpu0\0");
    assert_eq!(thread_name("sched_main", 1), "sched_main_cpu1\0");
    assert_eq!(thread_name("s", 12), "s_cpu12\0");
}

#[test]
fn valid_schema_is_accepted() {
    assert_eq!(main_schema().validate(2), Ok(()));
    assert_eq!(schema(&[10]).validate(1), Ok(()));
    assert_eq!(schema(&[20, 10, 30]).validate(1), Ok(()));
}

#[test]
fn schema_without_handlers_is_refused() {
    let mut s = main_schema();
    s.num_objs = 0;
    assert_eq!(s.validate(2), Err(ConfigError::NoHandlers));
}

#[test]
fn schema_without_tasks_is_refused() {
    assert_eq!(schema(&[]).validate(2), Err(ConfigError::NoTasks));
}

#[test]
fn schema_with_zero_period_is_refused() {
    assert_eq!(schema(&[10, 0, 20]).validate(2), Err(ConfigError::ZeroPeriod));
}

#[test]
fn schema_with_unknown_core_is_refused() {
    assert_eq!(main_schema().validate(1), Err(ConfigError::UnknownCore));
    assert_eq!(main_schema().validate(0), Err(ConfigError::UnknownCore));
}

#[test]
fn schema_with_zero_stack_is_refused() {
    let mut s = main_schema();
    s.tasks[2].stack_bytes = 0;
    assert_eq!(s.validate(2), Err(ConfigError::ZeroStack));
}

#[test]
fn schema_with_odd_period_is_refused() {
    assert_eq!(schema(&[10, 25]).validate(1), Err(ConfigError::NotHarmonic));
    assert_eq!(schema(&[15, 10]).validate(1), Err(ConfigError::NotHarmonic));
}

#[test]
fn schema_with_duplicate_name_is_refused() {
    let mut s = main_schema();
    s.tasks[3].name = "task_50ms".to_string();
    assert_eq!(s.validate(2), Err(ConfigError::DuplicateName));
}

#[test]
fn first_reason_in_order_is_reported() {
    let mut s = schema(&[10, 0, 25]);
    s.tasks[0].core = 9;
    s.tasks[2].name = "task_10ms".to_string();
    assert_eq!(s.validate(1), Err(ConfigError::ZeroPeriod));
    s.tasks[1].period_ms = 20;
    assert_eq!(s.validate(1), Err(ConfigError::UnknownCore));
    s.tasks[0].core = 0;
    assert_eq!(s.validate(1), Err(ConfigError::NotHarmonic));
    s.tasks[2].period_ms = 30;
    assert_eq!(s.validate(1), Err(ConfigError::DuplicateName));
    s.num_objs = 0;
    assert_eq!(s.validate(1), Err(ConfigError::NoHandlers));
}

#[test]
fn shortest_and_longest_period() {
    assert_eq!(main_schema().shortest_period(), 10);
    assert_eq!(main_schema().longest_period(), 1000);
    assert_eq!(schema(&[40, 20, 80]).shortest_period(), 20);
    assert_eq!(schema(&[40, 20, 80]).longest_period(), 80);
    assert_eq!(schema(&[]).shortest_period(), u32::MAX);
    assert_eq!(schema(&[]).longest_period(), 0);
}

#[test]
fn scheduler_is_not_made_from_invalid_schema() {
    assert_eq!(TimeSliceSched::new(schema(&[10, 25]), 1).err(), Some(ConfigError::NotHarmonic));
    assert_eq!(TimeSliceSched::new(main_schema(), 1).err(), Some(ConfigError::UnknownCore));
}

#[test]
fn new_scheduler_is_idle() {
    let sched = TimeSliceSched::new(main_schema(), 2).unwrap();
    assert!(!sched.is_initialized());
    assert_eq!(sched.baseperiod(), 0);
    assert_eq!(sched.count(), 0);
    assert_eq!(sched.count_mod(), 0);
    assert_eq!(sched.num_tasks(), 4);
    assert_eq!(sched.num_objs(), 2);
    assert!(!sched.rt_is_enabled());
    for t in 0..4 {
        assert!(!sched.is_pending(t));
    }
    assert_eq!(sched.task(2).name, "task_100ms");
    assert_eq!(sched.task(2).period_ms, 100);
    assert_eq!(sched.task(2).core, 1);
    assert_eq!(sched.task(2).stack_bytes, 16 * 1024);
}

#[test]
fn init_fixes_timing_and_plans_workers() {
    let mut sched = TimeSliceSched::new(main_schema(), 2).unwrap();
    let plan = sched.init().unwrap();
    assert!(sched.is_initialized());
    assert_eq!(sched.baseperiod(), 10);
    assert_eq!(sched.count_mod(), 100);
    assert_eq!(sched.count(), 0);
    assert_eq!(plan.timer_period_ms, 10);
    assert_eq!(plan.workers.len(), 4);
    let names = ["sched_main_cpu0\0", "sched_main_cpu0\0", "sched_main_cpu1\0", "sched_main_cpu1\0"];
    let cores = [0, 0, 1, 1];
    let stacks = [16 * 1024, 3 * 1024, 16 * 1024, 3 * 1024];
    for t in 0..4 {
        assert_eq!(plan.workers[t].task, t);
        assert_eq!(plan.workers[t].name, names[t]);
        assert_eq!(plan.workers[t].core, cores[t]);
        assert_eq!(plan.workers[t].stack_bytes, stacks[t]);
    }
}

#[test]
fn init_twice_fails() {
    let mut sched = TimeSliceSched::new(main_schema(), 2).unwrap();
    assert!(sched.init().is_ok());
    sched.base_tick_handler();
    assert_eq!(sched.init().err(), Some(InitError::AlreadyInitialized));
    // The refused start changed nothing.
    assert!(sched.is_initialized());
    assert_eq!(sched.count(), 1);
    assert_eq!(sched.baseperiod(), 10);
    assert_eq!(sched.count_mod(), 100);
    assert!(sched.is_pending(0));
    assert_eq!(sched.init().err(), Some(InitError::AlreadyInitialized));
}

#[test]
fn ticks_of_the_four_task_schema() {
    let mut sched = started(main_schema(), 2);
    for tick in 0..=100u32 {
        assert_eq!(sched.count(), tick % 100);
        let due = sched.base_tick_handler();
        let mut expected = Vec::new();
        for (t, divider) in [1u32, 5, 10, 100].iter().enumerate() {
            if (tick % 100) % divider == 0 {
                expected.push(t);
            }
        }
        assert_eq!(due, expected, "tick {}", tick);
        match tick {
            0 | 100 => assert_eq!(due, vec![0, 1, 2, 3]),
            5 => assert_eq!(due, vec![0, 1]),
            10 => assert_eq!(due, vec![0, 1, 2]),
            99 => assert_eq!(due, vec![0]),
            _ => {}
        }
        for t in 0..4 {
            assert_eq!(sched.take_trigger(t), due.contains(&t));
            assert!(!sched.is_pending(t));
        }
    }
    assert_eq!(sched.count(), 1);
}

#[test]
fn wheel_wraps_to_zero() {
    let mut sched = started(main_schema(), 2);
    for _ in 0..99 {
        sched.base_tick_handler();
    }
    assert_eq!(sched.count(), 99);
    assert_eq!(sched.base_tick_handler(), vec![0]);
    assert_eq!(sched.count(), 0);
    assert_eq!(sched.base_tick_handler(), vec![0, 1, 2, 3]);
}

#[test]
fn single_task_fires_every_tick() {
    let mut sched = started(schema(&[10]), 1);
    assert_eq!(sched.baseperiod(), 10);
    assert_eq!(sched.count_mod(), 1);
    for _ in 0..5 {
        assert_eq!(sched.count(), 0);
        assert_eq!(sched.base_tick_handler(), vec![0]);
        assert!(sched.take_trigger(0));
    }
}

#[test]
fn longest_task_fires_once_per_turn() {
    let mut sched = started(schema(&[10, 40]), 1);
    assert_eq!(sched.count_mod(), 4);
    let mut fired = Vec::new();
    for tick in 0..12 {
        if sched.base_tick_handler().contains(&1) {
            fired.push(tick);
        }
    }
    assert_eq!(fired, vec![0, 4, 8]);
}

#[test]
fn period_that_does_not_divide_the_longest_follows_the_wheel() {
    // The wheel has three positions; the 20 ms task is due at positions 0 and 2.
    let mut sched = started(schema(&[10, 20, 30]), 1);
    assert_eq!(sched.baseperiod(), 10);
    assert_eq!(sched.count_mod(), 3);
    let mut fired = Vec::new();
    for tick in 0..7 {
        if sched.base_tick_handler().contains(&1) {
            fired.push(tick);
        }
    }
    assert_eq!(fired, vec![0, 2, 3, 5, 6]);
}

#[test]
fn declaration_order_is_kept_whatever_the_periods() {
    let mut sched = started(schema(&[100, 10, 50]), 1);
    assert_eq!(sched.baseperiod(), 10);
    assert_eq!(sched.count_mod(), 10);
    assert_eq!(sched.base_tick_handler(), vec![0, 1, 2]);
    assert_eq!(sched.base_tick_handler(), vec![1]);
    for _ in 2..5 {
        assert_eq!(sched.base_tick_handler(), vec![1]);
    }
    assert_eq!(sched.base_tick_handler(), vec![1, 2]);
}

#[test]
fn stalled_worker_gets_one_wakeup() {
    let mut sched = started(main_schema(), 2);
    // The worker of the 10 ms task takes the wake-up of tick 0 and stalls for 35 ms.
    sched.base_tick_handler();
    assert!(sched.take_trigger(0));
    // Ticks at 10, 20 and 30 ms go by.
    for _ in 0..3 {
        assert!(sched.base_tick_handler().contains(&0));
        assert!(sched.is_pending(0));
    }
    // After the stall the worker runs once and is back to waiting.
    assert!(sched.take_trigger(0));
    assert!(!sched.take_trigger(0));
    assert!(!sched.is_pending(0));
    // The others were not touched by that.
    assert!(sched.is_pending(1));
    assert!(sched.is_pending(2));
    assert!(sched.is_pending(3));
}

#[test]
fn worker_measurement_is_reported_under_task_name_and_core() {
    let mut sched = started(main_schema(), 2);
    assert_eq!(sched.worker_begin(100), -1);
    sched.rt_enable(true);
    assert!(sched.rt_is_enabled());
    assert!(sched.rt_print(0).is_empty());

    let mut start = 1_000;
    for runtime in [120, 80, 200, 150] {
        let begin = sched.worker_begin(start);
        assert_eq!(begin, start as i64);
        sched.worker_end(0, begin, start + runtime);
        start += 10_000;
    }
    let begin = sched.worker_begin(50_000);
    sched.worker_end(2, begin, 52_500);

    let lines = sched.rt_print(1_000_000);
    assert_eq!(
        lines,
        vec![
            "CPU 0: 0 %; min 0 %; max 0 %",
            "CPU 1: 0 %; min 0 %; max 0 %",
            "task_10ms, 10 ms @ CPU 0: 137 us; min 80 us; max 200 us",
            "task_100ms, 100 ms @ CPU 1: 3 ms; min 3 ms; max 3 ms",
        ]
    );
    // Too early for the CPUs; the tasks have had no run since.
    let lines = sched.rt_print(1_050_000);
    assert_eq!(
        lines,
        vec![
            "task_10ms, 10 ms @ CPU 0: 4294968 ms; min 80 us; max 200 us",
            "task_100ms, 100 ms @ CPU 1: 4294968 ms; min 3 ms; max 3 ms",
        ]
    );
}

#[test]
fn report_is_empty_while_measurement_is_off() {
    let mut sched = started(main_schema(), 2);
    sched.worker_end(0, 0, 100);
    assert!(sched.rt_print(0).is_empty());
    assert!(sched.rt_print(1_000_000).is_empty());
    sched.rt_enable(true);
    sched.rt_enable(false);
    assert!(!sched.rt_is_enabled());
    assert!(sched.rt_print(2_000_000).is_empty());
}
