//! The mathematical model of the measurement state and of its operations.

use crate::text::decimal;
use vstd::prelude::*;

verus! {

/// Runtimes at or above this many microseconds are outliers and are dropped.
pub const RUNTIME_LIMIT_US: u32 = 10_000_000;

/// A window at or above this many microseconds is a resume from a pause.
pub const WINDOW_MAX_US: i64 = 10_000_000;

/// A window below this many microseconds is too short to report on.
pub const WINDOW_MIN_US: i64 = 100_000;

/// `x` reduced to the range of a 32-bit counter.
pub open spec fn wrap32(x: int) -> nat {
    (x % 0x1_0000_0000) as nat
}

/// The smaller of two numbers.
pub open spec fn least(a: nat, b: nat) -> nat {
    if a <= b {
        a
    } else {
        b
    }
}

/// The larger of two numbers.
pub open spec fn greatest(a: nat, b: nat) -> nat {
    if a >= b {
        a
    } else {
        b
    }
}

/// The microseconds that passed between the clock reading `begin` and the
/// clock reading `now`, on a 32-bit counter that wraps.
pub open spec fn runtime_of(begin: int, now: int) -> nat {
    wrap32(now - begin)
}

/// Busy time `cum` as a percentage of `period`, rounded to the nearest integer.
pub open spec fn percent(cum: nat, period: nat) -> nat {
    (cum * 100 + period / 2) / period
}

/// Quotient of `a` by `b`, rounded up.
pub open spec fn div_ceil(a: nat, b: nat) -> nat {
    (a + b - 1) as nat / b
}

/// A duration in microseconds as text: whole milliseconds, rounded up, from
/// one millisecond on; microseconds below.
pub open spec fn usfmt_text(us: nat) -> Seq<char> {
    if us >= 1000 {
        decimal(div_ceil(us, 1000)) + " ms"@
    } else {
        decimal(us) + " us"@
    }
}

/// The report line of one CPU.
pub open spec fn cpu_line(cpu: nat, cur: nat, min: nat, max: nat) -> Seq<char> {
    "CPU "@ + decimal(cpu) + ": "@ + decimal(cur) + " %; min "@ + decimal(min) + " %; max "@
        + decimal(max) + " %"@
}

/// The report line of one task.
pub open spec fn task_line(
    name: Seq<char>,
    period_ms: nat,
    core: nat,
    avg: nat,
    min: nat,
    max: nat,
) -> Seq<char> {
    name + ", "@ + decimal(period_ms) + " ms @ CPU "@ + decimal(core) + ": "@ + usfmt_text(avg)
        + "; min "@ + usfmt_text(min) + "; max "@ + usfmt_text(max)
}

/// What is kept per CPU: the busy microseconds since the last report, and
/// the least and greatest busy percentage reported so far.
pub struct CpuStats {
    pub cum: nat,
    pub min: nat,
    pub max: nat,
}

impl CpuStats {
    /// The state before anything was measured.
    pub open spec fn fresh() -> CpuStats {
        CpuStats { cum: 0, min: u32::MAX as nat, max: 0 }
    }

    /// The state after `rt` more busy microseconds.
    pub open spec fn charged(self, rt: nat) -> CpuStats {
        CpuStats { cum: wrap32((self.cum + rt) as int), ..self }
    }

    /// The busy percentage over a window of `period` microseconds.
    pub open spec fn load(self, period: nat) -> nat {
        percent(self.cum, period)
    }

    /// The state after a report over a window of `period` microseconds.
    pub open spec fn reported(self, period: nat) -> CpuStats {
        CpuStats {
            cum: 0,
            min: least(self.min, self.load(period)),
            max: greatest(self.max, self.load(period)),
        }
    }
}

/// What is kept per task: the number of runs and their summed runtime since
/// the last report, and the least and greatest runtime so far.
pub struct TaskStats {
    pub count: nat,
    pub cum: nat,
    pub min: nat,
    pub max: nat,
}

impl TaskStats {
    /// The state before any run was measured.
    pub open spec fn fresh() -> TaskStats {
        TaskStats { count: 0, cum: 0, min: u32::MAX as nat, max: 0 }
    }

    /// The state after one more run of `rt` microseconds.
    pub open spec fn recorded(self, rt: nat) -> TaskStats {
        TaskStats {
            count: wrap32((self.count + 1) as int),
            cum: wrap32((self.cum + rt) as int),
            min: least(self.min, rt),
            max: greatest(self.max, rt),
        }
    }

    /// The mean runtime since the last report; the largest 32-bit number
    /// where there was no run.
    pub open spec fn average(self) -> nat {
        if self.count > 0 {
            self.cum / self.count
        } else {
            u32::MAX as nat
        }
    }

    /// The state after a report: count and sum start over.
    pub open spec fn reported(self) -> TaskStats {
        TaskStats { count: 0, cum: 0, ..self }
    }

    /// Whether a run was ever recorded, as far as the minimum tells.
    pub open spec fn seen(self) -> bool {
        self.min != u32::MAX as nat
    }
}

/// The whole measurement state.
pub struct MeasState {
    /// Whether measurements are taken.
    pub enabled: bool,
    /// Whether the report window has a start.
    pub initialized: bool,
    /// The clock reading at which the report window started.
    pub print_stamp: int,
    /// One record per CPU.
    pub cpus: Seq<CpuStats>,
    /// One record per task name seen so far.
    pub tasks: Map<Seq<char>, TaskStats>,
}

impl MeasState {
    /// The state of a new accumulator for `cores` CPUs.
    pub open spec fn fresh(cores: nat) -> MeasState {
        MeasState {
            enabled: false,
            initialized: false,
            print_stamp: 0,
            cpus: Seq::new(cores, |i: int| CpuStats::fresh()),
            tasks: Map::empty(),
        }
    }

    /// The token that starts a measurement at clock reading `now`.
    pub open spec fn begin_token(self, now: nat) -> int {
        if self.enabled {
            now as int
        } else {
            -1
        }
    }

    /// Whether a measurement that started with `begin` and ends at `now` counts.
    pub open spec fn accepts(self, begin: int, now: nat) -> bool {
        self.enabled && begin >= 0 && runtime_of(begin, now as int) < RUNTIME_LIMIT_US
    }

    /// The record of task `name`, fresh where the name was never seen.
    pub open spec fn task(self, name: Seq<char>) -> TaskStats {
        if self.tasks.contains_key(name) {
            self.tasks[name]
        } else {
            TaskStats::fresh()
        }
    }

    /// The state after task `name` on CPU `core` ended a run at `now` that
    /// had started with the token `begin`.
    pub open spec fn ended(self, name: Seq<char>, core: int, begin: int, now: nat) -> MeasState {
        if self.accepts(begin, now) {
            let rt = runtime_of(begin, now as int);
            MeasState {
                cpus: self.cpus.update(core, self.cpus[core].charged(rt)),
                tasks: self.tasks.insert(name, self.task(name).recorded(rt)),
                ..self
            }
        } else {
            self
        }
    }

    /// The state with every counter back at its start.
    pub open spec fn cleared(self) -> MeasState {
        MeasState {
            cpus: Seq::new(self.cpus.len(), |i: int| CpuStats::fresh()),
            tasks: self.tasks.map_values(|v: TaskStats| TaskStats::fresh()),
            ..self
        }
    }

    /// The state after the switch was set to `en`.
    pub open spec fn switched(self, en: bool) -> MeasState {
        if !en {
            MeasState { enabled: false, ..self }
        } else if self.enabled {
            self
        } else {
            MeasState { enabled: true, initialized: false, ..self.cleared() }
        }
    }

    /// The length of the report window that ends at `now`.
    pub open spec fn window(self, now: nat) -> int {
        if self.initialized {
            now - self.print_stamp
        } else {
            0
        }
    }

    /// Whether a CPU report at `now` prints.
    pub open spec fn reports_at(self, now: nat) -> bool {
        self.enabled && WINDOW_MIN_US <= self.window(now) < WINDOW_MAX_US
    }

    /// The state after a CPU report was asked for at `now`.
    pub open spec fn cpus_reported(self, now: nat) -> MeasState {
        if !self.enabled {
            self
        } else if self.window(now) >= WINDOW_MAX_US {
            MeasState { initialized: true, print_stamp: now as int, ..self }
        } else if self.window(now) >= WINDOW_MIN_US {
            MeasState {
                initialized: true,
                print_stamp: now as int,
                cpus: Seq::new(
                    self.cpus.len(),
                    |i: int| self.cpus[i].reported(self.window(now) as nat),
                ),
                ..self
            }
        } else if self.initialized {
            self
        } else {
            MeasState { initialized: true, print_stamp: now as int, ..self }
        }
    }

    /// The line of CPU `cpu` in a report over a window of `period` microseconds.
    pub open spec fn cpu_report_line(self, cpu: int, period: nat) -> Seq<char> {
        cpu_line(
            cpu as nat,
            self.cpus[cpu].load(period),
            self.cpus[cpu].reported(period).min,
            self.cpus[cpu].reported(period).max,
        )
    }

    /// The lines of the first `n` CPUs in a report over `period` microseconds:
    /// in CPU order, a CPU left out where its minimum is still the start value.
    pub open spec fn cpu_lines_upto(self, period: nat, n: nat) -> Seq<Seq<char>>
        decreases n,
    {
        if n == 0 {
            Seq::empty()
        } else {
            let before = self.cpu_lines_upto(period, (n - 1) as nat);
            if self.cpus[n - 1].reported(period).min != u32::MAX as nat {
                before.push(self.cpu_report_line(n - 1, period))
            } else {
                before
            }
        }
    }

    /// The lines that a CPU report asked for at `now` prints.
    pub open spec fn cpu_lines(self, now: nat) -> Seq<Seq<char>> {
        if self.reports_at(now) {
            self.cpu_lines_upto(self.window(now) as nat, self.cpus.len())
        } else {
            Seq::empty()
        }
    }

    /// Whether a task report finds a record of `name` to read.
    pub open spec fn reads_task(self, name: Seq<char>) -> bool {
        self.enabled && self.tasks.contains_key(name)
    }

    /// The state after a report on task `name` was asked for.
    pub open spec fn task_reported(self, name: Seq<char>) -> MeasState {
        if self.reads_task(name) {
            MeasState { tasks: self.tasks.insert(name, self.tasks[name].reported()), ..self }
        } else {
            self
        }
    }

    /// The line that a report on task `name` prints, if it prints one.
    pub open spec fn task_report_line(self, name: Seq<char>, period_ms: nat, core: nat) -> Option<
        Seq<char>,
    > {
        if self.reads_task(name) && self.tasks[name].seen() {
            Some(
                task_line(
                    name,
                    period_ms,
                    core,
                    self.tasks[name].average(),
                    self.tasks[name].min,
                    self.tasks[name].max,
                ),
            )
        } else {
            None
        }
    }
}

} // verus!
