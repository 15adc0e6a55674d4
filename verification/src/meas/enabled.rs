//! The measurement accumulator with a run-time switch.

use crate::meas::model::{
    cpu_line, percent, runtime_of, task_line, usfmt_text, CpuStats, MeasState, TaskStats,
    RUNTIME_LIMIT_US, WINDOW_MAX_US, WINDOW_MIN_US,
};
use crate::meas::table::TaskTable;
use crate::text::to_decimal;
use vstd::prelude::*;
use vstd::string::*;

verus! {

/// The texts of a list of strings.
pub open spec fn texts(lines: Seq<String>) -> Seq<Seq<char>> {
    Seq::new(lines.len(), |i: int| lines[i]@)
}

/// Renders a duration in microseconds: whole milliseconds, rounded up, from
/// one millisecond on; microseconds below.
pub fn usfmt(us: u32) -> (r: String)
    ensures
        r@ == usfmt_text(us as nat),
{
    if us >= 1000 {
        let ms: u64 = (us as u64 + 999) / 1000;
        let mut s = to_decimal(ms);
        s.append(" ms");
        s
    } else {
        let mut s = to_decimal(us as u64);
        s.append(" us");
        s
    }
}

/// The busy time of one CPU and the range of its reported load.
#[derive(Clone, Copy, Debug)]
pub struct RtCpuData {
    cum: u32,
    min: u32,
    max: u32,
}

impl View for RtCpuData {
    type V = CpuStats;

    closed spec fn view(&self) -> CpuStats {
        CpuStats { cum: self.cum as nat, min: self.min as nat, max: self.max as nat }
    }
}

impl RtCpuData {
    /// A record with nothing measured.
    pub fn new() -> (r: RtCpuData)
        ensures
            r@ == CpuStats::fresh(),
    {
        RtCpuData { cum: 0, min: u32::MAX, max: 0 }
    }

    /// Sets the record back to its start.
    pub fn reset(&mut self)
        ensures
            final(self)@ == CpuStats::fresh(),
    {
        self.cum = 0;
        self.min = u32::MAX;
        self.max = 0;
    }

    /// Adds `rt_us` busy microseconds. The sum wraps at 32 bits.
    pub fn update(&mut self, rt_us: u32)
        ensures
            final(self)@ == old(self)@.charged(rt_us as nat),
    {
        self.cum = self.cum.wrapping_add(rt_us);
    }

    /// The busy microseconds since the last report.
    pub fn cum(&self) -> (r: u32)
        ensures
            r == self@.cum,
    {
        self.cum
    }

    /// The least load reported so far.
    pub fn min(&self) -> (r: u32)
        ensures
            r == self@.min,
    {
        self.min
    }

    /// The greatest load reported so far.
    pub fn max(&self) -> (r: u32)
        ensures
            r == self@.max,
    {
        self.max
    }

    /// Puts `val` in place of the busy time and returns what was there.
    pub fn swap_cum(&mut self, val: u32) -> (prev: u32)
        ensures
            prev == old(self)@.cum,
            final(self)@ == (CpuStats { cum: val as nat, ..old(self)@ }),
    {
        let prev = self.cum;
        self.cum = val;
        prev
    }

    /// Puts `val` in place of the least load.
    pub fn store_min(&mut self, val: u32)
        ensures
            final(self)@ == (CpuStats { min: val as nat, ..old(self)@ }),
    {
        self.min = val;
    }

    /// Puts `val` in place of the greatest load.
    pub fn store_max(&mut self, val: u32)
        ensures
            final(self)@ == (CpuStats { max: val as nat, ..old(self)@ }),
    {
        self.max = val;
    }
}

/// The runs of one task and the range of its runtime.
#[derive(Clone, Copy, Debug)]
pub struct RtTaskData {
    count: u32,
    cum: u32,
    min: u32,
    max: u32,
}

impl View for RtTaskData {
    type V = TaskStats;

    closed spec fn view(&self) -> TaskStats {
        TaskStats {
            count: self.count as nat,
            cum: self.cum as nat,
            min: self.min as nat,
            max: self.max as nat,
        }
    }
}

impl RtTaskData {
    /// A record with no run in it.
    pub fn new() -> (r: RtTaskData)
        ensures
            r@ == TaskStats::fresh(),
    {
        RtTaskData { count: 0, cum: 0, min: u32::MAX, max: 0 }
    }

    /// Sets the record back to its start.
    pub fn reset(&mut self)
        ensures
            final(self)@ == TaskStats::fresh(),
    {
        self.count = 0;
        self.cum = 0;
        self.min = u32::MAX;
        self.max = 0;
    }

    /// Records one run of `rt_us` microseconds. Count and sum wrap at 32 bits.
    pub fn update(&mut self, rt_us: u32)
        ensures
            final(self)@ == old(self)@.recorded(rt_us as nat),
    {
        self.count = self.count.wrapping_add(1);
        self.cum = self.cum.wrapping_add(rt_us);
        if rt_us < self.min {
            self.min = rt_us;
        }
        if rt_us > self.max {
            self.max = rt_us;
        }
    }

    /// The number of runs since the last report.
    pub fn count(&self) -> (r: u32)
        ensures
            r == self@.count,
    {
        self.count
    }

    /// The summed runtime since the last report.
    pub fn cum(&self) -> (r: u32)
        ensures
            r == self@.cum,
    {
        self.cum
    }

    /// The least runtime so far.
    pub fn min(&self) -> (r: u32)
        ensures
            r == self@.min,
    {
        self.min
    }

    /// The greatest runtime so far.
    pub fn max(&self) -> (r: u32)
        ensures
            r == self@.max,
    {
        self.max
    }

    /// Puts `val` in place of the number of runs and returns what was there.
    pub fn swap_count(&mut self, val: u32) -> (prev: u32)
        ensures
            prev == old(self)@.count,
            final(self)@ == (TaskStats { count: val as nat, ..old(self)@ }),
    {
        let prev = self.count;
        self.count = val;
        prev
    }

    /// Puts `val` in place of the summed runtime and returns what was there.
    pub fn swap_cum(&mut self, val: u32) -> (prev: u32)
        ensures
            prev == old(self)@.cum,
            final(self)@ == (TaskStats { cum: val as nat, ..old(self)@ }),
    {
        let prev = self.cum;
        self.cum = val;
        prev
    }
}


fn cpu_line_string(cpu: usize, cur: u32, min: u32, max: u32) -> (r: String)
    ensures
        r@ == cpu_line(cpu as nat, cur as nat, min as nat, max as nat),
{
    let mut s = String::from_str("CPU ");
    s.append(to_decimal(cpu as u64).as_str());
    s.append(": ");
    s.append(to_decimal(cur as u64).as_str());
    s.append(" %; min ");
    s.append(to_decimal(min as u64).as_str());
    s.append(" %; max ");
    s.append(to_decimal(max as u64).as_str());
    s.append(" %");
    s
}

fn task_line_string(
    name: &str,
    time_base: usize,
    core: usize,
    avg: u32,
    min: u32,
    max: u32,
) -> (r: String)
    ensures
        r@ == task_line(name@, time_base as nat, core as nat, avg as nat, min as nat, max as nat),
{
    let mut s = String::from_str(name);
    s.append(", ");
    s.append(to_decimal(time_base as u64).as_str());
    s.append(" ms @ CPU ");
    s.append(to_decimal(core as u64).as_str());
    s.append(": ");
    s.append(usfmt(avg).as_str());
    s.append("; min ");
    s.append(usfmt(min).as_str());
    s.append("; max ");
    s.append(usfmt(max).as_str());
    s
}

/// The busy percentage of `cum` microseconds over a window of `period`
/// microseconds, rounded to the nearest integer.
fn load_percent(cum: u32, period: u32) -> (r: u32)
    requires
        period >= WINDOW_MIN_US,
    ensures
        r == percent(cum as nat, period as nat),
        r < u32::MAX,
{
    let num: u64 = cum as u64 * 100 + period as u64 / 2;
    let quot: u64 = num / period as u64;
    proof {
        vstd::arithmetic::div_mod::lemma_div_is_ordered_by_denominator(
            num as int,
            100_000,
            period as int,
        );
    }
    quot as u32
}

/// The runtime accumulator: busy time per CPU, run statistics per task name,
/// a switch, and the start of the current report window.
pub struct RuntimeMeas {
    initialized: bool,
    enabled: bool,
    print_stamp: i64,
    cpus: Vec<RtCpuData>,
    tasks: TaskTable,
}

impl View for RuntimeMeas {
    type V = MeasState;

    closed spec fn view(&self) -> MeasState {
        MeasState {
            enabled: self.enabled,
            initialized: self.initialized,
            print_stamp: self.print_stamp as int,
            cpus: Seq::new(self.cpus.len() as nat, |i: int| self.cpus[i]@),
            tasks: self.tasks@,
        }
    }
}

impl RuntimeMeas {
    /// The representation is sound: no task name is held twice, and the
    /// window's start is a reading of the 32-bit clock.
    pub closed spec fn wf(self) -> bool {
        &&& self.tasks.wf()
        &&& 0 <= self.print_stamp <= u32::MAX
    }

    /// The number of CPUs that are measured.
    pub open spec fn cores(self) -> nat {
        self@.cpus.len()
    }

    /// A new accumulator for `cores` CPUs: switched off, nothing measured.
    pub fn new(cores: usize) -> (r: RuntimeMeas)
        ensures
            r.wf(),
            r@ == MeasState::fresh(cores as nat),
    {
        let mut cpus: Vec<RtCpuData> = Vec::new();
        let mut i: usize = 0;
        while i < cores
            invariant
                i <= cores,
                cpus.len() == i,
                forall|j: int| 0 <= j < i ==> #[trigger] cpus[j]@ == CpuStats::fresh(),
            decreases cores - i,
        {
            cpus.push(RtCpuData::new());
            i += 1;
        }
        let r = RuntimeMeas {
            initialized: false,
            enabled: false,
            print_stamp: 0,
            cpus,
            tasks: TaskTable::new(),
        };
        assert(r@.cpus =~= MeasState::fresh(cores as nat).cpus);
        r
    }

    /// Whether measurements are taken.
    pub fn is_enabled(&self) -> (r: bool)
        ensures
            r == self@.enabled,
    {
        self.enabled
    }

    /// Starts a measurement at clock reading `now`: the token to hand to
    /// `meas_end`, which is `now` while measurements are taken and -1 while
    /// they are not.
    pub fn meas_begin(&self, now: u32) -> (r: i64)
        ensures
            r == self@.begin_token(now as nat),
            !self@.enabled ==> r == -1,
    {
        if self.is_enabled() {
            now as i64
        } else {
            -1
        }
    }

    fn do_meas_end(&mut self, task_name: &str, core: usize, rt: u32)
        requires
            old(self).wf(),
            core < old(self).cores(),
        ensures
            final(self).wf(),
            final(self)@ == (MeasState {
                cpus: old(self)@.cpus.update(
                    core as int,
                    old(self)@.cpus[core as int].charged(rt as nat),
                ),
                tasks: old(self)@.tasks.insert(
                    task_name@,
                    old(self)@.task(task_name@).recorded(rt as nat),
                ),
                ..old(self)@
            }),
    {
        let mut cpu = self.cpus[core];
        cpu.update(rt);
        self.cpus.set(core, cpu);
        let mut task = match self.tasks.get(task_name) {
            Some(task) => task,
            None => RtTaskData::new(),
        };
        task.update(rt);
        self.tasks.insert(task_name, task);
        assert(self@.cpus =~= old(self)@.cpus.update(
            core as int,
            old(self)@.cpus[core as int].charged(rt as nat),
        ));
    }

    /// Ends a measurement at clock reading `now` for task `task_name` on CPU
    /// `core`. `begin` is the token that `meas_begin` gave.
    ///
    /// Nothing changes while measurements are not taken, for a negative
    /// token, and for a runtime of ten seconds or more. Otherwise the runtime
    /// is added to the CPU's busy time and recorded for the task, whose
    /// record is made on its first run.
    pub fn meas_end(&mut self, task_name: &str, core: usize, begin: i64, now: u32)
        requires
            old(self).wf(),
            old(self)@.accepts(begin as int, now as nat) ==> core < old(self).cores(),
        ensures
            final(self).wf(),
            final(self)@ == old(self)@.ended(task_name@, core as int, begin as int, now as nat),
            !old(self)@.enabled ==> final(self)@ == old(self)@,
    {
        if !self.is_enabled() || begin < 0 {
            return ;
        }
        let start: u32 = (begin % 0x1_0000_0000) as u32;
        let rt: u32 = now.wrapping_sub(start);
        assert(rt == runtime_of(begin as int, now as int));
        if rt >= RUNTIME_LIMIT_US {
            return ;
        }
        self.do_meas_end(task_name, core, rt);
    }

    fn reset(&mut self)
        requires
            old(self).wf(),
        ensures
            final(self).wf(),
            final(self)@ == old(self)@.cleared(),
    {
        let n = self.cpus.len();
        let mut cpu: usize = 0;
        while cpu < n
            invariant
                cpu <= n,
                self.cpus.len() == n,
                forall|j: int| 0 <= j < cpu ==> #[trigger] self.cpus[j]@ == CpuStats::fresh(),
                self.tasks == old(self).tasks,
                self.enabled == old(self).enabled,
                self.initialized == old(self).initialized,
                self.print_stamp == old(self).print_stamp,
            decreases n - cpu,
        {
            let mut data = self.cpus[cpu];
            data.reset();
            self.cpus.set(cpu, data);
            cpu += 1;
        }
        self.tasks.reset();
        assert(self@.cpus =~= old(self)@.cleared().cpus);
    }

    /// Sets the switch.
    ///
    /// Switching on from off sets every counter back to its start and
    /// forgets the report window. Switching on while on changes nothing.
    pub fn enable(&mut self, en: bool)
        requires
            old(self).wf(),
        ensures
            final(self).wf(),
            final(self)@ == old(self)@.switched(en),
    {
        if en {
            if !self.enabled {
                self.reset();
                self.initialized = false;
                self.enabled = true;
            }
        } else {
            self.enabled = false;
        }
    }

    /// Asks for the CPU report at clock reading `now` and returns the lines
    /// to print, in CPU order.
    ///
    /// The first call after switching on only starts the window. A window of
    /// ten seconds or more starts over without a report; one of a tenth of a
    /// second or more is reported on, which empties the busy times and starts
    /// the next window; a shorter one is left to grow.
    pub fn print_cpus(&mut self, now: u32) -> (lines: Vec<String>)
        requires
            old(self).wf(),
        ensures
            final(self).wf(),
            final(self)@ == old(self)@.cpus_reported(now as nat),
            texts(lines@) == old(self)@.cpu_lines(now as nat),
            lines@.len() == if old(self)@.reports_at(now as nat) {
                old(self).cores()
            } else {
                0
            },
    {
        let mut lines: Vec<String> = Vec::new();
        assert(texts(lines@) =~= Seq::<Seq<char>>::empty());
        if self.is_enabled() {
            let stamp: i64 = now as i64;
            let initialized = self.initialized;
            self.initialized = true;
            let prev_time = if initialized {
                self.print_stamp
            } else {
                self.print_stamp = stamp;
                stamp
            };
            let period: i64 = stamp - prev_time;
            assert(period == old(self)@.window(now as nat));
            if period >= WINDOW_MAX_US {
                self.print_stamp = stamp;
            } else if period >= WINDOW_MIN_US {
                self.print_stamp = stamp;
                let period = period as u32;
                let n = self.cpus.len();
                let mut cpu: usize = 0;
                while cpu < n
                    invariant
                        cpu <= n,
                        n == old(self).cpus.len(),
                        self.cpus.len() == n,
                        period >= WINDOW_MIN_US,
                        forall|j: int|
                            0 <= j < cpu ==> #[trigger] self.cpus[j]@ == old(self).cpus[j]@.reported(
                                period as nat,
                            ),
                        forall|j: int| cpu <= j < n ==> #[trigger] self.cpus[j] == old(self).cpus[j],
                        texts(lines@) == old(self)@.cpu_lines_upto(period as nat, cpu as nat),
                        lines@.len() == cpu,
                        self.tasks == old(self).tasks,
                        self.enabled == old(self).enabled,
                        self.initialized,
                        self.print_stamp == now,
                    decreases n - cpu,
                {
                    let mut rt_cpu = self.cpus[cpu];
                    let cur = load_percent(rt_cpu.swap_cum(0), period);
                    let min = if cur < rt_cpu.min() {
                        cur
                    } else {
                        rt_cpu.min()
                    };
                    let max = if cur > rt_cpu.max() {
                        cur
                    } else {
                        rt_cpu.max()
                    };
                    rt_cpu.store_min(min);
                    rt_cpu.store_max(max);
                    self.cpus.set(cpu, rt_cpu);
                    let ghost shown = texts(lines@);
                    if min != u32::MAX {
                        let line = cpu_line_string(cpu, cur, min, max);
                        lines.push(line);
                        assert(texts(lines@) =~= shown.push(line@));
                    }
                    cpu += 1;
                }
                assert(self@.cpus =~= old(self)@.cpus_reported(now as nat).cpus);
            }
        }
        lines
    }

    /// Asks for the report on task `task_name`, which runs every `time_base`
    /// milliseconds on CPU `core`, and returns the line to print, if any.
    ///
    /// While measurements are taken and the task has a record, its count and
    /// sum start over; the line is made unless the task's minimum is still
    /// the start value.
    pub fn print_task(&mut self, task_name: &str, time_base: usize, core: usize) -> (line: Option<
        String,
    >)
        requires
            old(self).wf(),
        ensures
            final(self).wf(),
            final(self)@ == old(self)@.task_reported(task_name@),
            line is Some == old(self)@.task_report_line(
                task_name@,
                time_base as nat,
                core as nat,
            ) is Some,
            line matches Some(l) ==> Some(l@) == old(self)@.task_report_line(
                task_name@,
                time_base as nat,
                core as nat,
            ),
    {
        if self.is_enabled() {
            match self.tasks.get(task_name) {
                Some(found) => {
                    let mut rt_task = found;
                    let count = rt_task.swap_count(0);
                    let cum = rt_task.swap_cum(0);
                    let min = rt_task.min();
                    let max = rt_task.max();
                    self.tasks.insert(task_name, rt_task);
                    let avg = if count > 0 {
                        cum / count
                    } else {
                        u32::MAX
                    };
                    if min != u32::MAX {
                        return Some(task_line_string(task_name, time_base, core, avg, min, max));
                    }
                },
                None => {},
            }
        }
        None
    }
}

} // verus!
