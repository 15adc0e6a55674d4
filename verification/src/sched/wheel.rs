//! The scheduler proper: the timing wheel, the trigger slots and the
//! measurement that goes with them.

use crate::meas::enabled::texts;
use crate::meas::model::MeasState;
use crate::meas::RuntimeMeas;
use crate::sched::schema::{
    base_period, divider, fires, lemma_longest_is_declared, lemma_shortest_is_declared,
    longest_period, wheel_len, ConfigError, Schema, TaskDesc,
};
use crate::sched::trigger::TriggerSlot;
use crate::text::{decimal, to_decimal};
use vstd::prelude::*;
use vstd::string::*;

verus! {

/// The name of the worker thread of scheduler `sched` on CPU `core`. It ends
/// in a NUL, for kernels that want a C string.
pub open spec fn thread_name_text(sched: Seq<char>, core: nat) -> Seq<char> {
    sched + "_cpu"@ + decimal(core) + "\0"@
}

/// Makes the name of the worker thread of scheduler `sched` on CPU `core`.
pub fn thread_name(sched: &str, core: usize) -> (r: String)
    ensures
        r@ == thread_name_text(sched@, core as nat),
{
    let mut s = String::from_str(sched);
    s.append("_cpu");
    s.append(to_decimal(core as u64).as_str());
    s.append("\0");
    s
}

/// Why a scheduler does not start.
#[derive(Clone, Copy, Debug, PartialEq, Eq, Structural)]
pub enum InitError {
    /// The scheduler was started before.
    AlreadyInitialized,
}

/// A worker thread to spawn.
#[derive(Debug)]
pub struct SpawnRequest {
    /// The index of the task that the worker serves.
    pub task: usize,
    /// The thread's name, NUL at the end.
    pub name: String,
    /// The CPU to pin the thread to.
    pub core: usize,
    /// The thread's stack in bytes.
    pub stack_bytes: usize,
}

/// What is left to do once a scheduler has started: spawn the workers, in
/// this order, then arm the timer.
#[derive(Debug)]
pub struct InitPlan {
    /// One worker per task, in the order of the declaration.
    pub workers: Vec<SpawnRequest>,
    /// The interval of the periodic timer in milliseconds.
    pub timer_period_ms: u32,
}

/// The state of a scheduler.
pub struct SchedState {
    /// Whether the scheduler was started.
    pub initialized: bool,
    /// The tick interval in milliseconds; zero before the start.
    pub baseperiod: nat,
    /// The wheel position: the number of the next tick within the wheel.
    pub count: nat,
    /// The length of the wheel in ticks; zero before the start.
    pub count_mod: nat,
    /// Per task, whether a wake-up is pending.
    pub pending: Seq<bool>,
    /// The measurement state.
    pub rt: MeasState,
}

impl SchedState {
    /// The state of a new scheduler with `tasks` tasks on `cores` CPUs.
    pub open spec fn fresh(tasks: nat, cores: nat) -> SchedState {
        SchedState {
            initialized: false,
            baseperiod: 0,
            count: 0,
            count_mod: 0,
            pending: Seq::new(tasks, |t: int| false),
            rt: MeasState::fresh(cores),
        }
    }

    /// What a start does: it is refused where the scheduler was started
    /// before, and gives the started state otherwise.
    pub open spec fn start(self, tasks: Seq<TaskDesc>) -> Result<SchedState, InitError> {
        if self.initialized {
            Err(InitError::AlreadyInitialized)
        } else {
            Ok(self.started(tasks))
        }
    }

    /// The state after the start.
    pub open spec fn started(self, tasks: Seq<TaskDesc>) -> SchedState {
        SchedState {
            initialized: true,
            baseperiod: base_period(tasks),
            count: 0,
            count_mod: wheel_len(tasks),
            ..self
        }
    }

    /// The state after one tick: every task that is due at the wheel
    /// position has a wake-up pending, the others are as they were, and the
    /// wheel has moved on by one.
    pub open spec fn ticked(self, tasks: Seq<TaskDesc>) -> SchedState {
        SchedState {
            pending: Seq::new(
                self.pending.len(),
                |t: int| self.pending[t] || fires(tasks, t, self.count),
            ),
            count: (self.count + 1) % self.count_mod,
            ..self
        }
    }

    /// The state after the worker of task `t` took its wake-up.
    pub open spec fn taken(self, t: int) -> SchedState {
        SchedState { pending: self.pending.update(t, false), ..self }
    }
}

/// The measurement state after the task reports of the first `n` tasks.
pub open spec fn tasks_reported(rt: MeasState, tasks: Seq<TaskDesc>, n: nat) -> MeasState
    decreases n,
{
    if n == 0 {
        rt
    } else {
        tasks_reported(rt, tasks, (n - 1) as nat).task_reported(tasks[n - 1].name@)
    }
}

/// The lines of the task reports of the first `n` tasks, in task order.
pub open spec fn task_lines(rt: MeasState, tasks: Seq<TaskDesc>, n: nat) -> Seq<Seq<char>>
    decreases n,
{
    if n == 0 {
        Seq::empty()
    } else {
        let lines = task_lines(rt, tasks, (n - 1) as nat);
        let before = tasks_reported(rt, tasks, (n - 1) as nat);
        match before.task_report_line(
            tasks[n - 1].name@,
            tasks[n - 1].period_ms as nat,
            tasks[n - 1].core as nat,
        ) {
            Some(line) => lines.push(line),
            None => lines,
        }
    }
}

/// The measurement state after a full report at clock reading `now`.
pub open spec fn rt_printed(rt: MeasState, tasks: Seq<TaskDesc>, now: nat) -> MeasState {
    tasks_reported(rt.cpus_reported(now), tasks, tasks.len())
}

/// The lines of a full report at clock reading `now`: the CPUs, then the tasks.
pub open spec fn rt_print_lines(rt: MeasState, tasks: Seq<TaskDesc>, now: nat) -> Seq<Seq<char>> {
    rt.cpu_lines(now) + task_lines(rt.cpus_reported(now), tasks, tasks.len())
}

/// In a valid declaration the tick interval is positive, the wheel has at
/// least one position, and every task's period is at least one tick.
pub proof fn lemma_timing_positive(schema: Schema, cores: nat)
    requires
        schema.valid(cores),
    ensures
        0 < base_period(schema.tasks@) <= u32::MAX,
        1 <= wheel_len(schema.tasks@) <= u32::MAX,
        base_period(schema.tasks@) <= longest_period(schema.tasks@) <= u32::MAX,
        forall|t: int|
            0 <= t < schema.tasks@.len() ==> 1 <= #[trigger] divider(schema.tasks@, t) <= wheel_len(
                schema.tasks@,
            ),
{
    let tasks = schema.tasks@;
    let base = base_period(tasks);
    let longest = longest_period(tasks);
    lemma_shortest_is_declared(tasks, tasks.len());
    lemma_longest_is_declared(tasks, tasks.len());
    let lo = choose|i: int| 0 <= i < tasks.len() && (#[trigger] tasks[i]).period_ms == base;
    assert(base <= longest) by {
        assert(longest >= tasks[lo].period_ms);
    }
    vstd::arithmetic::div_mod::lemma_div_is_ordered(base as int, longest as int, base as int);
    vstd::arithmetic::div_mod::lemma_div_basics(base as int);
    vstd::arithmetic::div_mod::lemma_div_is_ordered_by_denominator(longest as int, 1, base as int);
    assert forall|t: int| 0 <= t < tasks.len() implies 1 <= #[trigger] divider(tasks, t)
        <= wheel_len(tasks) by {
        let p = tasks[t].period_ms as int;
        assert(base <= p <= longest);
        vstd::arithmetic::div_mod::lemma_div_is_ordered(base as int, p, base as int);
        vstd::arithmetic::div_mod::lemma_div_is_ordered(p, longest as int, base as int);
    }
}

/// A time-slice scheduler: the declaration, the timing wheel, one trigger
/// slot per task and the measurement accumulator.
pub struct TimeSliceSched {
    schema: Schema,
    initialized: bool,
    baseperiod: u32,
    count: u32,
    count_mod: u32,
    triggers: Vec<TriggerSlot>,
    rt: RuntimeMeas,
}

impl View for TimeSliceSched {
    type V = SchedState;

    closed spec fn view(&self) -> SchedState {
        SchedState {
            initialized: self.initialized,
            baseperiod: self.baseperiod as nat,
            count: self.count as nat,
            count_mod: self.count_mod as nat,
            pending: Seq::new(self.triggers.len() as nat, |t: int| self.triggers[t]@),
            rt: self.rt@,
        }
    }
}

impl TimeSliceSched {
    /// The declaration that the scheduler was made from.
    pub closed spec fn schema(self) -> Schema {
        self.schema
    }

    /// The declared tasks.
    pub open spec fn tasks(self) -> Seq<TaskDesc> {
        self.schema().tasks@
    }

    /// The number of CPUs.
    pub open spec fn cores(self) -> nat {
        self@.rt.cpus.len()
    }

    /// The accumulator's representation is sound.
    pub closed spec fn rt_wf(self) -> bool {
        self.rt.wf()
    }

    /// The scheduler is sound: its declaration is valid, every task has a
    /// slot, and from the start on the timing constants are those of the
    /// declaration and the wheel position is on the wheel.
    pub open spec fn wf(self) -> bool {
        &&& self.schema().valid(self.cores())
        &&& self@.pending.len() == self.tasks().len()
        &&& self.rt_wf()
        &&& self@.initialized ==> {
            &&& self@.baseperiod == base_period(self.tasks())
            &&& self@.count_mod == wheel_len(self.tasks())
            &&& self@.count < self@.count_mod
        }
        &&& !self@.initialized ==> {
            &&& self@.baseperiod == 0
            &&& self@.count_mod == 0
            &&& self@.count == 0
        }
    }

    /// Makes a scheduler from a declaration, for a machine with `cores`
    /// CPUs. The declaration is checked first; a scheduler is only made from
    /// a valid one. The scheduler is not started, no wake-up is pending and
    /// measurement is off.
    pub fn new(schema: Schema, cores: usize) -> (r: Result<TimeSliceSched, ConfigError>)
        ensures
            r is Ok <==> schema.valid(cores as nat),
            match r {
                Ok(sched) => {
                    &&& sched.wf()
                    &&& sched.schema() == schema
                    &&& sched@ == SchedState::fresh(schema.tasks@.len(), cores as nat)
                },
                Err(e) => schema.config_error(cores as nat) == Some(e),
            },
    {
        match schema.validate(cores) {
            Err(e) => Err(e),
            Ok(_) => {
                let n = schema.tasks.len();
                let mut triggers: Vec<TriggerSlot> = Vec::new();
                let mut t: usize = 0;
                while t < n
                    invariant
                        t <= n,
                        triggers.len() == t,
                        forall|j: int| 0 <= j < t ==> !(#[trigger] triggers[j])@,
                    decreases n - t,
                {
                    triggers.push(TriggerSlot::new());
                    t += 1;
                }
                let sched = TimeSliceSched {
                    schema,
                    initialized: false,
                    baseperiod: 0,
                    count: 0,
                    count_mod: 0,
                    triggers,
                    rt: RuntimeMeas::new(cores),
                };
                assert(sched@.pending =~= SchedState::fresh(
                    schema.tasks@.len(),
                    cores as nat,
                ).pending);
                Ok(sched)
            },
        }
    }

    /// Whether the scheduler was started.
    pub fn is_initialized(&self) -> (r: bool)
        ensures
            r == self@.initialized,
    {
        self.initialized
    }

    /// The tick interval in milliseconds; zero before the start.
    pub fn baseperiod(&self) -> (r: u32)
        ensures
            r == self@.baseperiod,
    {
        self.baseperiod
    }

    /// The wheel position.
    pub fn count(&self) -> (r: u32)
        ensures
            r == self@.count,
    {
        self.count
    }

    /// The length of the wheel in ticks; zero before the start.
    pub fn count_mod(&self) -> (r: u32)
        ensures
            r == self@.count_mod,
    {
        self.count_mod
    }

    /// The number of declared tasks.
    pub fn num_tasks(&self) -> (r: usize)
        ensures
            r == self.tasks().len(),
    {
        self.schema.tasks.len()
    }

    /// The number of handler objects that every task runs.
    pub fn num_objs(&self) -> (r: usize)
        ensures
            r == self.schema().num_objs,
    {
        self.schema.num_objs
    }

    /// The declaration of task `task`.
    pub fn task(&self, task: usize) -> (r: &TaskDesc)
        requires
            task < self.tasks().len(),
        ensures
            *r == self.tasks()[task as int],
    {
        &self.schema.tasks[task]
    }

    /// Whether a wake-up is pending for task `task`.
    pub fn is_pending(&self, task: usize) -> (r: bool)
        requires
            task < self@.pending.len(),
        ensures
            r == self@.pending[task as int],
    {
        self.triggers[task].is_pending()
    }

    /// Starts the scheduler, once: fixes the tick interval and the length of
    /// the wheel, puts the wheel at position zero, and says which workers to
    /// spawn and which timer to arm. A second start is refused and changes
    /// nothing.
    pub fn init(&mut self) -> (r: Result<InitPlan, InitError>)
        requires
            old(self).wf(),
        ensures
            final(self).wf(),
            final(self).schema() == old(self).schema(),
            final(self)@.initialized,
            r is Err <==> old(self)@.initialized,
            match r {
                Err(e) => {
                    &&& old(self)@.start(old(self).tasks()) == Err::<SchedState, InitError>(e)
                    &&& e == InitError::AlreadyInitialized
                    &&& final(self)@ == old(self)@
                },
                Ok(plan) => {
                    &&& old(self)@.start(old(self).tasks()) == Ok::<SchedState, InitError>(
                        final(self)@,
                    )
                    &&& final(self)@ == old(self)@.started(old(self).tasks())
                    &&& plan.timer_period_ms == base_period(old(self).tasks())
                    &&& plan.workers@.len() == old(self).tasks().len()
                    &&& forall|t: int|
                        0 <= t < plan.workers@.len() ==> {
                            &&& (#[trigger] plan.workers@[t]).task == t
                            &&& plan.workers@[t].name@ == thread_name_text(
                                old(self).schema().name@,
                                old(self).tasks()[t].core as nat,
                            )
                            &&& plan.workers@[t].core == old(self).tasks()[t].core
                            &&& plan.workers@[t].stack_bytes == old(self).tasks()[t].stack_bytes
                        }
                },
            },
    {
        if self.initialized {
            return Err(InitError::AlreadyInitialized);
        }
        self.initialized = true;
        proof {
            lemma_timing_positive(self.schema, self.cores());
        }
        let baseperiod = self.schema.shortest_period();
        let count_mod = self.schema.longest_period() / baseperiod;
        let n = self.schema.tasks.len();
        let mut workers: Vec<SpawnRequest> = Vec::new();
        let mut t: usize = 0;
        while t < n
            invariant
                t <= n,
                n == self.schema.tasks@.len(),
                self.schema == old(self).schema,
                workers@.len() == t,
                forall|j: int|
                    0 <= j < t ==> {
                        &&& (#[trigger] workers@[j]).task == j
                        &&& workers@[j].name@ == thread_name_text(
                            self.schema.name@,
                            self.schema.tasks@[j].core as nat,
                        )
                        &&& workers@[j].core == self.schema.tasks@[j].core
                        &&& workers@[j].stack_bytes == self.schema.tasks@[j].stack_bytes
                    },
            decreases n - t,
        {
            let core = self.schema.tasks[t].core;
            let stack_bytes = self.schema.tasks[t].stack_bytes;
            let name = thread_name(self.schema.name.as_str(), core);
            workers.push(SpawnRequest { task: t, name, core, stack_bytes });
            t += 1;
        }
        self.baseperiod = baseperiod;
        self.count = 0;
        self.count_mod = count_mod;
        assert(self@.pending =~= old(self)@.pending);
        Ok(InitPlan { workers, timer_period_ms: baseperiod })
    }

    /// Handles one tick of the base timer: leaves a wake-up pending for every
    /// task that is due at the wheel position, in the order of the
    /// declaration, and moves the wheel on by one. A wake-up that was still
    /// pending is not counted twice.
    ///
    /// Returns the tasks that are due, in rising order: the workers to notify.
    pub fn base_tick_handler(&mut self) -> (due: Vec<usize>)
        requires
            old(self).wf(),
            old(self)@.initialized,
        ensures
            final(self).wf(),
            final(self).schema() == old(self).schema(),
            final(self)@ == old(self)@.ticked(old(self).tasks()),
            due@.len() <= old(self).tasks().len(),
            forall|a: int, b: int| 0 <= a < b < due@.len() ==> due@[a] < due@[b],
            forall|a: int| 0 <= a < due@.len() ==> (#[trigger] due@[a]) < old(self).tasks().len(),
            forall|t: int|
                0 <= t < old(self).tasks().len() ==> (due@.contains(t as usize) <==> #[trigger] fires(
                    old(self).tasks(),
                    t,
                    old(self)@.count,
                )),
    {
        proof {
            lemma_timing_positive(self.schema, self.cores());
        }
        let baseperiod = self.baseperiod;
        let count = self.count;
        let n = self.schema.tasks.len();
        let mut due: Vec<usize> = Vec::new();
        let mut t: usize = 0;
        while t < n
            invariant
                t <= n,
                n == self.schema.tasks@.len(),
                self.triggers.len() == n,
                self.schema == old(self).schema,
                self.rt == old(self).rt,
                self.initialized == old(self).initialized,
                self.baseperiod == old(self).baseperiod,
                self.count == old(self).count,
                self.count_mod == old(self).count_mod,
                baseperiod == base_period(self.schema.tasks@),
                baseperiod > 0,
                count == old(self).count,
                forall|j: int|
                    0 <= j < n ==> 1 <= #[trigger] divider(self.schema.tasks@, j),
                forall|j: int|
                    0 <= j < t ==> (#[trigger] self.triggers[j])@ == (old(self).triggers[j]@ || fires(
                        self.schema.tasks@,
                        j,
                        count as nat,
                    )),
                forall|j: int| t <= j < n ==> (#[trigger] self.triggers[j])@ == old(self).triggers[j]@,
                due@.len() <= t,
                forall|a: int, b: int| 0 <= a < b < due@.len() ==> due@[a] < due@[b],
                forall|a: int| 0 <= a < due@.len() ==> (#[trigger] due@[a]) < t,
                forall|j: int|
                    0 <= j < t ==> (due@.contains(j as usize) <==> #[trigger] fires(
                        self.schema.tasks@,
                        j,
                        count as nat,
                    )),
            decreases n - t,
        {
            assert(1 <= divider(self.schema.tasks@, t as int));
            let ghost before = due@;
            if count % (self.schema.tasks[t].period_ms / baseperiod) == 0 {
                self.triggers[t].raise();
                due.push(t);
                proof {
                    assert(due@[due@.len() - 1] == t);
                    assert(due@.contains(t));
                    assert forall|j: int| 0 <= j < t implies (due@.contains(j as usize)
                        <==> #[trigger] fires(self.schema.tasks@, j, count as nat)) by {
                        if before.contains(j as usize) {
                            let a = choose|a: int| 0 <= a < before.len() && before[a] == j as usize;
                            assert(due@[a] == j as usize);
                        }
                        if due@.contains(j as usize) {
                            let a = choose|a: int| 0 <= a < due@.len() && due@[a] == j as usize;
                            assert(a < before.len());
                            assert(before[a] == j as usize);
                        }
                    }
                }
            } else {
                proof {
                    if due@.contains(t) {
                        let a = choose|a: int| 0 <= a < due@.len() && due@[a] == t;
                        assert(due@[a] < t);
                    }
                }
            }
            t += 1;
        }
        self.count = (count + 1) % self.count_mod;
        assert(self@.pending =~= old(self)@.ticked(old(self).tasks()).pending);
        due
    }

    /// Takes the pending wake-up of task `task`, if there is one: the test
    /// that the task's worker makes before it runs the handlers, and after
    /// which it goes back to waiting. Returns whether there was one.
    pub fn take_trigger(&mut self, task: usize) -> (fired: bool)
        requires
            old(self).wf(),
            task < old(self).tasks().len(),
        ensures
            final(self).wf(),
            final(self).schema() == old(self).schema(),
            fired == old(self)@.pending[task as int],
            final(self)@ == old(self)@.taken(task as int),
    {
        let fired = self.triggers[task].take();
        assert(self@.pending =~= old(self)@.taken(task as int).pending);
        fired
    }

    /// Starts the measurement of one run of a worker at clock reading `now`.
    pub fn worker_begin(&self, now: u32) -> (begin: i64)
        ensures
            begin == self@.rt.begin_token(now as nat),
    {
        self.rt.meas_begin(now)
    }

    /// Ends the measurement of one run of the worker of task `task` at clock
    /// reading `now`, under the task's name and on the task's CPU.
    pub fn worker_end(&mut self, task: usize, begin: i64, now: u32)
        requires
            old(self).wf(),
            task < old(self).tasks().len(),
        ensures
            final(self).wf(),
            final(self).schema() == old(self).schema(),
            final(self)@ == (SchedState {
                rt: old(self)@.rt.ended(
                    old(self).tasks()[task as int].name@,
                    old(self).tasks()[task as int].core as int,
                    begin as int,
                    now as nat,
                ),
                ..old(self)@
            }),
    {
        let core = self.schema.tasks[task].core;
        assert(self.schema.tasks@[task as int].core < self.cores());
        self.rt.meas_end(self.schema.tasks[task].name.as_str(), core, begin, now);
        assert(self@.pending =~= old(self)@.pending);
        assert(self@.rt.cpus.len() == old(self)@.rt.cpus.len());
    }

    /// Whether measurements are taken.
    pub fn rt_is_enabled(&self) -> (r: bool)
        ensures
            r == self@.rt.enabled,
    {
        self.rt.is_enabled()
    }

    /// Switches the measurement on or off.
    pub fn rt_enable(&mut self, enable: bool)
        requires
            old(self).wf(),
        ensures
            final(self).wf(),
            final(self).schema() == old(self).schema(),
            final(self)@ == (SchedState { rt: old(self)@.rt.switched(enable), ..old(self)@ }),
    {
        self.rt.enable(enable);
        assert(self@.pending =~= old(self)@.pending);
    }

    /// Asks for the full report at clock reading `now` and returns the lines
    /// to print: the CPUs, then the tasks in the order of the declaration.
    pub fn rt_print(&mut self, now: u32) -> (lines: Vec<String>)
        requires
            old(self).wf(),
        ensures
            final(self).wf(),
            final(self).schema() == old(self).schema(),
            final(self)@ == (SchedState {
                rt: rt_printed(old(self)@.rt, old(self).tasks(), now as nat),
                ..old(self)@
            }),
            texts(lines@) == rt_print_lines(old(self)@.rt, old(self).tasks(), now as nat),
    {
        let mut lines = self.rt.print_cpus(now);
        let ghost cpu_part = texts(lines@);
        let ghost rt0 = self.rt@;
        let n = self.schema.tasks.len();
        let mut t: usize = 0;
        while t < n
            invariant
                t <= n,
                n == self.schema.tasks@.len(),
                self.schema == old(self).schema,
                self.triggers == old(self).triggers,
                self.initialized == old(self).initialized,
                self.baseperiod == old(self).baseperiod,
                self.count == old(self).count,
                self.count_mod == old(self).count_mod,
                self.rt.wf(),
                self.rt@.cpus.len() == old(self)@.rt.cpus.len(),
                self.rt@ == tasks_reported(rt0, self.schema.tasks@, t as nat),
                texts(lines@) == cpu_part + task_lines(rt0, self.schema.tasks@, t as nat),
            decreases n - t,
        {
            let ghost shown = texts(lines@);
            let time_base = self.schema.tasks[t].period_ms as usize;
            let core = self.schema.tasks[t].core;
            match self.rt.print_task(self.schema.tasks[t].name.as_str(), time_base, core) {
                Some(line) => {
                    lines.push(line);
                    assert(texts(lines@) =~= shown.push(line@));
                },
                None => {},
            }
            assert(texts(lines@) =~= cpu_part + task_lines(rt0, self.schema.tasks@, (t + 1) as nat));
            t += 1;
        }
        assert(self@.pending =~= old(self)@.pending);
        lines
    }
}

} // verus!
