//! The declared tasks and the timing constants that follow from them.

use vstd::prelude::*;

verus! {

/// One declared task.
#[derive(Debug)]
pub struct TaskDesc {
    /// The task's name, unique within its scheduler.
    pub name: String,
    /// The task's period in milliseconds.
    pub period_ms: u32,
    /// The CPU that the task's worker is pinned to.
    pub core: usize,
    /// The stack of the task's worker, in bytes.
    pub stack_bytes: usize,
}

/// The declaration of a scheduler.
#[derive(Debug)]
pub struct Schema {
    /// The scheduler's name.
    pub name: String,
    /// The number of handler objects that every task runs.
    pub num_objs: usize,
    /// The tasks, in the order in which they are triggered.
    pub tasks: Vec<TaskDesc>,
}

/// Why a declaration is refused.
#[derive(Clone, Copy, Debug, PartialEq, Eq, Structural)]
pub enum ConfigError {
    /// The number of handler objects is zero.
    NoHandlers,
    /// No task is declared.
    NoTasks,
    /// A task has a period of zero.
    ZeroPeriod,
    /// A task names a CPU that does not exist.
    UnknownCore,
    /// A task has a stack of zero bytes.
    ZeroStack,
    /// A period is not a multiple of the shortest period.
    NotHarmonic,
    /// Two tasks have the same name.
    DuplicateName,
}

/// The shortest period among the first `n` tasks; the largest 32-bit number
/// where `n` is zero.
pub open spec fn shortest_upto(tasks: Seq<TaskDesc>, n: nat) -> nat
    decreases n,
{
    if n == 0 {
        u32::MAX as nat
    } else {
        let rest = shortest_upto(tasks, (n - 1) as nat);
        if tasks[n - 1].period_ms < rest {
            tasks[n - 1].period_ms as nat
        } else {
            rest
        }
    }
}

/// The longest period among the first `n` tasks; zero where `n` is zero.
pub open spec fn longest_upto(tasks: Seq<TaskDesc>, n: nat) -> nat
    decreases n,
{
    if n == 0 {
        0
    } else {
        let rest = longest_upto(tasks, (n - 1) as nat);
        if tasks[n - 1].period_ms > rest {
            tasks[n - 1].period_ms as nat
        } else {
            rest
        }
    }
}

/// The tick interval in milliseconds: the shortest declared period.
pub open spec fn base_period(tasks: Seq<TaskDesc>) -> nat {
    shortest_upto(tasks, tasks.len())
}

/// The longest declared period in milliseconds.
pub open spec fn longest_period(tasks: Seq<TaskDesc>) -> nat {
    longest_upto(tasks, tasks.len())
}

/// The length of the wheel in ticks: the longest period in tick intervals.
pub open spec fn wheel_len(tasks: Seq<TaskDesc>) -> nat {
    longest_period(tasks) / base_period(tasks)
}

/// The period of task `t` in tick intervals.
pub open spec fn divider(tasks: Seq<TaskDesc>, t: int) -> nat {
    tasks[t].period_ms as nat / base_period(tasks)
}

/// Whether task `t` is due at wheel position `count`.
pub open spec fn fires(tasks: Seq<TaskDesc>, t: int, count: nat) -> bool {
    count % divider(tasks, t) == 0
}

/// Whether some task has a period of zero.
pub open spec fn has_zero_period(tasks: Seq<TaskDesc>) -> bool {
    exists|i: int| 0 <= i < tasks.len() && (#[trigger] tasks[i]).period_ms == 0
}

/// Whether some task names a CPU outside `0..cores`.
pub open spec fn has_unknown_core(tasks: Seq<TaskDesc>, cores: nat) -> bool {
    exists|i: int| 0 <= i < tasks.len() && (#[trigger] tasks[i]).core >= cores
}

/// Whether some task has a stack of zero bytes.
pub open spec fn has_zero_stack(tasks: Seq<TaskDesc>) -> bool {
    exists|i: int| 0 <= i < tasks.len() && (#[trigger] tasks[i]).stack_bytes == 0
}

/// Whether every period is a multiple of the shortest one.
pub open spec fn harmonic(tasks: Seq<TaskDesc>) -> bool {
    forall|i: int|
        0 <= i < tasks.len() ==> (#[trigger] tasks[i]).period_ms as nat % base_period(tasks) == 0
}

/// Whether no two tasks have the same name.
pub open spec fn names_distinct(tasks: Seq<TaskDesc>) -> bool {
    forall|i: int, j: int|
        0 <= i < j < tasks.len() ==> (#[trigger] tasks[i]).name@ != (#[trigger] tasks[j]).name@
}

impl Schema {
    /// Whether the declaration is one that a scheduler for `cores` CPUs can
    /// run: at least one handler object and one task; every period and stack
    /// positive; every CPU known; every period a multiple of the shortest;
    /// no name twice.
    pub open spec fn valid(self, cores: nat) -> bool {
        &&& self.num_objs >= 1
        &&& self.tasks@.len() >= 1
        &&& !has_zero_period(self.tasks@)
        &&& !has_unknown_core(self.tasks@, cores)
        &&& !has_zero_stack(self.tasks@)
        &&& harmonic(self.tasks@)
        &&& names_distinct(self.tasks@)
    }

    /// The first reason, in the order of the variants, for which the
    /// declaration is refused; none where it is valid.
    pub open spec fn config_error(self, cores: nat) -> Option<ConfigError> {
        if self.num_objs == 0 {
            Some(ConfigError::NoHandlers)
        } else if self.tasks@.len() == 0 {
            Some(ConfigError::NoTasks)
        } else if has_zero_period(self.tasks@) {
            Some(ConfigError::ZeroPeriod)
        } else if has_unknown_core(self.tasks@, cores) {
            Some(ConfigError::UnknownCore)
        } else if has_zero_stack(self.tasks@) {
            Some(ConfigError::ZeroStack)
        } else if !harmonic(self.tasks@) {
            Some(ConfigError::NotHarmonic)
        } else if !names_distinct(self.tasks@) {
            Some(ConfigError::DuplicateName)
        } else {
            None
        }
    }

    /// A declaration is refused exactly where it is not valid.
    pub proof fn lemma_refused_iff_invalid(self, cores: nat)
        ensures
            self.config_error(cores) is None <==> self.valid(cores),
    {
    }

    /// The shortest declared period; the largest 32-bit number where no task
    /// is declared.
    pub fn shortest_period(&self) -> (r: u32)
        ensures
            r == base_period(self.tasks@),
    {
        let mut shortest: u32 = u32::MAX;
        let mut i: usize = 0;
        while i < self.tasks.len()
            invariant
                i <= self.tasks.len(),
                shortest == shortest_upto(self.tasks@, i as nat),
            decreases self.tasks.len() - i,
        {
            if self.tasks[i].period_ms < shortest {
                shortest = self.tasks[i].period_ms;
            }
            i += 1;
        }
        shortest
    }

    /// The longest declared period; zero where no task is declared.
    pub fn longest_period(&self) -> (r: u32)
        ensures
            r == longest_period(self.tasks@),
    {
        let mut longest: u32 = 0;
        let mut i: usize = 0;
        while i < self.tasks.len()
            invariant
                i <= self.tasks.len(),
                longest == longest_upto(self.tasks@, i as nat),
            decreases self.tasks.len() - i,
        {
            if self.tasks[i].period_ms > longest {
                longest = self.tasks[i].period_ms;
            }
            i += 1;
        }
        longest
    }

    fn find_zero_period(&self) -> (found: bool)
        ensures
            found == has_zero_period(self.tasks@),
    {
        let mut i: usize = 0;
        while i < self.tasks.len()
            invariant
                i <= self.tasks.len(),
                forall|j: int| 0 <= j < i ==> (#[trigger] self.tasks@[j]).period_ms != 0,
            decreases self.tasks.len() - i,
        {
            if self.tasks[i].period_ms == 0 {
                return true;
            }
            i += 1;
        }
        false
    }

    fn find_unknown_core(&self, cores: usize) -> (found: bool)
        ensures
            found == has_unknown_core(self.tasks@, cores as nat),
    {
        let mut i: usize = 0;
        while i < self.tasks.len()
            invariant
                i <= self.tasks.len(),
                forall|j: int| 0 <= j < i ==> (#[trigger] self.tasks@[j]).core < cores,
            decreases self.tasks.len() - i,
        {
            if self.tasks[i].core >= cores {
                return true;
            }
            i += 1;
        }
        false
    }

    fn find_zero_stack(&self) -> (found: bool)
        ensures
            found == has_zero_stack(self.tasks@),
    {
        let mut i: usize = 0;
        while i < self.tasks.len()
            invariant
                i <= self.tasks.len(),
                forall|j: int| 0 <= j < i ==> (#[trigger] self.tasks@[j]).stack_bytes != 0,
            decreases self.tasks.len() - i,
        {
            if self.tasks[i].stack_bytes == 0 {
                return true;
            }
            i += 1;
        }
        false
    }

    fn all_harmonic(&self) -> (all: bool)
        requires
            !has_zero_period(self.tasks@),
            self.tasks@.len() >= 1,
        ensures
            all == harmonic(self.tasks@),
    {
        let base = self.shortest_period();
        proof {
            lemma_shortest_is_declared(self.tasks@, self.tasks@.len());
        }
        let mut i: usize = 0;
        while i < self.tasks.len()
            invariant
                i <= self.tasks.len(),
                base == base_period(self.tasks@),
                base > 0,
                forall|j: int|
                    0 <= j < i ==> (#[trigger] self.tasks@[j]).period_ms as nat % base_period(
                        self.tasks@,
                    ) == 0,
            decreases self.tasks.len() - i,
        {
            if self.tasks[i].period_ms % base != 0 {
                return false;
            }
            i += 1;
        }
        true
    }

    fn all_names_distinct(&self) -> (all: bool)
        ensures
            all == names_distinct(self.tasks@),
    {
        let mut j: usize = 0;
        while j < self.tasks.len()
            invariant
                j <= self.tasks.len(),
                forall|a: int, b: int|
                    0 <= a < b < j ==> (#[trigger] self.tasks@[a]).name@ != (
                    #[trigger] self.tasks@[b]).name@,
            decreases self.tasks.len() - j,
        {
            let mut i: usize = 0;
            while i < j
                invariant
                    i <= j,
                    j < self.tasks.len(),
                    forall|a: int|
                        0 <= a < i ==> (#[trigger] self.tasks@[a]).name@ != self.tasks@[j as int].name@,
                decreases j - i,
            {
                if self.tasks[i].name == self.tasks[j].name {
                    return false;
                }
                i += 1;
            }
            j += 1;
        }
        true
    }

    /// Checks the declaration for a scheduler on `cores` CPUs.
    pub fn validate(&self, cores: usize) -> (r: Result<(), ConfigError>)
        ensures
            r is Ok <==> self.valid(cores as nat),
            match r {
                Ok(_) => self.config_error(cores as nat) is None,
                Err(e) => self.config_error(cores as nat) == Some(e),
            },
    {
        if self.num_objs == 0 {
            return Err(ConfigError::NoHandlers);
        }
        if self.tasks.len() == 0 {
            return Err(ConfigError::NoTasks);
        }
        if self.find_zero_period() {
            return Err(ConfigError::ZeroPeriod);
        }
        if self.find_unknown_core(cores) {
            return Err(ConfigError::UnknownCore);
        }
        if self.find_zero_stack() {
            return Err(ConfigError::ZeroStack);
        }
        if !self.all_harmonic() {
            return Err(ConfigError::NotHarmonic);
        }
        if !self.all_names_distinct() {
            return Err(ConfigError::DuplicateName);
        }
        Ok(())
    }
}

/// The shortest period among the first `n` tasks, where `n` is not zero, is
/// the period of one of them, and none of them has a shorter one.
pub proof fn lemma_shortest_is_declared(tasks: Seq<TaskDesc>, n: nat)
    requires
        1 <= n <= tasks.len(),
    ensures
        exists|i: int| 0 <= i < n && (#[trigger] tasks[i]).period_ms == shortest_upto(tasks, n),
        forall|i: int| 0 <= i < n ==> shortest_upto(tasks, n) <= (#[trigger] tasks[i]).period_ms,
        !has_zero_period(tasks) ==> shortest_upto(tasks, n) > 0,
    decreases n,
{
    if n == 1 {
        assert(shortest_upto(tasks, 0) == u32::MAX);
        assert(tasks[0].period_ms == shortest_upto(tasks, 1));
    } else {
        lemma_shortest_is_declared(tasks, (n - 1) as nat);
        let rest = shortest_upto(tasks, (n - 1) as nat);
        if tasks[n - 1].period_ms < rest {
            assert(tasks[n - 1].period_ms == shortest_upto(tasks, n));
        } else {
            let i = choose|i: int| 0 <= i < n - 1 && (#[trigger] tasks[i]).period_ms == rest;
            assert(tasks[i].period_ms == shortest_upto(tasks, n));
        }
    }
    if !has_zero_period(tasks) {
        let i = choose|i: int| 0 <= i < n && (#[trigger] tasks[i]).period_ms == shortest_upto(tasks, n);
        assert(tasks[i].period_ms != 0);
    }
}

/// The longest period among the first `n` tasks, where `n` is not zero, is
/// the period of one of them, and none of them has a longer one.
pub proof fn lemma_longest_is_declared(tasks: Seq<TaskDesc>, n: nat)
    requires
        1 <= n <= tasks.len(),
    ensures
        exists|i: int| 0 <= i < n && (#[trigger] tasks[i]).period_ms == longest_upto(tasks, n),
        forall|i: int| 0 <= i < n ==> longest_upto(tasks, n) >= (#[trigger] tasks[i]).period_ms,
    decreases n,
{
    if n == 1 {
        assert(tasks[0].period_ms == longest_upto(tasks, 1));
    } else {
        lemma_longest_is_declared(tasks, (n - 1) as nat);
        let rest = longest_upto(tasks, (n - 1) as nat);
        if tasks[n - 1].period_ms > rest {
            assert(tasks[n - 1].period_ms == longest_upto(tasks, n));
        } else {
            let i = choose|i: int| 0 <= i < n - 1 && (#[trigger] tasks[i]).period_ms == rest;
            assert(tasks[i].period_ms == longest_upto(tasks, n));
        }
    }
}

} // verus!
