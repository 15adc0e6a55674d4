//! What holds of the timing wheel and the trigger slots across ticks.

use crate::sched::schema::{
    base_period, divider, fires, lemma_shortest_is_declared, longest_period, wheel_len, Schema,
    TaskDesc,
};
use crate::sched::wheel::{lemma_timing_positive, InitError, SchedState};
use vstd::arithmetic::div_mod::{
    lemma_add_mod_noop, lemma_div_basics, lemma_fundamental_div_mod, lemma_mod_mod,
    lemma_mod_self_0, lemma_small_mod,
};
use vstd::prelude::*;

verus! {

/// The state after `k` ticks.
pub open spec fn ticked_n(s: SchedState, tasks: Seq<TaskDesc>, k: nat) -> SchedState
    decreases k,
{
    if k == 0 {
        s
    } else {
        ticked_n(s, tasks, (k - 1) as nat).ticked(tasks)
    }
}

/// The tick interval is the greatest common divisor of the declared
/// periods, and it is the shortest of them: it is the period of some task,
/// no period is below it, and it divides every period.
pub proof fn lemma_base_period_divides_all(schema: Schema, cores: nat)
    requires
        schema.valid(cores),
    ensures
        base_period(schema.tasks@) > 0,
        exists|i: int|
            0 <= i < schema.tasks@.len() && (#[trigger] schema.tasks@[i]).period_ms == base_period(
                schema.tasks@,
            ),
        forall|i: int|
            0 <= i < schema.tasks@.len() ==> {
                &&& base_period(schema.tasks@) <= (#[trigger] schema.tasks@[i]).period_ms
                &&& schema.tasks@[i].period_ms as nat % base_period(schema.tasks@) == 0
                &&& schema.tasks@[i].period_ms == divider(schema.tasks@, i) * base_period(
                    schema.tasks@,
                )
            },
{
    let tasks = schema.tasks@;
    let base = base_period(tasks);
    lemma_shortest_is_declared(tasks, tasks.len());
    assert forall|i: int| 0 <= i < tasks.len() implies (#[trigger] tasks[i]).period_ms == divider(
        tasks,
        i,
    ) * base by {
        let p = tasks[i].period_ms as int;
        assert(p % (base as int) == 0);
        lemma_fundamental_div_mod(p, base as int);
        assert(p == (base as int) * (p / (base as int)));
        assert((base as int) * (p / (base as int)) == (p / (base as int)) * (base as int))
            by (nonlinear_arith);
    }
}

/// Whatever divides every declared period divides the tick interval, and is
/// not above it.
pub proof fn lemma_base_period_is_greatest(schema: Schema, cores: nat, d: nat)
    requires
        schema.valid(cores),
        d > 0,
        forall|i: int|
            0 <= i < schema.tasks@.len() ==> (#[trigger] schema.tasks@[i]).period_ms as nat % d == 0,
    ensures
        base_period(schema.tasks@) % d == 0,
        d <= base_period(schema.tasks@),
{
    let tasks = schema.tasks@;
    let base = base_period(tasks);
    lemma_shortest_is_declared(tasks, tasks.len());
    let i = choose|i: int| 0 <= i < tasks.len() && (#[trigger] tasks[i]).period_ms == base;
    assert(tasks[i].period_ms as nat % d == 0);
    if base < d {
        lemma_small_mod(base, d);
    }
}

/// From the start on, the wheel position before tick `k`, counted from
/// zero, is `k` reduced by the length of the wheel.
pub proof fn lemma_wheel_position(s: SchedState, tasks: Seq<TaskDesc>, k: nat)
    requires
        s.count_mod > 0,
        s.count == 0,
    ensures
        ticked_n(s, tasks, k).count == k % s.count_mod,
        ticked_n(s, tasks, k).count_mod == s.count_mod,
        ticked_n(s, tasks, k).pending.len() == s.pending.len(),
        ticked_n(s, tasks, k).initialized == s.initialized,
        ticked_n(s, tasks, k).baseperiod == s.baseperiod,
        ticked_n(s, tasks, k).rt == s.rt,
    decreases k,
{
    let m = s.count_mod as int;
    if k == 0 {
        lemma_small_mod(0, s.count_mod);
    } else {
        lemma_wheel_position(s, tasks, (k - 1) as nat);
        lemma_add_mod_noop(k - 1, 1, m);
        if m == 1 {
            assert((k - 1) % 1 == 0);
            assert(k as int % 1 == 0);
        } else {
            lemma_small_mod(1, s.count_mod);
        }
    }
}

/// Task `t` is signaled on tick `k`, counted from zero from the start, if
/// and only if `k` is a multiple of the task's period in ticks. This holds
/// of every task whose period divides the longest period, and so of every
/// task of a declaration whose periods each divide the next longer one.
pub proof fn lemma_signal_on_tick(schema: Schema, cores: nat, s: SchedState, t: int, k: nat)
    requires
        schema.valid(cores),
        0 <= t < schema.tasks@.len(),
        s.count == 0,
        s.count_mod == wheel_len(schema.tasks@),
        s.pending.len() == schema.tasks@.len(),
        wheel_len(schema.tasks@) % divider(schema.tasks@, t) == 0,
    ensures
        fires(schema.tasks@, t, ticked_n(s, schema.tasks@, k).count) <==> k % divider(
            schema.tasks@,
            t,
        ) == 0,
        ticked_n(s, schema.tasks@, k).ticked(schema.tasks@).pending[t] <== k % divider(
            schema.tasks@,
            t,
        ) == 0,
{
    let tasks = schema.tasks@;
    lemma_timing_positive(schema, cores);
    lemma_wheel_position(s, tasks, k);
    let m = wheel_len(tasks) as int;
    let d = divider(tasks, t) as int;
    assert(1 <= d <= m);
    lemma_fundamental_div_mod(m, d);
    assert(m == d * (m / d));
    assert(m / d > 0) by {
        if m / d <= 0 {
            assert(d * (m / d) <= 0) by (nonlinear_arith)
                requires
                    d > 0,
                    m / d <= 0,
            ;
        }
    }
    lemma_mod_mod(k as int, d, m / d);
    assert((k as int % m) % d == k as int % d);
}

/// Within the first turn of the wheel, task `t` is signaled on tick `k` if
/// and only if `k` is a multiple of the task's period in ticks, whatever the
/// periods are.
pub proof fn lemma_signal_in_first_turn(schema: Schema, cores: nat, s: SchedState, t: int, k: nat)
    requires
        schema.valid(cores),
        0 <= t < schema.tasks@.len(),
        s.count == 0,
        s.count_mod == wheel_len(schema.tasks@),
        k < wheel_len(schema.tasks@),
    ensures
        fires(schema.tasks@, t, ticked_n(s, schema.tasks@, k).count) <==> k % divider(
            schema.tasks@,
            t,
        ) == 0,
{
    lemma_timing_positive(schema, cores);
    lemma_wheel_position(s, schema.tasks@, k);
    lemma_small_mod(k, wheel_len(schema.tasks@));
}

/// A task whose period is the tick interval is due at every wheel position:
/// it is signaled on every tick.
pub proof fn lemma_base_task_fires_every_tick(schema: Schema, cores: nat, t: int, count: nat)
    requires
        schema.valid(cores),
        0 <= t < schema.tasks@.len(),
        schema.tasks@[t].period_ms == base_period(schema.tasks@),
    ensures
        divider(schema.tasks@, t) == 1,
        fires(schema.tasks@, t, count),
{
    lemma_timing_positive(schema, cores);
    lemma_div_basics(base_period(schema.tasks@) as int);
}

/// A task with the longest period has the whole wheel as its period: on the
/// wheel it is due at position zero and nowhere else, so it is signaled
/// once per turn; and after the last position the wheel is back at zero.
pub proof fn lemma_longest_task_fires_once_per_turn(
    schema: Schema,
    cores: nat,
    s: SchedState,
    t: int,
    count: nat,
)
    requires
        schema.valid(cores),
        0 <= t < schema.tasks@.len(),
        schema.tasks@[t].period_ms == longest_period(schema.tasks@),
        count < wheel_len(schema.tasks@),
        s.count_mod == wheel_len(schema.tasks@),
        s.count == wheel_len(schema.tasks@) - 1,
    ensures
        divider(schema.tasks@, t) == wheel_len(schema.tasks@),
        fires(schema.tasks@, t, count) <==> count == 0,
        s.ticked(schema.tasks@).count == 0,
{
    lemma_timing_positive(schema, cores);
    let m = wheel_len(schema.tasks@);
    if count > 0 {
        lemma_small_mod(count, m);
    } else {
        lemma_small_mod(0, m);
    }
    lemma_mod_self_0(m as int);
}

/// After a whole turn of the wheel from the start the wheel is at zero again.
pub proof fn lemma_wheel_wraps(s: SchedState, tasks: Seq<TaskDesc>, turns: nat)
    requires
        s.count_mod > 0,
        s.count == 0,
    ensures
        ticked_n(s, tasks, turns * s.count_mod).count == 0,
{
    lemma_wheel_position(s, tasks, turns * s.count_mod);
    vstd::arithmetic::div_mod::lemma_mod_multiples_basic(turns as int, s.count_mod as int);
}

/// However many ticks went by since a worker last took its wake-up, at most
/// one wake-up is pending for it: a wake-up that is pending stays pending,
/// and once the worker takes it none is left.
pub proof fn lemma_one_take_clears(s: SchedState, tasks: Seq<TaskDesc>, t: int, k: nat)
    requires
        0 <= t < s.pending.len(),
    ensures
        ticked_n(s, tasks, k).pending.len() == s.pending.len(),
        s.pending[t] ==> ticked_n(s, tasks, k).pending[t],
        !ticked_n(s, tasks, k).taken(t).pending[t],
        forall|other: int|
            0 <= other < s.pending.len() && other != t ==> ticked_n(s, tasks, k).taken(t).pending[other]
                == ticked_n(s, tasks, k).pending[other],
    decreases k,
{
    if k > 0 {
        lemma_one_take_clears(s, tasks, t, (k - 1) as nat);
    }
}

/// A tick on which a wake-up is still pending leaves it as it is: the new
/// signal is merged into the old one.
pub proof fn lemma_tick_merges(s: SchedState, tasks: Seq<TaskDesc>, t: int)
    requires
        0 <= t < s.pending.len(),
        s.pending[t],
    ensures
        s.ticked(tasks).pending[t] == s.pending[t],
        s.ticked(tasks).taken(t).pending[t] == s.taken(t).pending[t],
{
}

/// A scheduler starts once: the first start succeeds, and every start
/// after it is refused, however many ticks went by in between.
pub proof fn lemma_starts_once(s: SchedState, tasks: Seq<TaskDesc>, k: nat)
    requires
        !s.initialized,
    ensures
        s.start(tasks) == Ok::<SchedState, InitError>(s.started(tasks)),
        s.started(tasks).start(tasks) == Err::<SchedState, InitError>(
            InitError::AlreadyInitialized,
        ),
        ticked_n(s.started(tasks), tasks, k).start(tasks) == Err::<SchedState, InitError>(
            InitError::AlreadyInitialized,
        ),
    decreases k,
{
    if k > 0 {
        lemma_starts_once(s, tasks, (k - 1) as nat);
    }
}

} // verus!
