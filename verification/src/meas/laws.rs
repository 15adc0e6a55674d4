//! What holds of the measurement operations across calls.

use crate::meas::model::{
    runtime_of, wrap32, CpuStats, MeasState, TaskStats, RUNTIME_LIMIT_US, WINDOW_MAX_US,
    WINDOW_MIN_US,
};
use vstd::prelude::*;

verus! {

/// The sum of a sequence of runtimes.
pub open spec fn total(runs: Seq<nat>) -> nat
    decreases runs.len(),
{
    if runs.len() == 0 {
        0
    } else {
        total(runs.drop_last()) + runs.last()
    }
}

/// The record after the runs `runs`, in order, were recorded on top of `t`.
pub open spec fn recorded_all(t: TaskStats, runs: Seq<nat>) -> TaskStats
    decreases runs.len(),
{
    if runs.len() == 0 {
        t
    } else {
        recorded_all(t, runs.drop_last()).recorded(runs.last())
    }
}

/// The runtimes of a sequence of measurements, each a begin token and the
/// clock reading at its end.
pub open spec fn runtimes(spans: Seq<(int, nat)>) -> Seq<nat> {
    Seq::new(spans.len(), |i: int| runtime_of(spans[i].0, spans[i].1 as int))
}

/// The state after task `name` on CPU `core` ended the measurements `spans`,
/// in order.
pub open spec fn ended_all(s: MeasState, name: Seq<char>, core: int, spans: Seq<(int, nat)>) -> MeasState
    decreases spans.len(),
{
    if spans.len() == 0 {
        s
    } else {
        ended_all(s, name, core, spans.drop_last()).ended(
            name,
            core,
            spans.last().0,
            spans.last().1,
        )
    }
}

/// A record that started fresh holds, after any number of runs: their number
/// and their sum, each reduced to 32 bits; as minimum one of the runtimes
/// that none is below; as maximum one that none is above.
pub proof fn lemma_recorded_all(runs: Seq<nat>)
    requires
        forall|i: int| 0 <= i < runs.len() ==> #[trigger] runs[i] < RUNTIME_LIMIT_US,
    ensures
        recorded_all(TaskStats::fresh(), runs).count == wrap32(runs.len() as int),
        recorded_all(TaskStats::fresh(), runs).cum == wrap32(total(runs) as int),
        runs.len() <= u32::MAX ==> recorded_all(TaskStats::fresh(), runs).count == runs.len(),
        total(runs) <= u32::MAX ==> recorded_all(TaskStats::fresh(), runs).cum == total(runs),
        forall|i: int|
            0 <= i < runs.len() ==> recorded_all(TaskStats::fresh(), runs).min <= #[trigger] runs[i]
                <= recorded_all(TaskStats::fresh(), runs).max,
        runs.len() > 0 ==> exists|i: int|
            0 <= i < runs.len() && #[trigger] runs[i] == recorded_all(TaskStats::fresh(), runs).min,
        runs.len() > 0 ==> exists|i: int|
            0 <= i < runs.len() && #[trigger] runs[i] == recorded_all(TaskStats::fresh(), runs).max,
        runs.len() == 0 ==> recorded_all(TaskStats::fresh(), runs) == TaskStats::fresh(),
    decreases runs.len(),
{
    if runs.len() > 0 {
        let head = runs.drop_last();
        let last = runs.last();
        let before = recorded_all(TaskStats::fresh(), head);
        let after = recorded_all(TaskStats::fresh(), runs);
        lemma_recorded_all(head);
        assert(after == before.recorded(last));
        assert(after.count == wrap32(runs.len() as int)) by {
            assert(head.len() + 1 == runs.len());
            lemma_wrap32_step(head.len() as int, 1);
        }
        assert(after.cum == wrap32(total(runs) as int)) by {
            lemma_wrap32_step(total(head) as int, last as int);
        }
        assert forall|i: int| 0 <= i < runs.len() implies after.min <= #[trigger] runs[i]
            <= after.max by {
            if i < head.len() {
                assert(head[i] == runs[i]);
            }
        }
        if head.len() == 0 {
            assert(runs[0] == after.min);
            assert(runs[0] == after.max);
        } else {
            let lo = choose|i: int| 0 <= i < head.len() && #[trigger] head[i] == before.min;
            let hi = choose|i: int| 0 <= i < head.len() && #[trigger] head[i] == before.max;
            assert(runs[lo] == head[lo]);
            assert(runs[hi] == head[hi]);
            let last_at = runs.len() - 1;
            if after.min == before.min {
                assert(runs[lo] == after.min);
            } else {
                assert(runs[last_at] == after.min);
            }
            if after.max == before.max {
                assert(runs[hi] == after.max);
            } else {
                assert(runs[last_at] == after.max);
            }
        }
    }
}

proof fn lemma_wrap32_step(a: int, b: int)
    requires
        a >= 0,
        b >= 0,
    ensures
        wrap32(wrap32(a) + b) == wrap32(a + b),
{
    vstd::arithmetic::div_mod::lemma_add_mod_noop(a, b, 0x1_0000_0000);
    vstd::arithmetic::div_mod::lemma_add_mod_noop(a % 0x1_0000_0000, b, 0x1_0000_0000);
    vstd::arithmetic::div_mod::lemma_mod_twice(a, 0x1_0000_0000);
}

/// While measurements are taken: after the completed runs `spans` of a task
/// whose record was at its start, each within the limit, the task's record
/// holds their number, the sum of their runtimes, and the least and the
/// greatest of them. Number and sum are exact as long as they fit in 32 bits.
pub proof fn lemma_task_aggregates(s: MeasState, name: Seq<char>, core: int, spans: Seq<(int, nat)>)
    requires
        s.enabled,
        s.task(name) == TaskStats::fresh(),
        forall|i: int| 0 <= i < spans.len() ==> #[trigger] s.accepts(spans[i].0, spans[i].1),
    ensures
        ended_all(s, name, core, spans).enabled,
        ended_all(s, name, core, spans).task(name) == recorded_all(
            TaskStats::fresh(),
            runtimes(spans),
        ),
        spans.len() > 0 ==> ended_all(s, name, core, spans).tasks.contains_key(name),
        spans.len() <= u32::MAX ==> ended_all(s, name, core, spans).task(name).count
            == spans.len(),
        total(runtimes(spans)) <= u32::MAX ==> ended_all(s, name, core, spans).task(name).cum
            == total(runtimes(spans)),
        forall|i: int|
            0 <= i < spans.len() ==> ended_all(s, name, core, spans).task(name).min
                <= #[trigger] runtimes(spans)[i] <= ended_all(s, name, core, spans).task(name).max,
        spans.len() > 0 ==> exists|i: int|
            0 <= i < spans.len() && #[trigger] runtimes(spans)[i] == ended_all(
                s,
                name,
                core,
                spans,
            ).task(name).min,
        spans.len() > 0 ==> exists|i: int|
            0 <= i < spans.len() && #[trigger] runtimes(spans)[i] == ended_all(
                s,
                name,
                core,
                spans,
            ).task(name).max,
    decreases spans.len(),
{
    lemma_ended_all_records(s, name, core, spans);
    let runs = runtimes(spans);
    assert forall|i: int| 0 <= i < runs.len() implies #[trigger] runs[i] < RUNTIME_LIMIT_US by {
        assert(s.accepts(spans[i].0, spans[i].1));
    }
    lemma_recorded_all(runs);
}

proof fn lemma_ended_all_records(s: MeasState, name: Seq<char>, core: int, spans: Seq<(int, nat)>)
    requires
        s.enabled,
        s.task(name) == TaskStats::fresh(),
        forall|i: int| 0 <= i < spans.len() ==> #[trigger] s.accepts(spans[i].0, spans[i].1),
    ensures
        ended_all(s, name, core, spans).enabled,
        ended_all(s, name, core, spans).task(name) == recorded_all(
            TaskStats::fresh(),
            runtimes(spans),
        ),
        spans.len() > 0 ==> ended_all(s, name, core, spans).tasks.contains_key(name),
    decreases spans.len(),
{
    if spans.len() > 0 {
        let head = spans.drop_last();
        assert forall|i: int| 0 <= i < head.len() implies #[trigger] s.accepts(
            head[i].0,
            head[i].1,
        ) by {
            assert(head[i] == spans[i]);
            assert(s.accepts(spans[i].0, spans[i].1));
        }
        lemma_ended_all_records(s, name, core, head);
        let mid = ended_all(s, name, core, head);
        let last_at = spans.len() - 1;
        assert(s.accepts(spans[last_at].0, spans[last_at].1));
        assert(mid.accepts(spans.last().0, spans.last().1));
        assert(runtimes(spans).drop_last() =~= runtimes(head));
        assert(runtimes(spans).last() == runtime_of(spans.last().0, spans.last().1 as int));
    }
}

/// A task report empties the count and the sum of the task's record and
/// leaves its minimum and maximum, and every other record, as they were.
pub proof fn lemma_task_report_drains(s: MeasState, name: Seq<char>)
    requires
        s.enabled,
        s.tasks.contains_key(name),
    ensures
        s.task_reported(name).task(name).count == 0,
        s.task_reported(name).task(name).cum == 0,
        s.task_reported(name).task(name).min == s.task(name).min,
        s.task_reported(name).task(name).max == s.task(name).max,
        forall|other: Seq<char>| other != name ==> s.task_reported(name).task(other) == s.task(other),
        s.task_reported(name).cpus == s.cpus,
{
}

/// Switching off twice is the same as switching off once.
pub proof fn lemma_switch_off_idempotent(s: MeasState)
    ensures
        s.switched(false).switched(false) == s.switched(false),
{
}

/// Switching on while on keeps every counter: only the step from off to on
/// sets them back.
pub proof fn lemma_switch_on_keeps_counters(s: MeasState)
    ensures
        s.enabled ==> s.switched(true) == s,
        s.switched(true).switched(true) == s.switched(true),
        !s.enabled ==> s.switched(true).cpus == s.cleared().cpus && s.switched(true).tasks
            == s.cleared().tasks,
{
}

/// Switching on from off leaves every CPU and every task at its start.
pub proof fn lemma_switch_on_clears(s: MeasState, name: Seq<char>, cpu: int)
    requires
        !s.enabled,
        0 <= cpu < s.cpus.len(),
    ensures
        s.switched(true).enabled,
        !s.switched(true).initialized,
        s.switched(true).cpus[cpu] == CpuStats::fresh(),
        s.switched(true).task(name) == TaskStats::fresh(),
        s.switched(true).tasks.dom() == s.tasks.dom(),
{
    assert(s.switched(true).tasks.dom() =~= s.tasks.dom());
}

/// A CPU report asked for less than a tenth of a second into the window
/// changes nothing and prints nothing.
pub proof fn lemma_short_window_is_noop(s: MeasState, now: nat)
    requires
        s.initialized,
        now - s.print_stamp < WINDOW_MIN_US,
    ensures
        s.cpus_reported(now) == s,
        s.cpu_lines(now) == Seq::<Seq<char>>::empty(),
{
}

/// A CPU report asked for ten seconds or more into the window starts the
/// window over at `now`, prints nothing and keeps every counter.
pub proof fn lemma_long_window_restarts(s: MeasState, now: nat)
    requires
        s.enabled,
        s.initialized,
        now - s.print_stamp >= WINDOW_MAX_US,
    ensures
        s.cpus_reported(now) == (MeasState { print_stamp: now as int, ..s }),
        s.cpu_lines(now) == Seq::<Seq<char>>::empty(),
{
}

/// The first CPU report after switching on starts the window at `now` and
/// prints nothing.
pub proof fn lemma_first_report_seeds(s: MeasState, now: nat)
    requires
        s.enabled,
        !s.initialized,
    ensures
        s.cpus_reported(now) == (MeasState { initialized: true, print_stamp: now as int, ..s }),
        s.cpu_lines(now) == Seq::<Seq<char>>::empty(),
{
}

/// A 32-bit clock that wraps between the begin and the end of a measurement
/// still gives the time that passed, for any time below 2^32 microseconds.
pub proof fn lemma_runtime_across_wrap(start: u32, passed: nat)
    requires
        passed < 0x1_0000_0000,
    ensures
        runtime_of(start as int, wrap32(start + passed) as int) == passed,
{
}

/// While measurements are not taken, a begin gives -1 and an end changes
/// nothing.
pub proof fn lemma_switched_off_measures_nothing(
    s: MeasState,
    name: Seq<char>,
    core: int,
    begin: int,
    now: nat,
)
    requires
        !s.enabled,
    ensures
        s.begin_token(now) == -1,
        s.ended(name, core, begin, now) == s,
        s.ended(name, core, s.begin_token(now), now) == s,
{
}

/// An end with the token -1 changes nothing, whatever the switch says by then.
pub proof fn lemma_negative_token_measures_nothing(
    s: MeasState,
    name: Seq<char>,
    core: int,
    begin: int,
    now: nat,
)
    requires
        begin < 0,
    ensures
        s.ended(name, core, begin, now) == s,
{
}

} // verus!
