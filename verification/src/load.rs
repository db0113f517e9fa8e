//! The load score of a peer and the counters behind it.
//!
//! A load score is a fixed-point number: thousandths of a percent, from 0
//! (idle) to 100 000 (saturated). Its inputs are hundredths of a percent, so the
//! weighted sum `0.5 * cpu + 0.3 * task pressure + 0.2 * memory in use` is exact
//! in integers. A lower score is a better candidate, for election and for
//! dispatch alike.

use vstd::prelude::*;

verus! {

/// A load score in thousandths of a percent.
pub type LoadScore = u32;

/// 100 %, in hundredths of a percent: the largest input of the formula.
pub const FULL_SCALE: u32 = 10_000;

/// The largest load score.
pub const MAX_LOAD: u32 = 100_000;

/// The number of active tasks that counts as full task pressure.
pub const TASK_SATURATION: u64 = 10;

/// `x`, cut off at 100 %.
pub open spec fn spec_clamp(x: int) -> int {
    if x > 10_000 {
        10_000
    } else {
        x
    }
}

/// Task pressure in hundredths of a percent: ten active tasks or more are 100 %.
pub open spec fn spec_task_pressure(active_tasks: int) -> int {
    if active_tasks >= 10 {
        10_000
    } else {
        active_tasks * 1_000
    }
}

/// The load formula over the integers.
pub open spec fn spec_load_score(cpu: int, active_tasks: int, mem_available: int) -> int {
    5 * spec_clamp(cpu) + 3 * spec_task_pressure(active_tasks) + 2 * (10_000 - spec_clamp(mem_available))
}

/// Available memory as a share of the total, in hundredths of a percent; a
/// machine that reports no memory at all counts as fully available.
pub open spec fn spec_available_share(total: int, available: int) -> int {
    if total == 0 {
        10_000
    } else {
        spec_clamp(available * 10_000 / total)
    }
}

/// Whether candidate `a` is strictly better than candidate `b`: a lower load
/// wins, and between equal loads the lower peer id.
pub open spec fn spec_outranks(load_a: LoadScore, id_a: u32, load_b: LoadScore, id_b: u32) -> bool {
    load_a < load_b || (load_a == load_b && id_a < id_b)
}

/// Task pressure of `active_tasks` running tasks.
pub fn task_pressure(active_tasks: u64) -> (pressure: u32)
    ensures
        pressure == spec_task_pressure(active_tasks as int),
        pressure <= FULL_SCALE,
{
    if active_tasks >= TASK_SATURATION {
        FULL_SCALE
    } else {
        (active_tasks as u32) * 1_000
    }
}

/// The load score for a CPU usage and an available-memory share, both in
/// hundredths of a percent and cut off at 100 %, and a number of active tasks.
pub fn load_score(cpu: u32, active_tasks: u64, mem_available: u32) -> (load: LoadScore)
    ensures
        load == spec_load_score(cpu as int, active_tasks as int, mem_available as int),
        load <= MAX_LOAD,
{
    let cpu_part: u32 = if cpu > FULL_SCALE {
        FULL_SCALE
    } else {
        cpu
    };
    let mem_part: u32 = if mem_available > FULL_SCALE {
        FULL_SCALE
    } else {
        mem_available
    };
    5 * cpu_part + 3 * task_pressure(active_tasks) + 2 * (FULL_SCALE - mem_part)
}

/// The share of memory that is available, from the two byte counts a machine reports.
pub fn available_share(total: u64, available: u64) -> (share: u32)
    ensures
        share == spec_available_share(total as int, available as int),
        share <= FULL_SCALE,
{
    if total == 0 {
        return FULL_SCALE;
    }
    let scaled: u128 = (available as u128) * 10_000u128 / (total as u128);
    if scaled > 10_000u128 {
        FULL_SCALE
    } else {
        scaled as u32
    }
}

/// Whether the candidate `(load_a, id_a)` is strictly better than `(load_b, id_b)`.
pub fn outranks(load_a: LoadScore, id_a: u32, load_b: LoadScore, id_b: u32) -> (better: bool)
    ensures
        better == spec_outranks(load_a, id_a, load_b, id_b),
{
    load_a < load_b || (load_a == load_b && id_a < id_b)
}

/// The task counters of one peer. The counters wrap, as the machine words they are kept in do.
#[derive(Clone, Copy, Debug, PartialEq, Eq, Structural)]
pub struct ServerMetrics {
    active_tasks: u64,
    total_tasks: u64,
}

impl ServerMetrics {
    /// The number of tasks that are running now.
    pub closed spec fn active(&self) -> u64 {
        self.active_tasks
    }

    /// The number of tasks that were ever started.
    pub closed spec fn total(&self) -> u64 {
        self.total_tasks
    }

    /// Counters at zero.
    pub fn new() -> (metrics: Self)
        ensures
            metrics.active() == 0,
            metrics.total() == 0,
    {
        ServerMetrics { active_tasks: 0, total_tasks: 0 }
    }

    pub fn get_active_tasks(&self) -> (n: u64)
        ensures
            n == self.active(),
    {
        self.active_tasks
    }

    pub fn get_total_tasks(&self) -> (n: u64)
        ensures
            n == self.total(),
    {
        self.total_tasks
    }

    /// A task starts: both counters go up by one.
    pub fn task_started(&mut self)
        ensures
            final(self).active() == (if old(self).active() == u64::MAX {
                0
            } else {
                old(self).active() + 1
            }),
            final(self).total() == (if old(self).total() == u64::MAX {
                0
            } else {
                old(self).total() + 1
            }),
    {
        self.active_tasks = if self.active_tasks == u64::MAX {
            0
        } else {
            self.active_tasks + 1
        };
        self.total_tasks = if self.total_tasks == u64::MAX {
            0
        } else {
            self.total_tasks + 1
        };
    }

    /// A task ends, whatever its outcome: the active counter goes down by one.
    pub fn task_finished(&mut self)
        ensures
            final(self).active() == (if old(self).active() == 0 {
                u64::MAX
            } else {
                (old(self).active() - 1) as u64
            }),
            final(self).total() == old(self).total(),
    {
        self.active_tasks = if self.active_tasks == 0 {
            u64::MAX
        } else {
            self.active_tasks - 1
        };
    }

    /// The election priority of this peer for the given CPU usage and
    /// available-memory share: its load score. Lower is better.
    pub fn calculate_priority(&self, cpu: u32, mem_available: u32) -> (priority: LoadScore)
        ensures
            priority == spec_load_score(cpu as int, self.active() as int, mem_available as int),
            priority <= MAX_LOAD,
    {
        load_score(cpu, self.active_tasks, mem_available)
    }

    /// The load of this peer: the same number as its priority.
    pub fn get_load(&self, cpu: u32, mem_available: u32) -> (load: LoadScore)
        ensures
            load == spec_load_score(cpu as int, self.active() as int, mem_available as int),
            load <= MAX_LOAD,
    {
        self.calculate_priority(cpu, mem_available)
    }
}

/// A load score lies between 0 and the largest score, whatever the inputs.
pub proof fn lemma_load_is_bounded(cpu: nat, active_tasks: nat, mem_available: nat)
    ensures
        0 <= spec_load_score(cpu as int, active_tasks as int, mem_available as int) <= MAX_LOAD,
{
}

/// More work never lowers the load: with no less CPU in use, no fewer
/// active tasks and no more memory available, the score is no lower. This is
/// what turns a server with many tasks into a less likely assignee.
pub proof fn lemma_load_is_monotone(cpu: nat, tasks: nat, mem: nat, more_cpu: nat, more_tasks: nat, less_mem: nat)
    requires
        cpu <= more_cpu,
        tasks <= more_tasks,
        less_mem <= mem,
    ensures
        spec_load_score(cpu as int, tasks as int, mem as int) <= spec_load_score(
            more_cpu as int,
            more_tasks as int,
            less_mem as int,
        ),
{
}

/// One more active task raises the load of a server that is not saturated with tasks.
pub proof fn lemma_task_raises_load(cpu: nat, tasks: nat, mem: nat)
    requires
        tasks < TASK_SATURATION,
    ensures
        spec_load_score(cpu as int, tasks as int, mem as int) < spec_load_score(
            cpu as int,
            tasks as int + 1,
            mem as int,
        ),
{
}

} // verus!
