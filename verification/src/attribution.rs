//! Shares of a measured quantity: how much of the machine's processor time and
//! of the tracked memory belongs to one process, and how an energy delta is
//! divided by such a share.
//!
//! Shares are exact fractions of integers. Energy is counted in microjoules
//! and a divided amount is rounded down to a whole microjoule.

use vstd::prelude::*;

verus! {

/// What the host reported about one running process at one tick.
#[derive(Clone, Copy, Debug, PartialEq, Eq, Structural)]
pub struct ProcessSample {
    /// The process identifier.
    pub pid: u32,
    /// Processor usage in thousandths of a percent of one core; one busy core is 100000.
    pub cpu_usage: u32,
    /// Resident memory in bytes.
    pub memory: u64,
}

/// What the host reported about itself and its processes at one tick.
#[derive(Debug)]
pub struct ProcessStats {
    /// Processor usage of the whole machine, in thousandths of a percent of its full capacity.
    pub system_cpu: u32,
    /// The number of logical cores that the host reported.
    pub cpu_count: usize,
    /// Installed memory in bytes.
    pub total_memory: u64,
    /// One entry per process that the host knows of.
    pub processes: Vec<ProcessSample>,
}

/// A share, as the fraction `num / den`. A zero denominator stands for no share at all.
#[derive(Clone, Copy, Debug, PartialEq, Eq, Structural)]
pub struct Ratio {
    /// The numerator.
    pub num: u64,
    /// The denominator.
    pub den: u128,
}

/// One hundred percent, in thousandths of a percent.
pub const FULL_SCALE: u64 = 100_000;

/// The share that is nothing.
pub open spec fn zero_ratio() -> Ratio {
    Ratio { num: 0, den: 1 }
}

/// The sample of process `pid`: the first one listed under that identifier.
pub open spec fn sample_of(processes: Seq<ProcessSample>, pid: u32) -> Option<ProcessSample>
    decreases processes.len(),
{
    if processes.len() == 0 {
        None
    } else if processes[0].pid == pid {
        Some(processes[0])
    } else {
        sample_of(processes.drop_first(), pid)
    }
}

/// Processor usage of process `pid`; zero for a process that the host does not know.
pub open spec fn cpu_of(processes: Seq<ProcessSample>, pid: u32) -> u32 {
    match sample_of(processes, pid) {
        Some(p) => p.cpu_usage,
        None => 0,
    }
}

/// Resident memory of process `pid`; zero for a process that the host does not know.
pub open spec fn memory_of(processes: Seq<ProcessSample>, pid: u32) -> u64 {
    match sample_of(processes, pid) {
        Some(p) => p.memory,
        None => 0,
    }
}

/// The number of cores that usage is divided by: at least one.
pub open spec fn effective_cores(cpu_count: usize) -> int {
    if cpu_count == 0 {
        1
    } else {
        cpu_count as int
    }
}

/// The processor capacity in use on the whole machine, in the unit of one
/// process's usage: cores times machine usage.
pub open spec fn cpu_capacity(stats: ProcessStats) -> int {
    effective_cores(stats.cpu_count) * stats.system_cpu
}

/// The processor share of process `pid`: its usage per core, relative to the
/// usage of the whole machine. Nothing where the machine reports no usage.
pub open spec fn cpu_ratio(stats: ProcessStats, pid: u32) -> Ratio {
    if stats.system_cpu > 0 {
        Ratio { num: cpu_of(stats.processes@, pid) as u64, den: cpu_capacity(stats) as u128 }
    } else {
        zero_ratio()
    }
}

/// The memory of all the processes in `pids` together, each counted as often as it is listed.
pub open spec fn tracked_memory(processes: Seq<ProcessSample>, pids: Seq<u32>) -> int
    decreases pids.len(),
{
    if pids.len() == 0 {
        0
    } else {
        tracked_memory(processes, pids.drop_last()) + memory_of(processes, pids.last())
    }
}

/// The processor usage of all the processes in `pids` together, each counted as
/// often as it is listed.
pub open spec fn tracked_cpu(processes: Seq<ProcessSample>, pids: Seq<u32>) -> int
    decreases pids.len(),
{
    if pids.len() == 0 {
        0
    } else {
        tracked_cpu(processes, pids.drop_last()) + cpu_of(processes, pids.last())
    }
}

/// The memory share of process `pid` among the tracked processes `pids`.
/// Nothing where the host reports no installed memory or the tracked
/// processes hold none.
pub open spec fn memory_ratio(stats: ProcessStats, pids: Seq<u32>, pid: u32) -> Ratio {
    if stats.total_memory > 0 && tracked_memory(stats.processes@, pids) > 0 {
        Ratio {
            num: memory_of(stats.processes@, pid),
            den: tracked_memory(stats.processes@, pids) as u128,
        }
    } else {
        zero_ratio()
    }
}

/// `amount` times the share `ratio`, rounded down, and no more than a `u64` holds.
pub open spec fn scaled(amount: u64, ratio: Ratio) -> u64 {
    if ratio.den == 0 {
        0
    } else if amount * ratio.num / (ratio.den as int) > u64::MAX {
        u64::MAX
    } else {
        (amount * ratio.num / (ratio.den as int)) as u64
    }
}

/// `amount` divided evenly among `count` receivers, rounded down.
pub open spec fn equal_share(amount: u64, count: nat) -> u64 {
    if count == 0 {
        0
    } else {
        (amount as int / count as int) as u64
    }
}

/// The share `ratio` as a percentage, in thousandths of a percent.
pub open spec fn percentage(ratio: Ratio) -> u64 {
    scaled(FULL_SCALE, ratio)
}

/// The shares of `amount` that the listed processes get by their processor
/// share, added up.
pub open spec fn cpu_shares_total(stats: ProcessStats, pids: Seq<u32>, amount: u64) -> int
    decreases pids.len(),
{
    if pids.len() == 0 {
        0
    } else {
        cpu_shares_total(stats, pids.drop_last(), amount) + scaled(
            amount,
            cpu_ratio(stats, pids.last()),
        )
    }
}

/// The shares of `amount` that the listed processes get by their memory share
/// among `all`, added up.
pub open spec fn memory_shares_total(
    stats: ProcessStats,
    all: Seq<u32>,
    pids: Seq<u32>,
    amount: u64,
) -> int
    decreases pids.len(),
{
    if pids.len() == 0 {
        0
    } else {
        memory_shares_total(stats, all, pids.drop_last(), amount) + scaled(
            amount,
            memory_ratio(stats, all, pids.last()),
        )
    }
}

/// Looks up the sample of process `pid`.
pub fn find_sample(processes: &Vec<ProcessSample>, pid: u32) -> (found: Option<ProcessSample>)
    ensures
        found == sample_of(processes@, pid),
{
    let n = processes.len();
    let mut i: usize = 0;
    assert(processes@.subrange(0, n as int) =~= processes@);
    while i < n
        invariant
            i <= n == processes.len(),
            sample_of(processes@, pid) == sample_of(processes@.subrange(i as int, n as int), pid),
        decreases n - i,
    {
        if processes[i].pid == pid {
            return Some(processes[i]);
        }
        assert(processes@.subrange(i as int, n as int).drop_first() =~= processes@.subrange(
            i + 1,
            n as int,
        ));
        i += 1;
    }
    None
}

/// `amount` times the share `ratio`, rounded down.
pub fn scale(amount: u64, ratio: Ratio) -> (part: u64)
    ensures
        part == scaled(amount, ratio),
{
    if ratio.den == 0 {
        return 0;
    }
    assert(amount * ratio.num <= 0xffff_ffff_ffff_ffff * 0xffff_ffff_ffff_ffff) by (nonlinear_arith)
        requires
            0 <= amount <= 0xffff_ffff_ffff_ffff,
            0 <= ratio.num <= 0xffff_ffff_ffff_ffff,
    ;
    let product: u128 = (amount as u128) * (ratio.num as u128);
    let quotient: u128 = product / ratio.den;
    if quotient > u64::MAX as u128 {
        u64::MAX
    } else {
        quotient as u64
    }
}

/// `amount` divided evenly among `count` receivers.
pub fn share_equally(amount: u64, count: usize) -> (part: u64)
    ensures
        part == equal_share(amount, count as nat),
{
    if count == 0 {
        0
    } else {
        let part: u64 = amount / (count as u64);
        part
    }
}

/// A share of a non-negative amount, times the denominator, is no more than
/// the amount times the numerator.
proof fn lemma_scaled_bound(amount: u64, ratio: Ratio)
    requires
        ratio.den > 0,
    ensures
        scaled(amount, ratio) * ratio.den <= amount * ratio.num,
{
    let x = amount * ratio.num;
    let d = ratio.den as int;
    assert(x >= 0) by (nonlinear_arith)
        requires
            x == amount * ratio.num,
            amount >= 0,
            ratio.num >= 0,
    ;
    assert((x / d) * d <= x && x / d >= 0) by (nonlinear_arith)
        requires
            x >= 0,
            d > 0,
    ;
    if x / d > u64::MAX {
        assert(u64::MAX * d <= (x / d) * d) by (nonlinear_arith)
            requires
                x / d > u64::MAX,
                d > 0,
        ;
    }
}

/// The processor shares of the listed processes, times the capacity in use,
/// are together no more than the amount times their usage.
proof fn lemma_cpu_shares_scaled(stats: ProcessStats, pids: Seq<u32>, amount: u64)
    requires
        stats.system_cpu > 0,
    ensures
        0 <= cpu_shares_total(stats, pids, amount),
        cpu_shares_total(stats, pids, amount) * cpu_capacity(stats) <= amount * tracked_cpu(
            stats.processes@,
            pids,
        ),
    decreases pids.len(),
{
    let cap = cpu_capacity(stats);
    lemma_capacity_fits(stats);
    if pids.len() > 0 {
        let rest = pids.drop_last();
        lemma_cpu_shares_scaled(stats, rest, amount);
        let r = cpu_ratio(stats, pids.last());
        lemma_scaled_bound(amount, r);
        let a = cpu_shares_total(stats, rest, amount);
        let b = scaled(amount, r) as int;
        let ta = tracked_cpu(stats.processes@, rest);
        let tb = cpu_of(stats.processes@, pids.last()) as int;
        assert((a + b) * cap <= amount * (ta + tb)) by (nonlinear_arith)
            requires
                a * cap <= amount * ta,
                b * cap <= amount * tb,
        ;
    } else {
        assert(0 * cap <= amount * 0) by (nonlinear_arith);
    }
}

/// The capacity in use is positive and fits the denominator of a share
/// whenever the machine reports usage.
proof fn lemma_capacity_fits(stats: ProcessStats)
    requires
        stats.system_cpu > 0,
    ensures
        0 < cpu_capacity(stats) <= u128::MAX,
        cpu_capacity(stats) as u128 == cpu_capacity(stats),
{
    let c = effective_cores(stats.cpu_count);
    let s = stats.system_cpu as int;
    assert(0 < c * s <= 0xffff_ffff_ffff_ffff * 0xffff_ffff) by (nonlinear_arith)
        requires
            1 <= c <= 0xffff_ffff_ffff_ffff,
            1 <= s <= 0xffff_ffff,
    ;
}

/// The memory shares of the listed processes, times the tracked memory, are
/// together no more than the amount times their memory.
proof fn lemma_memory_shares_scaled(
    stats: ProcessStats,
    all: Seq<u32>,
    pids: Seq<u32>,
    amount: u64,
)
    requires
        stats.total_memory > 0,
        0 < tracked_memory(stats.processes@, all) <= u128::MAX,
    ensures
        0 <= memory_shares_total(stats, all, pids, amount),
        memory_shares_total(stats, all, pids, amount) * tracked_memory(stats.processes@, all)
            <= amount * tracked_memory(stats.processes@, pids),
    decreases pids.len(),
{
    let total = tracked_memory(stats.processes@, all);
    if pids.len() > 0 {
        let rest = pids.drop_last();
        lemma_memory_shares_scaled(stats, all, rest, amount);
        let r = memory_ratio(stats, all, pids.last());
        lemma_scaled_bound(amount, r);
        let a = memory_shares_total(stats, all, rest, amount);
        let b = scaled(amount, r) as int;
        let ta = tracked_memory(stats.processes@, rest);
        let tb = memory_of(stats.processes@, pids.last()) as int;
        assert((a + b) * total <= amount * (ta + tb)) by (nonlinear_arith)
            requires
                a * total <= amount * ta,
                b * total <= amount * tb,
        ;
    } else {
        assert(0 * total <= amount * 0) by (nonlinear_arith);
    }
}

/// The tracked memory of up to `usize::MAX` processes fits a `u128`.
pub proof fn lemma_tracked_memory_bound(processes: Seq<ProcessSample>, pids: Seq<u32>)
    ensures
        0 <= tracked_memory(processes, pids) <= pids.len() * u64::MAX,
    decreases pids.len(),
{
    if pids.len() > 0 {
        lemma_tracked_memory_bound(processes, pids.drop_last());
        assert((pids.len() - 1) * u64::MAX + u64::MAX == pids.len() * u64::MAX)
            by (nonlinear_arith);
    } else {
        assert(0 * u64::MAX == 0) by (nonlinear_arith);
    }
}

/// Where the machine reports no processor usage, every processor share is
/// nothing, and so is every amount divided by it.
pub proof fn lemma_idle_machine_gives_no_share(stats: ProcessStats, pid: u32, amount: u64)
    requires
        stats.system_cpu == 0,
    ensures
        cpu_ratio(stats, pid).num == 0,
        scaled(amount, cpu_ratio(stats, pid)) == 0,
        percentage(cpu_ratio(stats, pid)) == 0,
{
    assert(amount * 0 / 1 == 0) by (nonlinear_arith);
    assert(FULL_SCALE * 0 / 1 == 0) by (nonlinear_arith);
}

/// The usage of the listed processes together is never negative.
proof fn lemma_tracked_cpu_nonnegative(processes: Seq<ProcessSample>, pids: Seq<u32>)
    ensures
        0 <= tracked_cpu(processes, pids),
    decreases pids.len(),
{
    if pids.len() > 0 {
        lemma_tracked_cpu_nonnegative(processes, pids.drop_last());
    }
}

/// The usage of the listed processes together is at least that of each of them.
proof fn lemma_tracked_cpu_covers(processes: Seq<ProcessSample>, pids: Seq<u32>, i: int)
    requires
        0 <= i < pids.len(),
    ensures
        cpu_of(processes, pids[i]) <= tracked_cpu(processes, pids),
    decreases pids.len(),
{
    let rest = pids.drop_last();
    lemma_tracked_cpu_nonnegative(processes, rest);
    if i < rest.len() {
        lemma_tracked_cpu_covers(processes, rest, i);
        assert(rest[i] == pids[i]);
    } else {
        assert(pids.last() == pids[i]);
    }
}

/// Where the tracked processes together use no more processor time than the
/// machine reports in use, their processor shares add up to at most the whole:
/// no share is more than one, the numerators of the shares are together no
/// more than their common denominator, the parts of any amount divided by
/// them are together no more than the amount, and their percentages are
/// together no more than one hundred percent.
pub proof fn lemma_cpu_shares_bounded(stats: ProcessStats, pids: Seq<u32>, amount: u64)
    requires
        stats.system_cpu > 0,
        tracked_cpu(stats.processes@, pids) <= cpu_capacity(stats),
    ensures
        forall|i: int|
            0 <= i < pids.len() ==> (#[trigger] cpu_ratio(stats, pids[i])).num <= cpu_ratio(
                stats,
                pids[i],
            ).den,
        forall|i: int|
            0 <= i < pids.len() ==> (#[trigger] cpu_ratio(stats, pids[i])).den == cpu_capacity(
                stats,
            ),
        cpu_shares_total(stats, pids, amount) <= amount,
        cpu_shares_total(stats, pids, FULL_SCALE) <= FULL_SCALE,
{
    lemma_capacity_fits(stats);
    assert forall|i: int| 0 <= i < pids.len() implies (#[trigger] cpu_ratio(stats, pids[i])).num
        <= cpu_ratio(stats, pids[i]).den by {
        lemma_tracked_cpu_covers(stats.processes@, pids, i);
    }
    let cap = cpu_capacity(stats);
    let used = tracked_cpu(stats.processes@, pids);
    lemma_cpu_shares_scaled(stats, pids, amount);
    lemma_cpu_shares_scaled(stats, pids, FULL_SCALE);
    let t = cpu_shares_total(stats, pids, amount);
    assert(t <= amount) by (nonlinear_arith)
        requires
            t * cap <= amount * used,
            0 <= used <= cap,
            0 < cap,
            0 <= t,
            0 <= amount,
    ;
    let f = cpu_shares_total(stats, pids, FULL_SCALE);
    assert(f <= FULL_SCALE) by (nonlinear_arith)
        requires
            f * cap <= FULL_SCALE * used,
            0 <= used <= cap,
            0 < cap,
            0 <= f,
            0 <= FULL_SCALE,
    ;
}

/// The memory shares of the tracked processes add up to at most the whole: the
/// parts of any amount divided by them are together no more than the amount.
pub proof fn lemma_memory_shares_bounded(stats: ProcessStats, pids: Seq<u32>, amount: u64)
    requires
        pids.len() <= usize::MAX,
    ensures
        memory_shares_total(stats, pids, pids, amount) <= amount,
{
    let total = tracked_memory(stats.processes@, pids);
    lemma_tracked_memory_bound(stats.processes@, pids);
    assert(pids.len() * u64::MAX <= u128::MAX) by (nonlinear_arith)
        requires
            pids.len() <= 0xffff_ffff_ffff_ffff,
    ;
    if stats.total_memory > 0 && total > 0 {
        lemma_memory_shares_scaled(stats, pids, pids, amount);
        let t = memory_shares_total(stats, pids, pids, amount);
        assert(t <= amount) by (nonlinear_arith)
            requires
                t * total <= amount * total,
                0 < total,
        ;
    } else {
        lemma_no_memory_gives_no_share(stats, pids, pids, amount);
    }
}

/// Where the host reports no installed memory, or the tracked processes hold
/// none, every part divided by memory share is nothing.
proof fn lemma_no_memory_gives_no_share(
    stats: ProcessStats,
    all: Seq<u32>,
    pids: Seq<u32>,
    amount: u64,
)
    requires
        !(stats.total_memory > 0 && tracked_memory(stats.processes@, all) > 0),
    ensures
        memory_shares_total(stats, all, pids, amount) == 0,
    decreases pids.len(),
{
    if pids.len() > 0 {
        lemma_no_memory_gives_no_share(stats, all, pids.drop_last(), amount);
        assert(amount * 0 / 1 == 0) by (nonlinear_arith);
    }
}

} // verus!
