//! The benchmark comparator: for one scenario, aggregates the baseline
//! competitor's round and the new competitor's round — both against the same
//! resident opponent — and derives the win-count delta and the exact
//! mean-time delta between them.

use vstd::prelude::*;

use crate::round::RoundResult;
use crate::round::all_in_contract;
use crate::round::bucket;
use crate::round::lemma_seeds_with_len;
use crate::round::partitions_seeds;
use crate::round::run_round;
use crate::round::seed_complete;
use crate::round::seeds_with;
use crate::round::times_of;
use crate::trial::HarnessError;
use crate::trial::Outcome;
use crate::trial::TrialRecord;

verus! {

/// The change in mean elapsed time from the baseline round to the new
/// round, as the exact rational `numer / denom` in the driver's time unit.
#[derive(Clone, Copy, Debug, PartialEq, Eq, Structural)]
pub struct TimeDelta {
    pub numer: i128,
    pub denom: u32,
}

/// The comparison of one scenario: both aggregated rounds plus the derived
/// statistics.
#[derive(Clone, Debug, PartialEq, Eq)]
pub struct ComparisonReport {
    pub scenario: String,
    pub baseline: RoundResult,
    pub new: RoundResult,
    pub win_delta: i64,
    pub time_delta: TimeDelta,
}

/// The completed trials of one scenario: one round of records for the
/// baseline competitor and one for the new competitor, both run against
/// the scenario's resident opponent.
#[derive(Clone, Debug, PartialEq, Eq)]
pub struct ScenarioRun {
    pub scenario: String,
    pub baseline_records: Vec<TrialRecord>,
    pub new_records: Vec<TrialRecord>,
}

/// Both record sets of `run` cover the dense seed range of `rounds`.
pub open spec fn entry_complete(run: ScenarioRun, rounds: u32) -> bool {
    &&& seed_complete(run.baseline_records@, rounds)
    &&& seed_complete(run.new_records@, rounds)
}

/// Every trial of both record sets of `run` classifies within the engine
/// contract.
pub open spec fn entry_in_contract(run: ScenarioRun, max_ticks: u32) -> bool {
    &&& all_in_contract(run.baseline_records@, max_ticks)
    &&& all_in_contract(run.new_records@, max_ticks)
}

/// The sum of a time list.
pub open spec fn sum_times(times: Seq<u32>) -> int
    decreases times.len(),
{
    if times.len() == 0 {
        0
    } else {
        sum_times(times.drop_last()) + times.last()
    }
}

/// The win-count delta between two rounds of the same scenario: wins for
/// team 0 under the new competitor minus wins under the baseline.
pub open spec fn spec_win_delta(baseline: RoundResult, new: RoundResult) -> int {
    new.team0_wins@.len() - baseline.team0_wins@.len()
}

/// The numerator of the mean-time delta over a common round count:
/// `mean(new.times) - mean(baseline.times) == spec_time_delta_numer / rounds`
/// whenever both time lists have `rounds` entries.
pub open spec fn spec_time_delta_numer(baseline: RoundResult, new: RoundResult) -> int {
    sum_times(new.times@) - sum_times(baseline.times@)
}

/// The report `rep` is the faithful comparison of the completed scenario
/// `run`: both rounds are the classified aggregates of their records, each
/// partitions the seed range, and the statistics are exactly the derived
/// deltas.
pub open spec fn report_matches(
    rep: ComparisonReport,
    run: ScenarioRun,
    rounds: u32,
    max_ticks: u32,
) -> bool {
    &&& rep.scenario@ == run.scenario@
    &&& forall|o: Outcome| #[trigger]
        bucket(rep.baseline, o) == seeds_with(run.baseline_records@, max_ticks, o)
    &&& forall|o: Outcome| #[trigger]
        bucket(rep.new, o) == seeds_with(run.new_records@, max_ticks, o)
    &&& rep.baseline.times@ == times_of(run.baseline_records@)
    &&& rep.new.times@ == times_of(run.new_records@)
    &&& partitions_seeds(rep.baseline, rounds)
    &&& partitions_seeds(rep.new, rounds)
    &&& rep.baseline.times@.len() == rounds
    &&& rep.new.times@.len() == rounds
    &&& rep.win_delta == spec_win_delta(rep.baseline, rep.new)
    &&& rep.time_delta.numer == spec_time_delta_numer(rep.baseline, rep.new)
    &&& rep.time_delta.denom == rounds
}

/// Exactly the comparator's contract, as a predicate on one result for one
/// scenario entry: success is owed precisely when at least one round was
/// requested and every trial of both rounds is in contract, and a
/// successful report is the faithful comparison of the entry.
pub open spec fn comparison_outcome(
    result: Result<ComparisonReport, HarnessError>,
    run: ScenarioRun,
    rounds: u32,
    max_ticks: u32,
) -> bool {
    match result {
        Ok(rep) => {
            &&& rounds >= 1
            &&& entry_in_contract(run, max_ticks)
            &&& report_matches(rep, run, rounds, max_ticks)
        },
        Err(e) => {
            &&& (e == HarnessError::InvalidConfiguration <==> rounds == 0)
            &&& (e == HarnessError::InvariantViolation <==> rounds >= 1 && !entry_in_contract(
                run,
                max_ticks,
            ))
        },
    }
}

/// Swapping the baseline and the new round negates both derived deltas and
/// leaves their magnitudes identical; the comparison's content, not its
/// cost, depends on the order.
pub proof fn lemma_compare_swap_antisymmetric(a: RoundResult, b: RoundResult)
    ensures
        spec_win_delta(a, b) == -spec_win_delta(b, a),
        spec_time_delta_numer(a, b) == -spec_time_delta_numer(b, a),
{
}

/// For the same underlying trials, swapping which competitor is "baseline"
/// and which is "new" swaps the sign of the win delta and of the mean-time
/// delta and keeps their magnitudes and denominators identical.
pub proof fn lemma_swapped_reports_negate(
    forward: ComparisonReport,
    backward: ComparisonReport,
    forward_run: ScenarioRun,
    backward_run: ScenarioRun,
    rounds: u32,
    max_ticks: u32,
)
    requires
        report_matches(forward, forward_run, rounds, max_ticks),
        report_matches(backward, backward_run, rounds, max_ticks),
        forward_run.baseline_records@ == backward_run.new_records@,
        forward_run.new_records@ == backward_run.baseline_records@,
    ensures
        backward.win_delta == -forward.win_delta,
        backward.time_delta.numer == -forward.time_delta.numer,
        backward.time_delta.denom == forward.time_delta.denom,
{
    assert(bucket(forward.baseline, Outcome::WinTeam0) == seeds_with(
        forward_run.baseline_records@,
        max_ticks,
        Outcome::WinTeam0,
    ));
    assert(bucket(forward.new, Outcome::WinTeam0) == seeds_with(
        forward_run.new_records@,
        max_ticks,
        Outcome::WinTeam0,
    ));
    assert(bucket(backward.baseline, Outcome::WinTeam0) == seeds_with(
        backward_run.baseline_records@,
        max_ticks,
        Outcome::WinTeam0,
    ));
    assert(bucket(backward.new, Outcome::WinTeam0) == seeds_with(
        backward_run.new_records@,
        max_ticks,
        Outcome::WinTeam0,
    ));
    assert(forward.baseline.team0_wins@ == backward.new.team0_wins@);
    assert(forward.new.team0_wins@ == backward.baseline.team0_wins@);
    assert(forward.baseline.times@ == backward.new.times@);
    assert(forward.new.times@ == backward.baseline.times@);
}

/// Sums a round's elapsed times exactly; the bound on the list length
/// keeps the total well inside `u64`.
pub fn total_time(times: &Vec<u32>) -> (total: u64)
    requires
        times@.len() <= u32::MAX,
    ensures
        total == sum_times(times@),
{
    let mut total: u64 = 0;
    let mut i: usize = 0;
    while i < times.len()
        invariant
            i <= times@.len(),
            times@.len() <= u32::MAX,
            total == sum_times(times@.take(i as int)),
            total <= (i as int) * (u32::MAX as int),
        decreases times@.len() - i,
    {
        proof {
            assert(times@.take(i as int + 1).drop_last() =~= times@.take(i as int));
        }
        total = total + (times[i] as u64);
        i = i + 1;
    }
    proof {
        assert(times@.take(times@.len() as int) =~= times@);
    }
    total
}

/// Compares one scenario from its completed trials: aggregates the
/// baseline round, then the new round, and derives the win-count delta and
/// the exact mean-time delta. Fails with `InvalidConfiguration` when zero
/// rounds were requested and with `InvariantViolation` when either round
/// holds an out-of-contract trial; no partial report survives a failure.
pub fn compare_rounds(run: &ScenarioRun, rounds: u32, max_ticks: u32) -> (result: Result<
    ComparisonReport,
    HarnessError,
>)
    requires
        entry_complete(*run, rounds),
    ensures
        comparison_outcome(result, *run, rounds, max_ticks),
{
    let scenario = run.scenario.clone();
    let base = match run_round(&run.baseline_records, rounds, max_ticks) {
        Ok(r) => r,
        Err(e) => {
            return Err(e);
        },
    };
    let fresh = match run_round(&run.new_records, rounds, max_ticks) {
        Ok(r) => r,
        Err(e) => {
            return Err(e);
        },
    };
    proof {
        assert(bucket(base, Outcome::WinTeam0) == seeds_with(
            run.baseline_records@,
            max_ticks,
            Outcome::WinTeam0,
        ));
        assert(bucket(fresh, Outcome::WinTeam0) == seeds_with(
            run.new_records@,
            max_ticks,
            Outcome::WinTeam0,
        ));
        lemma_seeds_with_len(run.baseline_records@, max_ticks, Outcome::WinTeam0);
        lemma_seeds_with_len(run.new_records@, max_ticks, Outcome::WinTeam0);
    }
    let win_delta: i64 = (fresh.team0_wins.len() as i64) - (base.team0_wins.len() as i64);
    let base_total = total_time(&base.times);
    let fresh_total = total_time(&fresh.times);
    let time_delta = TimeDelta { numer: (fresh_total as i128) - (base_total as i128), denom: rounds };
    Ok(
        ComparisonReport {
            scenario,
            baseline: base,
            new: fresh,
            win_delta,
            time_delta,
        },
    )
}

} // verus!
