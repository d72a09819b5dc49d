//! The matrix scheduler's fold: reduces the completed (scenario ×
//! competitor) execution matrix to one comparison report per scenario,
//! aborting the whole run on the first fatal error rather than returning a
//! partial table, and counting completed scenarios monotonically.

use vstd::prelude::*;

use rayon::iter::IntoParallelRefIterator;
use rayon::iter::ParallelIterator;

use crate::compare::ComparisonReport;
use crate::compare::ScenarioRun;
use crate::compare::compare_rounds;
use crate::compare::comparison_outcome;
use crate::compare::entry_complete;
use crate::compare::entry_in_contract;
use crate::compare::report_matches;
use crate::trial::HarnessError;

verus! {

/// The one intentionally shared mutable resource of a matrix run: a
/// monotonically increasing count of completed scenarios. Each completion
/// is recorded exactly once, the count never passes the number dispatched,
/// and the run is done exactly when they are equal.
#[derive(Clone, Copy, Debug, PartialEq, Eq, Structural)]
pub struct ProgressCounter {
    pub completed: usize,
    pub total: usize,
}

impl ProgressCounter {
    /// A fresh counter for `total` dispatched scenarios.
    pub fn new(total: usize) -> (c: ProgressCounter)
        ensures
            c.completed == 0,
            c.total == total,
    {
        ProgressCounter { completed: 0, total }
    }

    /// Records one completion: the observed count increases by exactly
    /// one and stays within the number dispatched.
    pub fn record(&mut self)
        requires
            old(self).completed < old(self).total,
        ensures
            final(self).completed == old(self).completed + 1,
            final(self).total == old(self).total,
    {
        self.completed = self.completed + 1;
    }

    /// Whether every dispatched scenario has been observed to complete.
    pub fn is_done(&self) -> (done: bool)
        ensures
            done <==> self.completed == self.total,
    {
        self.completed == self.total
    }
}

/// Relies on rayon's `par_iter().map().collect()`: runs the verified
/// comparator once for every scenario entry, distributed across the worker
/// pool; collecting an indexed parallel iterator preserves the entries'
/// order, so slot `k` holds the comparator's result for entry `k`.
#[verifier::external_body]
fn compare_entries_parallel(entries: &Vec<ScenarioRun>, rounds: u32, max_ticks: u32) -> (results:
    Vec<Result<ComparisonReport, HarnessError>>)
    requires
        forall|k: int| 0 <= k < entries@.len() ==> #[trigger] entry_complete(entries@[k], rounds),
    ensures
        results@.len() == entries@.len(),
        forall|k: int|
            0 <= k < entries@.len() ==> #[trigger] comparison_outcome(
                results@[k],
                entries@[k],
                rounds,
                max_ticks,
            ),
{
    entries.par_iter().map(|entry| compare_rounds(entry, rounds, max_ticks)).collect()
}

/// Reduces the completed execution matrix to a comparison report per
/// scenario: the comparisons are distributed across the worker pool, then
/// their results are folded in entry order. The fold is fail-fast: the
/// first entry whose rounds hold an out-of-contract trial aborts the whole
/// run with `InvariantViolation`, and a zero round count aborts it with
/// `InvalidConfiguration`; no partial report sequence is ever returned. On
/// success there is exactly one faithful report per dispatched scenario.
pub fn run_matrix(entries: &Vec<ScenarioRun>, rounds: u32, max_ticks: u32) -> (result: Result<
    Vec<ComparisonReport>,
    HarnessError,
>)
    requires
        forall|k: int| 0 <= k < entries@.len() ==> #[trigger] entry_complete(entries@[k], rounds),
    ensures
        match result {
            Ok(reports) => {
                &&& rounds >= 1
                &&& reports@.len() == entries@.len()
                &&& forall|k: int|
                    0 <= k < entries@.len() ==> #[trigger] entry_in_contract(
                        entries@[k],
                        max_ticks,
                    )
                &&& forall|k: int|
                    0 <= k < entries@.len() ==> #[trigger] report_matches(
                        reports@[k],
                        entries@[k],
                        rounds,
                        max_ticks,
                    )
            },
            Err(e) => {
                &&& (e == HarnessError::InvalidConfiguration <==> rounds == 0)
                &&& (e == HarnessError::InvariantViolation <==> rounds >= 1 && exists|k: int|
                    0 <= k < entries@.len() && !#[trigger] entry_in_contract(
                        entries@[k],
                        max_ticks,
                    ))
            },
        },
{
    if rounds == 0 {
        return Err(HarnessError::InvalidConfiguration);
    }
    let mut results = compare_entries_parallel(entries, rounds, max_ticks);
    let ghost all_results = results@;
    proof {
        assert forall|j: int| 0 <= j < entries@.len() implies #[trigger] comparison_outcome(
            all_results[j],
            entries@[j],
            rounds,
            max_ticks,
        ) by {
            assert(comparison_outcome(results@[j], entries@[j], rounds, max_ticks));
        }
    }
    let total = entries.len();
    let mut reports: Vec<ComparisonReport> = Vec::new();
    let mut progress = ProgressCounter::new(total);
    let mut k: usize = 0;
    while k < total
        invariant
            rounds >= 1,
            total == entries@.len(),
            all_results.len() == entries@.len(),
            k <= total,
            results@ == all_results.subrange(k as int, all_results.len() as int),
            reports@.len() == k,
            progress.completed == k,
            progress.total == total,
            forall|j: int| 0 <= j < all_results.len() ==> #[trigger] comparison_outcome(
                all_results[j],
                entries@[j],
                rounds,
                max_ticks,
            ),
            forall|j: int| 0 <= j < k ==> #[trigger] entry_in_contract(entries@[j], max_ticks),
            forall|j: int| 0 <= j < k ==> #[trigger] report_matches(
                reports@[j],
                entries@[j],
                rounds,
                max_ticks,
            ),
        decreases total - k,
    {
        let next = results.remove(0);
        proof {
            assert(next == all_results[k as int]);
            assert(comparison_outcome(all_results[k as int], entries@[k as int], rounds, max_ticks));
            assert(results@ =~= all_results.subrange(k as int + 1, all_results.len() as int));
        }
        match next {
            Ok(rep) => {
                reports.push(rep);
                progress.record();
            },
            Err(e) => {
                proof {
                    if e == HarnessError::InvariantViolation {
                        assert(!entry_in_contract(entries@[k as int], max_ticks));
                    }
                }
                return Err(e);
            },
        }
        k = k + 1;
    }
    proof {
        assert(progress.completed == progress.total);
    }
    Ok(reports)
}

} // verus!
