use oort_bench::compare::{compare_rounds, ScenarioRun, TimeDelta};
use oort_bench::matrix::{run_matrix, ProgressCounter};
use oort_bench::round::{run_round, seed_range, RoundResult};
use oort_bench::trial::{
    classify_observation, trial_decision, EngineStatus, HarnessError, Outcome, TrialRecord,
    TrialStep,
};

const MAX_TICKS: u32 = 100;

fn record(seed: u32, status: EngineStatus, tick: u32, time: u32) -> TrialRecord {
    TrialRecord { seed, status, tick, time }
}

fn all_wins(rounds: u32, time: u32) -> Vec<TrialRecord> {
    (0..rounds)
        .map(|seed| record(seed, EngineStatus::Victory { team: 0 }, 40, time))
        .collect()
}

fn all_draws(rounds: u32, time: u32) -> Vec<TrialRecord> {
    (0..rounds)
        .map(|seed| record(seed, EngineStatus::Draw, 40, time))
        .collect()
}

#[test]
fn classify_victories_and_draw() {
    assert_eq!(
        classify_observation(EngineStatus::Victory { team: 0 }, 10, MAX_TICKS),
        Ok(Outcome::WinTeam0)
    );
    assert_eq!(
        classify_observation(EngineStatus::Victory { team: 1 }, 10, MAX_TICKS),
        Ok(Outcome::WinTeam1)
    );
    assert_eq!(classify_observation(EngineStatus::Draw, 10, MAX_TICKS), Ok(Outcome::Draw));
}

#[test]
fn classify_failed_is_conservative_loss() {
    assert_eq!(classify_observation(EngineStatus::Failed, 10, MAX_TICKS), Ok(Outcome::TimedOut));
}

#[test]
fn classify_invalid_team_is_violation() {
    assert_eq!(
        classify_observation(EngineStatus::Victory { team: 2 }, 10, MAX_TICKS),
        Err(HarnessError::InvariantViolation)
    );
    assert_eq!(
        classify_observation(EngineStatus::Victory { team: 7 }, 10, MAX_TICKS),
        Err(HarnessError::InvariantViolation)
    );
}

#[test]
fn classify_unfinished_running_is_violation() {
    assert_eq!(
        classify_observation(EngineStatus::Running, MAX_TICKS - 1, MAX_TICKS),
        Err(HarnessError::InvariantViolation)
    );
}

#[test]
fn running_at_tick_budget_times_out() {
    assert_eq!(
        classify_observation(EngineStatus::Running, MAX_TICKS, MAX_TICKS),
        Ok(Outcome::TimedOut)
    );
    assert_eq!(
        trial_decision(EngineStatus::Running, MAX_TICKS, MAX_TICKS),
        TrialStep::Conclude(Outcome::TimedOut)
    );
}

#[test]
fn trial_decision_steps_while_running() {
    assert_eq!(trial_decision(EngineStatus::Running, 0, MAX_TICKS), TrialStep::Continue);
    assert_eq!(trial_decision(EngineStatus::Running, MAX_TICKS - 1, MAX_TICKS), TrialStep::Continue);
    assert_eq!(
        trial_decision(EngineStatus::Victory { team: 1 }, 5, MAX_TICKS),
        TrialStep::Conclude(Outcome::WinTeam1)
    );
    assert_eq!(
        trial_decision(EngineStatus::Victory { team: 3 }, 5, MAX_TICKS),
        TrialStep::Violation
    );
}

#[test]
fn zero_rounds_is_invalid_configuration() {
    let records: Vec<TrialRecord> = Vec::new();
    assert_eq!(run_round(&records, 0, MAX_TICKS), Err(HarnessError::InvalidConfiguration));
}

#[test]
fn round_partitions_seeds_in_completion_order() {
    // Completion order differs from seed order; the buckets partition the
    // seeds and the time list follows completion order.
    let records = vec![
        record(2, EngineStatus::Victory { team: 1 }, 30, 5),
        record(0, EngineStatus::Victory { team: 0 }, 10, 7),
        record(3, EngineStatus::Running, MAX_TICKS, 11),
        record(1, EngineStatus::Draw, 20, 13),
        record(4, EngineStatus::Failed, 25, 17),
    ];
    let r = run_round(&records, 5, MAX_TICKS).unwrap();
    assert_eq!(r.team0_wins, vec![0]);
    assert_eq!(r.team1_wins, vec![2]);
    assert_eq!(r.draws, vec![1]);
    assert_eq!(r.timeouts, vec![3, 4]);
    assert_eq!(r.times, vec![5, 7, 11, 13, 17]);
}

#[test]
fn round_time_list_has_one_entry_per_round() {
    let r = run_round(&all_wins(7, 3), 7, MAX_TICKS).unwrap();
    assert_eq!(r.times.len(), 7);
}

#[test]
fn round_aborts_on_invariant_violation() {
    let records = vec![
        record(0, EngineStatus::Victory { team: 0 }, 10, 1),
        record(1, EngineStatus::Victory { team: 2 }, 10, 1),
        record(2, EngineStatus::Draw, 10, 1),
    ];
    assert_eq!(run_round(&records, 3, MAX_TICKS), Err(HarnessError::InvariantViolation));
}

#[test]
fn duel_win_delta_between_all_wins_and_all_draws() {
    // Scenario "duel": the baseline always wins, the new competitor always
    // draws, five rounds each against the resident opponent.
    let run = ScenarioRun {
        scenario: "duel".to_string(),
        baseline_records: all_wins(5, 2),
        new_records: all_draws(5, 2),
    };
    let rep = compare_rounds(&run, 5, MAX_TICKS).unwrap();
    assert_eq!(rep.scenario, "duel");
    assert_eq!(rep.baseline.team0_wins, vec![0, 1, 2, 3, 4]);
    assert!(rep.baseline.draws.is_empty());
    assert_eq!(rep.new.draws, vec![0, 1, 2, 3, 4]);
    assert!(rep.new.team0_wins.is_empty());
    assert_eq!(rep.win_delta, -5);
}

#[test]
fn mean_time_delta_is_exact() {
    let baseline_records = vec![
        record(0, EngineStatus::Victory { team: 0 }, 10, 10),
        record(1, EngineStatus::Victory { team: 0 }, 10, 20),
    ];
    let new_records = vec![
        record(0, EngineStatus::Draw, 10, 40),
        record(1, EngineStatus::Draw, 10, 10),
    ];
    let run = ScenarioRun { scenario: "duel".to_string(), baseline_records, new_records };
    let rep = compare_rounds(&run, 2, MAX_TICKS).unwrap();
    // mean(new) - mean(baseline) = 25 - 15 = 20 / 2
    assert_eq!(rep.time_delta, TimeDelta { numer: 20, denom: 2 });
}

#[test]
fn swapping_competitors_negates_both_deltas() {
    let a = vec![
        record(0, EngineStatus::Victory { team: 0 }, 10, 10),
        record(1, EngineStatus::Victory { team: 1 }, 10, 30),
        record(2, EngineStatus::Victory { team: 0 }, 10, 20),
    ];
    let b = vec![
        record(0, EngineStatus::Draw, 10, 5),
        record(1, EngineStatus::Victory { team: 0 }, 10, 5),
        record(2, EngineStatus::Running, MAX_TICKS, 14),
    ];
    let forward = ScenarioRun {
        scenario: "duel".to_string(),
        baseline_records: a.clone(),
        new_records: b.clone(),
    };
    let backward = ScenarioRun {
        scenario: "duel".to_string(),
        baseline_records: b,
        new_records: a,
    };
    let fwd = compare_rounds(&forward, 3, MAX_TICKS).unwrap();
    let bwd = compare_rounds(&backward, 3, MAX_TICKS).unwrap();
    assert_eq!(fwd.win_delta, -bwd.win_delta);
    assert_eq!(fwd.time_delta.numer, -bwd.time_delta.numer);
    assert_eq!(fwd.time_delta.denom, bwd.time_delta.denom);
    assert_eq!(fwd.win_delta.abs(), bwd.win_delta.abs());
    assert_eq!(fwd.time_delta.numer.abs(), bwd.time_delta.numer.abs());
}

#[test]
fn comparison_is_deterministic() {
    let run = ScenarioRun {
        scenario: "duel".to_string(),
        baseline_records: all_wins(4, 9),
        new_records: all_draws(4, 6),
    };
    let first = compare_rounds(&run, 4, MAX_TICKS).unwrap();
    let second = compare_rounds(&run, 4, MAX_TICKS).unwrap();
    assert_eq!(first, second);
}

#[test]
fn timeouts_are_never_team0_wins() {
    let records = vec![
        record(0, EngineStatus::Running, MAX_TICKS, 1),
        record(1, EngineStatus::Victory { team: 0 }, 10, 1),
        record(2, EngineStatus::Failed, 10, 1),
    ];
    let r = run_round(&records, 3, MAX_TICKS).unwrap();
    assert_eq!(r.team0_wins, vec![1]);
    assert_eq!(r.timeouts, vec![0, 2]);
    for s in &r.timeouts {
        assert!(!r.team0_wins.contains(s));
    }
}

#[test]
fn matrix_produces_one_report_per_scenario() {
    let entries = vec![
        ScenarioRun {
            scenario: "duel".to_string(),
            baseline_records: all_wins(2, 1),
            new_records: all_draws(2, 1),
        },
        ScenarioRun {
            scenario: "chase".to_string(),
            baseline_records: all_draws(2, 1),
            new_records: all_wins(2, 1),
        },
    ];
    let reports = run_matrix(&entries, 2, MAX_TICKS).unwrap();
    assert_eq!(reports.len(), 2);
    assert_eq!(reports[0].scenario, "duel");
    assert_eq!(reports[1].scenario, "chase");
    assert_eq!(reports[0].win_delta, -2);
    assert_eq!(reports[1].win_delta, 2);
}

#[test]
fn matrix_aborts_whole_run_on_fatal_violation() {
    // A fatal violation injected into "chase" aborts the whole matrix:
    // no partial report sequence is returned for "duel".
    let entries = vec![
        ScenarioRun {
            scenario: "duel".to_string(),
            baseline_records: all_wins(2, 1),
            new_records: all_draws(2, 1),
        },
        ScenarioRun {
            scenario: "chase".to_string(),
            baseline_records: vec![
                record(0, EngineStatus::Victory { team: 9 }, 10, 1),
                record(1, EngineStatus::Draw, 10, 1),
            ],
            new_records: all_wins(2, 1),
        },
    ];
    assert_eq!(run_matrix(&entries, 2, MAX_TICKS), Err(HarnessError::InvariantViolation));
}

#[test]
fn matrix_with_no_scenarios_yields_no_reports() {
    let entries: Vec<ScenarioRun> = Vec::new();
    let reports = run_matrix(&entries, 3, MAX_TICKS).unwrap();
    assert!(reports.is_empty());
}

#[test]
fn matrix_rejects_zero_rounds() {
    let entries: Vec<ScenarioRun> = Vec::new();
    assert_eq!(run_matrix(&entries, 0, MAX_TICKS), Err(HarnessError::InvalidConfiguration));
}

#[test]
fn seed_range_is_dense_from_zero() {
    assert_eq!(seed_range(4), vec![0, 1, 2, 3]);
    assert!(seed_range(0).is_empty());
}

#[test]
fn round_result_fields_are_plain_data() {
    let r = RoundResult {
        team0_wins: vec![0],
        team1_wins: vec![],
        draws: vec![],
        timeouts: vec![],
        times: vec![3],
    };
    assert_eq!(r.clone(), r);
}

#[test]
fn progress_counter_counts_each_completion_once() {
    let mut c = ProgressCounter::new(3);
    assert!(!c.is_done());
    c.record();
    c.record();
    assert!(!c.is_done());
    c.record();
    assert!(c.is_done());
    assert_eq!(c.completed, 3);
    assert_eq!(c.total, 3);
}
