//! Observations of the external simulation engine and the per-trial state
//! machine: after every engine step the driver asks this module whether the
//! trial keeps running, concludes with an outcome, or has broken the engine
//! contract.

use vstd::prelude::*;

verus! {

/// Status reported by the external simulation engine after a step.
#[derive(Clone, Copy, Debug, PartialEq, Eq, Structural)]
pub enum EngineStatus {
    Running,
    Victory { team: u32 },
    Draw,
    Failed,
}

/// Classification of one finished trial. The competitor under test is
/// always bound to team 0; a timed-out or failed simulation is
/// conservatively attributed as a loss for team 0.
#[derive(Clone, Copy, Debug, PartialEq, Eq, Structural)]
pub enum Outcome {
    WinTeam0,
    WinTeam1,
    Draw,
    TimedOut,
}

/// The two fatal error classes of the harness. A timeout is not an error:
/// it is the `Outcome::TimedOut` classification.
#[derive(Clone, Copy, Debug, PartialEq, Eq, Structural)]
pub enum HarnessError {
    /// The engine reported a status or team outside its contract, or a
    /// trial record was handed in before its simulation had concluded.
    InvariantViolation,
    /// Zero rounds were requested, or a competitor's code failed to
    /// resolve into compilable source.
    InvalidConfiguration,
}

/// What the driver must do with a trial after observing `status` at `tick`.
#[derive(Clone, Copy, Debug, PartialEq, Eq, Structural)]
pub enum TrialStep {
    /// The simulation is still running and within budget: step it again.
    Continue,
    /// The trial is over; its classification.
    Conclude(Outcome),
    /// The engine broke its contract; the enclosing round must fail.
    Violation,
}

/// One completed trial as observed by the driver: the seed it ran, the
/// last engine status, the tick at which it stopped, and its elapsed cost
/// in the driver's integer time unit.
#[derive(Clone, Copy, Debug, PartialEq, Eq, Structural)]
pub struct TrialRecord {
    pub seed: u32,
    pub status: EngineStatus,
    pub tick: u32,
    pub time: u32,
}

/// The outcome a final observation classifies to, or `None` when the
/// observation is outside the engine contract (an unfinished `Running`
/// status, or a victory for a team other than 0 or 1).
pub open spec fn classification(status: EngineStatus, tick: u32, max_ticks: u32) -> Option<Outcome> {
    match status {
        EngineStatus::Running => if tick >= max_ticks {
            Some(Outcome::TimedOut)
        } else {
            None
        },
        EngineStatus::Victory { team } => if team == 0 {
            Some(Outcome::WinTeam0)
        } else if team == 1 {
            Some(Outcome::WinTeam1)
        } else {
            None
        },
        EngineStatus::Draw => Some(Outcome::Draw),
        EngineStatus::Failed => Some(Outcome::TimedOut),
    }
}

/// The classification of a completed trial record.
pub open spec fn record_class(rec: TrialRecord, max_ticks: u32) -> Option<Outcome> {
    classification(rec.status, rec.tick, max_ticks)
}

/// The decision the per-trial state machine takes on an observation: keep
/// stepping while the engine runs within its tick budget; otherwise the
/// trial is over and is classified, with an out-of-contract observation
/// flagged as a violation.
pub open spec fn decision_of(status: EngineStatus, tick: u32, max_ticks: u32) -> TrialStep {
    if status is Running && tick < max_ticks {
        TrialStep::Continue
    } else {
        match classification(status, tick, max_ticks) {
            Some(o) => TrialStep::Conclude(o),
            None => TrialStep::Violation,
        }
    }
}

/// Classifies a final engine observation. Exceeding the tick budget before
/// a terminal status is the expected, recoverable `TimedOut` outcome; a
/// victory for a team other than 0 or 1, or a still-running simulation
/// inside its budget, is a contract breach.
pub fn classify_observation(status: EngineStatus, tick: u32, max_ticks: u32) -> (r: Result<
    Outcome,
    HarnessError,
>)
    ensures
        match r {
            Ok(o) => classification(status, tick, max_ticks) == Some(o),
            Err(e) => classification(status, tick, max_ticks) is None && e
                == HarnessError::InvariantViolation,
        },
{
    match status {
        EngineStatus::Running => if tick >= max_ticks {
            Ok(Outcome::TimedOut)
        } else {
            Err(HarnessError::InvariantViolation)
        },
        EngineStatus::Victory { team } => if team == 0 {
            Ok(Outcome::WinTeam0)
        } else if team == 1 {
            Ok(Outcome::WinTeam1)
        } else {
            Err(HarnessError::InvariantViolation)
        },
        EngineStatus::Draw => Ok(Outcome::Draw),
        EngineStatus::Failed => Ok(Outcome::TimedOut),
    }
}

/// One step of the per-trial state machine. The driver constructs the
/// simulation, then alternates engine steps with this decision until it
/// returns something other than `Continue`.
pub fn trial_decision(status: EngineStatus, tick: u32, max_ticks: u32) -> (step: TrialStep)
    ensures
        step == decision_of(status, tick, max_ticks),
{
    if matches!(status, EngineStatus::Running) && tick < max_ticks {
        TrialStep::Continue
    } else {
        match classify_observation(status, tick, max_ticks) {
            Ok(o) => TrialStep::Conclude(o),
            Err(_) => TrialStep::Violation,
        }
    }
}

} // verus!
