//! Core of a comparative benchmark harness for two competing pieces of
//! compiled agent logic ("baseline" and "new"), evaluated over a matrix of
//! scenarios and dense seed ranges.
//!
//! The simulation engine itself is an external collaborator: the harness
//! observes its status, tick counter and score time as plain values. This
//! crate holds everything that can be decided from those observations —
//! outcome classification, per-trial stepping decisions, round aggregation,
//! baseline-versus-new comparison, and the fail-fast matrix fold — and
//! proves its behaviour.

pub mod trial;

pub mod round;

pub mod compare;

pub mod matrix;

pub mod competitor;

