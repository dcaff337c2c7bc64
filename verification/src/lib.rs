//! Orchestration and metrics sampling for load-test runs.
//!
//! A run launches a subject server, drives a load generator against it and
//! samples host CPU and memory utilisation at a fixed cadence. This crate
//! holds the decisions of such a run: the sample series and its bounds, the
//! sampler's pacing and stop rule, the lifecycle of the two processes, and
//! the sequencing of targets. Spawning, sleeping, reading the host and
//! drawing are left to the caller, which performs each requested action and
//! reports what happened.

pub mod config;
pub mod coordinator;
pub mod dashboard;
pub mod metrics;
pub mod orchestrator;
pub mod process;
pub mod sample;
pub mod sampler;
pub mod window;
