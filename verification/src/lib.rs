//! Execution core of a behavior-driven test runner.
//!
//! Given an already-parsed suite of features, rules, scenarios and steps,
//! together with a resolver that maps step text to executable handlers, this
//! library drives execution: it expands templated scenarios, decides which
//! lifecycle hooks apply, sequences steps with skip-cascade semantics,
//! classifies step outcomes (including timeouts and abnormal terminations),
//! and folds the emitted event stream into aggregate statistics.

use vstd::prelude::*;

pub mod criteria;
pub mod event;
pub mod examples;
pub mod model;
pub mod runner;
mod stats;

pub use examples::ExampleValues;
pub use stats::CollectorModel;
pub use stats::RunResult;
pub use stats::RunResultView;
pub use stats::Stats;
pub use stats::StatsCollector;
pub use stats::StatsModel;

use crate::event::PanicPayload;

verus! {

/// How a step handler's execution ended when it did not complete normally:
/// it ran out of time, or it terminated abnormally with a payload.
pub enum TestError {
    /// The handler exceeded the configured step timeout.
    TimedOut,
    /// The handler terminated abnormally; what could be read of its
    /// payload is attached.
    PanicError(PanicPayload),
}

/// During a run, the runner notifies an `EventHandler` implementation
/// about every key occurrence in the test lifecycle, in strict
/// chronological order.
pub trait EventHandler {
    /// Consumes one top-level event.
    fn handle_event(&mut self, event: crate::event::CucumberEvent);
}

} // verus!
