//! The hierarchical event stream a run produces.
//!
//! Each level of the tree wraps its children's events in its own envelope:
//! run events carry feature events, feature events carry scenario and rule
//! events, and scenario events carry step events. Every step invocation
//! attempt produces exactly one outcome event, and every scenario run
//! produces exactly one terminal event.

use vstd::prelude::*;

use crate::examples::ExampleValues;
use crate::examples::ExampleValuesView;
use crate::model::Feature;
use crate::model::FeatureView;
use crate::model::Rule;
use crate::model::RuleView;
use crate::model::Scenario;
use crate::model::ScenarioView;
use crate::model::Step;
use crate::model::StepView;
use crate::stats::RunResult;
use crate::stats::RunResultView;

verus! {

/// Mathematical value of a [`CapturedOutput`].
#[verifier::ext_equal]
pub struct CapturedOutputView {
    pub out: Seq<char>,
    pub err: Seq<char>,
}

/// Text written to the standard output and error streams while a step ran.
#[derive(Debug, PartialEq, Eq)]
pub struct CapturedOutput {
    /// Captured standard output.
    pub out: String,
    /// Captured standard error.
    pub err: String,
}

impl View for CapturedOutput {
    type V = CapturedOutputView;

    open spec fn view(&self) -> CapturedOutputView {
        CapturedOutputView { out: self.out@, err: self.err@ }
    }
}

impl Clone for CapturedOutput {
    fn clone(&self) -> (res: Self)
        ensures
            res@ == self@,
    {
        CapturedOutput { out: self.out.clone(), err: self.err.clone() }
    }
}

/// Mathematical value of a [`Location`].
#[verifier::ext_equal]
pub struct LocationView {
    pub file: Seq<char>,
    pub line: u32,
    pub column: u32,
}

/// A best-effort source position for an abnormal termination.
#[derive(Debug, PartialEq, Eq)]
pub struct Location {
    /// The source file, or `"unknown"`.
    pub file: String,
    /// The line within the file.
    pub line: u32,
    /// The column within the line.
    pub column: u32,
}

impl View for Location {
    type V = LocationView;

    open spec fn view(&self) -> LocationView {
        LocationView { file: self.file@, line: self.line, column: self.column }
    }
}

/// The view of the location used when no source position is available.
pub open spec fn spec_unknown_location() -> LocationView {
    LocationView { file: "unknown"@, line: 0, column: 0 }
}

impl Location {
    /// The location used when no source position is available.
    pub fn unknown() -> (res: Location)
        ensures
            res@ == spec_unknown_location(),
    {
        Location { file: "unknown".to_owned(), line: 0, column: 0 }
    }
}

impl Clone for Location {
    fn clone(&self) -> (res: Self)
        ensures
            res@ == self@,
    {
        Location { file: self.file.clone(), line: self.line, column: self.column }
    }
}

/// Mathematical value of a [`PanicInfo`].
#[verifier::ext_equal]
pub struct PanicInfoView {
    pub location: LocationView,
    pub payload: Seq<char>,
}

/// What is known about one abnormal termination: where it happened and the
/// text of its payload.
#[derive(Debug, PartialEq, Eq)]
pub struct PanicInfo {
    /// The best-effort source position.
    pub location: Location,
    /// The payload text.
    pub payload: String,
}

impl View for PanicInfo {
    type V = PanicInfoView;

    open spec fn view(&self) -> PanicInfoView {
        PanicInfoView { location: self.location@, payload: self.payload@ }
    }
}

/// The view of the placeholder used when nothing was recorded about an
/// abnormal termination.
pub open spec fn spec_unknown_panic_info() -> PanicInfoView {
    PanicInfoView { location: spec_unknown_location(), payload: Seq::empty() }
}

impl PanicInfo {
    /// The placeholder used when nothing was recorded about an abnormal
    /// termination.
    pub fn unknown() -> (res: PanicInfo)
        ensures
            res@ == spec_unknown_panic_info(),
    {
        let res = PanicInfo { location: Location::unknown(), payload: String::new() };
        proof {
            assert(res@ =~= spec_unknown_panic_info());
        }
        res
    }
}

impl Clone for PanicInfo {
    fn clone(&self) -> (res: Self)
        ensures
            res@ == self@,
    {
        PanicInfo { location: self.location.clone(), payload: self.payload.clone() }
    }
}

/// Mathematical value of a [`PanicPayload`].
pub enum PanicPayloadView {
    Text(Seq<char>),
    Opaque,
}

/// The payload of an abnormal termination, as far as it can be read: its
/// text when the payload was a string, and nothing otherwise.
#[derive(Debug, PartialEq, Eq)]
pub enum PanicPayload {
    /// A payload that carried text.
    Text(String),
    /// A payload of any other shape.
    Opaque,
}

impl View for PanicPayload {
    type V = PanicPayloadView;

    open spec fn view(&self) -> PanicPayloadView {
        match self {
            PanicPayload::Text(s) => PanicPayloadView::Text(s@),
            PanicPayload::Opaque => PanicPayloadView::Opaque,
        }
    }
}

impl Clone for PanicPayload {
    fn clone(&self) -> (res: Self)
        ensures
            res@ == self@,
    {
        match self {
            PanicPayload::Text(s) => PanicPayload::Text(s.clone()),
            PanicPayload::Opaque => PanicPayload::Opaque,
        }
    }
}

/// Mathematical value of a [`StepFailureKind`].
pub enum StepFailureKindView {
    Panic(CapturedOutputView, PanicInfoView),
    TimedOut,
}

/// How one step failed.
#[derive(Debug, PartialEq, Eq)]
pub enum StepFailureKind {
    /// The handler terminated abnormally; the captured output and what is
    /// known about the termination are retained.
    Panic(CapturedOutput, PanicInfo),
    /// The handler exceeded the configured step timeout.
    TimedOut,
}

impl View for StepFailureKind {
    type V = StepFailureKindView;

    open spec fn view(&self) -> StepFailureKindView {
        match self {
            StepFailureKind::Panic(out, info) => StepFailureKindView::Panic(out@, info@),
            StepFailureKind::TimedOut => StepFailureKindView::TimedOut,
        }
    }
}

/// The coarser scenario- and rule-level failure rollup.
#[derive(Debug, Clone, Copy, PartialEq, Eq, Structural)]
pub enum FailureKind {
    /// Some step terminated abnormally.
    Panic,
    /// Some step timed out.
    TimedOut,
}

/// The rollup of a step failure: the captured output and termination
/// details are dropped, only the kind remains.
pub open spec fn spec_failure_kind_of(k: StepFailureKindView) -> FailureKind {
    match k {
        StepFailureKindView::Panic(_, _) => FailureKind::Panic,
        StepFailureKindView::TimedOut => FailureKind::TimedOut,
    }
}

/// Rolls a step failure up to the coarser scenario-level kind.
pub fn failure_kind_of(k: &StepFailureKind) -> (r: FailureKind)
    ensures
        r == spec_failure_kind_of(k@),
{
    match k {
        StepFailureKind::Panic(_, _) => FailureKind::Panic,
        StepFailureKind::TimedOut => FailureKind::TimedOut,
    }
}

/// Mathematical value of a [`StepEvent`].
pub enum StepEventView {
    Starting,
    Unimplemented,
    Skipped,
    Passed(CapturedOutputView),
    Failed(StepFailureKindView),
}

/// The events one step invocation produces: `Starting` when the step is
/// about to run, then exactly one outcome.
#[derive(Debug, PartialEq, Eq)]
pub enum StepEvent {
    /// The step is about to run.
    Starting,
    /// The resolver knew no handler for the step.
    Unimplemented,
    /// The handler requested that the rest of the scenario be skipped.
    Skipped,
    /// The handler completed normally.
    Passed(CapturedOutput),
    /// The handler failed.
    Failed(StepFailureKind),
}

impl View for StepEvent {
    type V = StepEventView;

    open spec fn view(&self) -> StepEventView {
        match self {
            StepEvent::Starting => StepEventView::Starting,
            StepEvent::Unimplemented => StepEventView::Unimplemented,
            StepEvent::Skipped => StepEventView::Skipped,
            StepEvent::Passed(out) => StepEventView::Passed(out@),
            StepEvent::Failed(k) => StepEventView::Failed(k@),
        }
    }
}

/// The outcome of invoking one step's handler against the current world.
pub enum TestEvent<W> {
    /// The handler completed and produced the next world.
    Success(W, CapturedOutput),
    /// The handler failed.
    Failure(StepFailureKind),
    /// The handler requested that the rest of the scenario be skipped.
    Skipped,
    /// The resolver knew no handler for the step.
    Unimplemented,
}

/// Splits a step outcome into the world it carried, if any, and the step
/// event to report.
pub fn test_event_to_step_event<W>(ev: TestEvent<W>) -> (r: (Option<W>, StepEvent))
    ensures
        ev matches TestEvent::Success(w, out) ==> r.0 == Some(w) && r.1@ == StepEventView::Passed(
            out@,
        ),
        ev matches TestEvent::Failure(k) ==> r.0 is None && r.1@ == StepEventView::Failed(k@),
        ev is Skipped ==> r.0 is None && r.1@ == StepEventView::Skipped,
        ev is Unimplemented ==> r.0 is None && r.1@ == StepEventView::Unimplemented,
{
    match ev {
        TestEvent::Success(w, out) => (Some(w), StepEvent::Passed(out)),
        TestEvent::Failure(k) => (None, StepEvent::Failed(k)),
        TestEvent::Skipped => (None, StepEvent::Skipped),
        TestEvent::Unimplemented => (None, StepEvent::Unimplemented),
    }
}

/// Mathematical value of a [`ScenarioEvent`].
pub enum ScenarioEventView {
    Starting(ExampleValuesView),
    Background(StepView, StepEventView),
    Step(StepView, StepEventView),
    Skipped,
    Passed,
    Failed(FailureKind),
}

/// The events one scenario run produces: `Starting`, one envelope per step
/// event, and exactly one terminal event.
#[derive(Debug, PartialEq, Eq)]
pub enum ScenarioEvent {
    /// The scenario is about to run, with the example row driving it.
    Starting(ExampleValues),
    /// A step event of a background step.
    Background(Step, StepEvent),
    /// A step event of a scenario step.
    Step(Step, StepEvent),
    /// Terminal: a step was unimplemented or requested a skip.
    Skipped,
    /// Terminal: every step passed.
    Passed,
    /// Terminal: a step failed.
    Failed(FailureKind),
}

impl View for ScenarioEvent {
    type V = ScenarioEventView;

    open spec fn view(&self) -> ScenarioEventView {
        match self {
            ScenarioEvent::Starting(ev) => ScenarioEventView::Starting(ev@),
            ScenarioEvent::Background(st, e) => ScenarioEventView::Background(st@, e@),
            ScenarioEvent::Step(st, e) => ScenarioEventView::Step(st@, e@),
            ScenarioEvent::Skipped => ScenarioEventView::Skipped,
            ScenarioEvent::Passed => ScenarioEventView::Passed,
            ScenarioEvent::Failed(k) => ScenarioEventView::Failed(*k),
        }
    }
}

impl DeepView for ScenarioEvent {
    type V = ScenarioEventView;

    open spec fn deep_view(&self) -> ScenarioEventView {
        self.view()
    }
}

/// Mathematical value of a [`RuleEvent`].
pub enum RuleEventView {
    Starting,
    Scenario(ScenarioView, ScenarioEventView),
    Skipped,
    Passed,
    Failed(FailureKind),
}

/// The events one rule produces: `Starting`, its scenarios' events, and
/// exactly one terminal event aggregating them.
#[derive(Debug, PartialEq, Eq)]
pub enum RuleEvent {
    /// The rule is about to run.
    Starting,
    /// A scenario event of a scenario belonging to the rule.
    Scenario(Scenario, ScenarioEvent),
    /// Terminal: no scenario passed or failed.
    Skipped,
    /// Terminal: at least one scenario passed and none failed.
    Passed,
    /// Terminal: a scenario failed.
    Failed(FailureKind),
}

impl View for RuleEvent {
    type V = RuleEventView;

    open spec fn view(&self) -> RuleEventView {
        match self {
            RuleEvent::Starting => RuleEventView::Starting,
            RuleEvent::Scenario(sc, e) => RuleEventView::Scenario(sc@, e@),
            RuleEvent::Skipped => RuleEventView::Skipped,
            RuleEvent::Passed => RuleEventView::Passed,
            RuleEvent::Failed(k) => RuleEventView::Failed(*k),
        }
    }
}

/// Mathematical value of a [`FeatureEvent`].
pub enum FeatureEventView {
    Starting,
    Scenario(ScenarioView, ScenarioEventView),
    Rule(RuleView, RuleEventView),
    Finished,
}

/// The events one feature produces.
#[derive(Debug, PartialEq, Eq)]
pub enum FeatureEvent {
    /// The feature is about to run.
    Starting,
    /// A scenario event of a scenario directly under the feature.
    Scenario(Scenario, ScenarioEvent),
    /// A rule event of a rule of the feature.
    Rule(Rule, RuleEvent),
    /// The feature is done.
    Finished,
}

impl View for FeatureEvent {
    type V = FeatureEventView;

    open spec fn view(&self) -> FeatureEventView {
        match self {
            FeatureEvent::Starting => FeatureEventView::Starting,
            FeatureEvent::Scenario(sc, e) => FeatureEventView::Scenario(sc@, e@),
            FeatureEvent::Rule(r, e) => FeatureEventView::Rule(r@, e@),
            FeatureEvent::Finished => FeatureEventView::Finished,
        }
    }
}

/// Mathematical value of a [`CucumberEvent`].
pub enum CucumberEventView {
    Starting,
    Feature(FeatureView, FeatureEventView),
    Finished(RunResultView),
}

/// The top-level events of a whole run.
#[derive(Debug, PartialEq, Eq)]
pub enum CucumberEvent {
    /// The run is about to start.
    Starting,
    /// A feature event of one of the run's features.
    Feature(Feature, FeatureEvent),
    /// The run is done; the aggregated result is attached.
    Finished(RunResult),
}

impl View for CucumberEvent {
    type V = CucumberEventView;

    open spec fn view(&self) -> CucumberEventView {
        match self {
            CucumberEvent::Starting => CucumberEventView::Starting,
            CucumberEvent::Feature(f, e) => CucumberEventView::Feature(f@, e@),
            CucumberEvent::Finished(r) => CucumberEventView::Finished(r@),
        }
    }
}

} // verus!
