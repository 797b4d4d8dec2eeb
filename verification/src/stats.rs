//! Aggregate counters, the streaming statistics collector, and the final
//! result of a run.

use vstd::prelude::*;

use crate::event::FeatureEvent;
use crate::event::FeatureEventView;
use crate::event::RuleEvent;
use crate::event::RuleEventView;
use crate::event::ScenarioEvent;
use crate::event::ScenarioEventView;
use crate::event::StepEvent;
use crate::event::StepEventView;
use crate::event::StepFailureKind;
use crate::event::StepFailureKindView;
use crate::event::FailureKind;
use crate::model::Scenario;
use crate::model::ScenarioView;

verus! {

/// Counters for the outcomes observed at one level of the run
/// (features, rules, scenarios or steps).
#[derive(Debug, Clone, Copy, PartialEq, Eq, Structural)]
pub struct Stats {
    /// starts counted at this level: one per `Starting` event observed
    pub total: u32,
    /// events skipped
    pub skipped: u32,
    /// events that passed
    pub passed: u32,
    /// events that failed
    pub failed: u32,
    /// events that timed out
    pub timed_out: u32,
}

/// The all-zero counters.
pub open spec fn spec_zero_stats() -> Stats {
    Stats { total: 0, skipped: 0, passed: 0, failed: 0, timed_out: 0 }
}

impl Default for Stats {
    /// Counters with nothing seen yet.
    fn default() -> (res: Stats)
        ensures
            res == spec_zero_stats(),
    {
        Stats { total: 0, skipped: 0, passed: 0, failed: 0, timed_out: 0 }
    }
}

impl Stats {
    /// Indicates this has failing states (failed or timed out).
    pub fn failed(&self) -> (r: bool)
        ensures
            r == (self.failed > 0 || self.timed_out > 0),
    {
        self.failed > 0 || self.timed_out > 0
    }
}

/// Mathematical value of a [`RunResult`].
#[verifier::ext_equal]
pub struct RunResultView {
    pub started: u64,
    pub elapsed: u64,
    pub features: Stats,
    pub rules: Stats,
    pub scenarios: Stats,
    pub steps: Stats,
    pub failed_scenarios: Seq<ScenarioView>,
    pub timed_out_scenarios: Seq<ScenarioView>,
}

/// The immutable snapshot produced once, at the end of a run.
///
/// Times are plain readings of whatever monotonic clock the caller uses,
/// in that clock's own unit.
#[derive(Debug, PartialEq, Eq)]
pub struct RunResult {
    /// The clock reading when the run started.
    pub started: u64,
    /// How long the run took, in the same unit.
    pub elapsed: u64,
    /// Counters of feature events.
    pub features: Stats,
    /// Counters of rule events.
    pub rules: Stats,
    /// Counters of scenario events.
    pub scenarios: Stats,
    /// Counters of step events.
    pub steps: Stats,
    /// The scenarios whose terminal event was a failure by abnormal
    /// termination, in order of observation.
    pub failed_scenarios: Vec<Scenario>,
    /// The scenarios whose terminal event was a failure by timeout, in
    /// order of observation.
    pub timed_out_scenarios: Vec<Scenario>,
}

impl View for RunResult {
    type V = RunResultView;

    open spec fn view(&self) -> RunResultView {
        RunResultView {
            started: self.started,
            elapsed: self.elapsed,
            features: self.features,
            rules: self.rules,
            scenarios: self.scenarios,
            steps: self.steps,
            failed_scenarios: self.failed_scenarios.deep_view(),
            timed_out_scenarios: self.timed_out_scenarios.deep_view(),
        }
    }
}

impl Clone for RunResult {
    fn clone(&self) -> (res: Self)
        ensures
            res@ == self@,
    {
        let res = RunResult {
            started: self.started,
            elapsed: self.elapsed,
            features: self.features,
            rules: self.rules,
            scenarios: self.scenarios,
            steps: self.steps,
            failed_scenarios: self.failed_scenarios.clone(),
            timed_out_scenarios: self.timed_out_scenarios.clone(),
        };
        proof {
            crate::model::lemma_scenario_vec_clone(self.failed_scenarios, res.failed_scenarios);
            crate::model::lemma_scenario_vec_clone(
                self.timed_out_scenarios,
                res.timed_out_scenarios,
            );
            assert(res@ =~= self@);
        }
        res
    }
}

impl RunResult {
    /// Indicates this has failing states (failed or timed out) at the
    /// feature or scenario level.
    pub fn failed(&self) -> (r: bool)
        ensures
            r == (self.features.failed > 0 || self.features.timed_out > 0
                || self.scenarios.failed > 0 || self.scenarios.timed_out > 0),
    {
        self.features.failed() || self.scenarios.failed()
    }
}

/// Unbounded counters: the mathematical value of a [`Stats`].
#[verifier::ext_equal]
pub struct StatsModel {
    pub total: int,
    pub skipped: int,
    pub passed: int,
    pub failed: int,
    pub timed_out: int,
}

/// The counters of `s`, as unbounded integers.
pub open spec fn spec_stats_model(s: Stats) -> StatsModel {
    StatsModel {
        total: s.total as int,
        skipped: s.skipped as int,
        passed: s.passed as int,
        failed: s.failed as int,
        timed_out: s.timed_out as int,
    }
}

/// All counters of `m` are strictly below the machine limit, so one more
/// event can be counted.
pub open spec fn spec_stats_bounded(m: StatsModel) -> bool {
    &&& m.total < u32::MAX
    &&& m.skipped < u32::MAX
    &&& m.passed < u32::MAX
    &&& m.failed < u32::MAX
    &&& m.timed_out < u32::MAX
}

/// Mathematical value of a [`StatsCollector`], without the start time.
#[verifier::ext_equal]
pub struct CollectorModel {
    pub features: StatsModel,
    pub rules: StatsModel,
    pub scenarios: StatsModel,
    pub steps: StatsModel,
    pub failed_scenarios: Seq<ScenarioView>,
    pub timed_out_scenarios: Seq<ScenarioView>,
}

/// The collector state before any event was observed.
pub open spec fn spec_empty_collector() -> CollectorModel {
    CollectorModel {
        features: spec_stats_model(spec_zero_stats()),
        rules: spec_stats_model(spec_zero_stats()),
        scenarios: spec_stats_model(spec_zero_stats()),
        steps: spec_stats_model(spec_zero_stats()),
        failed_scenarios: Seq::empty(),
        timed_out_scenarios: Seq::empty(),
    }
}

/// How one step event changes the step counters: a `Starting` counts the
/// attempted step toward the total, and each outcome bumps its own
/// counter. An unimplemented step counts as skipped.
pub open spec fn spec_on_step_event(m: StatsModel, ev: StepEventView) -> StatsModel {
    match ev {
        StepEventView::Starting => StatsModel { total: m.total + 1, ..m },
        StepEventView::Unimplemented => StatsModel { skipped: m.skipped + 1, ..m },
        StepEventView::Skipped => StatsModel { skipped: m.skipped + 1, ..m },
        StepEventView::Passed(_) => StatsModel { passed: m.passed + 1, ..m },
        StepEventView::Failed(StepFailureKindView::Panic(_, _)) => StatsModel {
            failed: m.failed + 1,
            ..m
        },
        StepEventView::Failed(StepFailureKindView::TimedOut) => StatsModel {
            timed_out: m.timed_out + 1,
            ..m
        },
    }
}

/// How one scenario event changes the collector: step envelopes are passed
/// down, `Starting` counts the scenario, and a terminal event bumps its
/// counter; a failing scenario is recorded in the matching list.
pub open spec fn spec_on_scenario_event(
    m: CollectorModel,
    scenario: ScenarioView,
    ev: ScenarioEventView,
) -> CollectorModel {
    match ev {
        ScenarioEventView::Starting(_) => CollectorModel {
            scenarios: StatsModel { total: m.scenarios.total + 1, ..m.scenarios },
            ..m
        },
        ScenarioEventView::Background(_, e) => CollectorModel {
            steps: spec_on_step_event(m.steps, e),
            ..m
        },
        ScenarioEventView::Step(_, e) => CollectorModel {
            steps: spec_on_step_event(m.steps, e),
            ..m
        },
        ScenarioEventView::Skipped => CollectorModel {
            scenarios: StatsModel { skipped: m.scenarios.skipped + 1, ..m.scenarios },
            ..m
        },
        ScenarioEventView::Passed => CollectorModel {
            scenarios: StatsModel { passed: m.scenarios.passed + 1, ..m.scenarios },
            ..m
        },
        ScenarioEventView::Failed(FailureKind::Panic) => CollectorModel {
            scenarios: StatsModel { failed: m.scenarios.failed + 1, ..m.scenarios },
            failed_scenarios: m.failed_scenarios.push(scenario),
            ..m
        },
        ScenarioEventView::Failed(FailureKind::TimedOut) => CollectorModel {
            scenarios: StatsModel { timed_out: m.scenarios.timed_out + 1, ..m.scenarios },
            timed_out_scenarios: m.timed_out_scenarios.push(scenario),
            ..m
        },
    }
}

/// How one rule event changes the collector.
pub open spec fn spec_on_rule_event(m: CollectorModel, ev: RuleEventView) -> CollectorModel {
    match ev {
        RuleEventView::Starting => CollectorModel {
            rules: StatsModel { total: m.rules.total + 1, ..m.rules },
            ..m
        },
        RuleEventView::Scenario(sc, e) => spec_on_scenario_event(m, sc, e),
        RuleEventView::Skipped => CollectorModel {
            rules: StatsModel { skipped: m.rules.skipped + 1, ..m.rules },
            ..m
        },
        RuleEventView::Passed => CollectorModel {
            rules: StatsModel { passed: m.rules.passed + 1, ..m.rules },
            ..m
        },
        RuleEventView::Failed(FailureKind::Panic) => CollectorModel {
            rules: StatsModel { failed: m.rules.failed + 1, ..m.rules },
            ..m
        },
        RuleEventView::Failed(FailureKind::TimedOut) => CollectorModel {
            rules: StatsModel { timed_out: m.rules.timed_out + 1, ..m.rules },
            ..m
        },
    }
}

/// How one feature event changes the collector.
pub open spec fn spec_on_feature_event(m: CollectorModel, ev: FeatureEventView) -> CollectorModel {
    match ev {
        FeatureEventView::Starting => CollectorModel {
            features: StatsModel { total: m.features.total + 1, ..m.features },
            ..m
        },
        FeatureEventView::Scenario(sc, e) => spec_on_scenario_event(m, sc, e),
        FeatureEventView::Rule(_, e) => spec_on_rule_event(m, e),
        FeatureEventView::Finished => m,
    }
}

/// The collector state after observing a whole sequence of feature
/// events, in order.
pub open spec fn spec_fold_feature_events(
    init: CollectorModel,
    events: Seq<FeatureEventView>,
) -> CollectorModel
    decreases events.len(),
{
    if events.len() == 0 {
        init
    } else {
        spec_on_feature_event(spec_fold_feature_events(init, events.drop_last()), events.last())
    }
}

/// Whether a feature-level event is the `Starting` event of a scenario
/// instance, directly under the feature or inside a rule envelope.
pub open spec fn spec_is_scenario_start(ev: FeatureEventView) -> bool {
    match ev {
        FeatureEventView::Scenario(_, e) => e is Starting,
        FeatureEventView::Rule(_, RuleEventView::Scenario(_, e)) => e is Starting,
        _ => false,
    }
}

/// How many scenario instances the event stream started.
pub open spec fn spec_count_scenario_starts(events: Seq<FeatureEventView>) -> int
    decreases events.len(),
{
    if events.len() == 0 {
        0
    } else {
        spec_count_scenario_starts(events.drop_last()) + if spec_is_scenario_start(
            events.last(),
        ) {
            1int
        } else {
            0int
        }
    }
}

/// The scenario total of the collector counts exactly the scenario
/// instances started: after folding any event stream, `scenarios.total`
/// has grown by the number of scenario `Starting` events in it, wherever
/// in the feature/rule hierarchy they were wrapped.
pub proof fn lemma_scenario_total_counts_starts(
    init: CollectorModel,
    events: Seq<FeatureEventView>,
)
    ensures
        spec_fold_feature_events(init, events).scenarios.total == init.scenarios.total
            + spec_count_scenario_starts(events),
    decreases events.len(),
{
    if events.len() > 0 {
        lemma_scenario_total_counts_starts(init, events.drop_last());
    }
}

/// The elapsed time of a result collected at `now1` is non-negative, and
/// collecting later never yields a smaller elapsed time: `elapsed` is
/// monotonically derived from `started`.
pub proof fn lemma_elapsed_monotone(started: u64, now1: u64, now2: u64)
    requires
        started <= now1 <= now2,
    ensures
        0 <= now1 - started <= now2 - started,
{
}

/// A streaming consumer of the event stream: it folds every observed
/// event into per-level counters and records failing scenarios, and
/// freezes the result when the run finishes.
#[derive(Debug)]
pub struct StatsCollector {
    /// The clock reading when the run started.
    pub started: u64,
    /// Counters of feature events.
    pub features: Stats,
    /// Counters of rule events.
    pub rules: Stats,
    /// Counters of scenario events.
    pub scenarios: Stats,
    /// Counters of step events.
    pub steps: Stats,
    /// The scenarios observed to fail by abnormal termination.
    pub failed_scenarios: Vec<Scenario>,
    /// The scenarios observed to fail by timeout.
    pub timed_out_scenarios: Vec<Scenario>,
}

impl View for StatsCollector {
    type V = CollectorModel;

    open spec fn view(&self) -> CollectorModel {
        CollectorModel {
            features: spec_stats_model(self.features),
            rules: spec_stats_model(self.rules),
            scenarios: spec_stats_model(self.scenarios),
            steps: spec_stats_model(self.steps),
            failed_scenarios: self.failed_scenarios.deep_view(),
            timed_out_scenarios: self.timed_out_scenarios.deep_view(),
        }
    }
}

impl StatsCollector {
    /// A collector with nothing observed, started at the given clock
    /// reading.
    pub fn new(started: u64) -> (res: StatsCollector)
        ensures
            res.started == started,
            res@ == spec_empty_collector(),
    {
        let res = StatsCollector {
            started,
            features: Stats::default(),
            rules: Stats::default(),
            scenarios: Stats::default(),
            steps: Stats::default(),
            failed_scenarios: Vec::new(),
            timed_out_scenarios: Vec::new(),
        };
        proof {
            assert(res@ =~= spec_empty_collector());
        }
        res
    }

    /// Folds one step event into the step counters.
    pub fn handle_step_event(&mut self, event: &StepEvent)
        requires
            spec_stats_bounded(old(self)@.steps),
        ensures
            final(self)@ == (CollectorModel {
                steps: spec_on_step_event(old(self)@.steps, event@),
                ..old(self)@
            }),
            final(self).started == old(self).started,
    {
        match event {
            StepEvent::Starting => {
                self.steps.total += 1;
            },
            StepEvent::Unimplemented => {
                self.steps.skipped += 1;
            },
            StepEvent::Skipped => {
                self.steps.skipped += 1;
            },
            StepEvent::Passed(_) => {
                self.steps.passed += 1;
            },
            StepEvent::Failed(StepFailureKind::Panic(_, _)) => {
                self.steps.failed += 1;
            },
            StepEvent::Failed(StepFailureKind::TimedOut) => {
                self.steps.timed_out += 1;
            },
        }
        proof {
            assert(self@ =~= (CollectorModel {
                steps: spec_on_step_event(old(self)@.steps, event@),
                ..old(self)@
            }));
        }
    }

    /// Folds one scenario event into the collector; the scenario the event
    /// belongs to is recorded if the event is a terminal failure.
    pub fn handle_scenario_event(&mut self, scenario: &Scenario, event: &ScenarioEvent)
        requires
            spec_stats_bounded(old(self)@.scenarios),
            spec_stats_bounded(old(self)@.steps),
        ensures
            final(self)@ == spec_on_scenario_event(old(self)@, scenario@, event@),
            final(self).started == old(self).started,
    {
        match event {
            ScenarioEvent::Starting(_) => {
                self.scenarios.total += 1;
            },
            ScenarioEvent::Background(_, e) => {
                self.handle_step_event(e);
            },
            ScenarioEvent::Step(_, e) => {
                self.handle_step_event(e);
            },
            ScenarioEvent::Skipped => {
                self.scenarios.skipped += 1;
            },
            ScenarioEvent::Passed => {
                self.scenarios.passed += 1;
            },
            ScenarioEvent::Failed(FailureKind::Panic) => {
                self.scenarios.failed += 1;
                let c = scenario.clone();
                let ghost pre = self.failed_scenarios;
                self.failed_scenarios.push(c);
                proof {
                    assert(self.failed_scenarios.deep_view() =~= pre.deep_view().push(scenario@));
                }
            },
            ScenarioEvent::Failed(FailureKind::TimedOut) => {
                self.scenarios.timed_out += 1;
                let c = scenario.clone();
                let ghost pre = self.timed_out_scenarios;
                self.timed_out_scenarios.push(c);
                proof {
                    assert(self.timed_out_scenarios.deep_view() =~= pre.deep_view().push(
                        scenario@,
                    ));
                }
            },
        }
        proof {
            assert(self@ =~= spec_on_scenario_event(old(self)@, scenario@, event@));
        }
    }

    /// Folds one rule event into the collector.
    pub fn handle_rule_event(&mut self, event: &RuleEvent)
        requires
            spec_stats_bounded(old(self)@.rules),
            spec_stats_bounded(old(self)@.scenarios),
            spec_stats_bounded(old(self)@.steps),
        ensures
            final(self)@ == spec_on_rule_event(old(self)@, event@),
            final(self).started == old(self).started,
    {
        match event {
            RuleEvent::Starting => {
                self.rules.total += 1;
            },
            RuleEvent::Scenario(scenario, e) => {
                self.handle_scenario_event(scenario, e);
            },
            RuleEvent::Skipped => {
                self.rules.skipped += 1;
            },
            RuleEvent::Passed => {
                self.rules.passed += 1;
            },
            RuleEvent::Failed(FailureKind::Panic) => {
                self.rules.failed += 1;
            },
            RuleEvent::Failed(FailureKind::TimedOut) => {
                self.rules.timed_out += 1;
            },
        }
        proof {
            assert(self@ =~= spec_on_rule_event(old(self)@, event@));
        }
    }

    /// Folds one feature event into the collector.
    pub fn handle_feature_event(&mut self, event: &FeatureEvent)
        requires
            spec_stats_bounded(old(self)@.features),
            spec_stats_bounded(old(self)@.rules),
            spec_stats_bounded(old(self)@.scenarios),
            spec_stats_bounded(old(self)@.steps),
        ensures
            final(self)@ == spec_on_feature_event(old(self)@, event@),
            final(self).started == old(self).started,
    {
        match event {
            FeatureEvent::Starting => {
                self.features.total += 1;
            },
            FeatureEvent::Scenario(scenario, e) => {
                self.handle_scenario_event(scenario, e);
            },
            FeatureEvent::Rule(_, e) => {
                self.handle_rule_event(e);
            },
            FeatureEvent::Finished => {},
        }
        proof {
            assert(self@ =~= spec_on_feature_event(old(self)@, event@));
        }
    }

    /// Freezes the collector into the run's immutable result, at the given
    /// clock reading.
    pub fn collect(self, now: u64) -> (res: RunResult)
        requires
            self.started <= now,
        ensures
            res@.started == self.started,
            res@.elapsed == now - self.started,
            res@.features == self.features,
            res@.rules == self.rules,
            res@.scenarios == self.scenarios,
            res@.steps == self.steps,
            res@.failed_scenarios == self@.failed_scenarios,
            res@.timed_out_scenarios == self@.timed_out_scenarios,
    {
        let StatsCollector {
            started,
            features,
            rules,
            scenarios,
            steps,
            failed_scenarios,
            timed_out_scenarios,
        } = self;
        RunResult {
            started,
            elapsed: now - started,
            features,
            rules,
            scenarios,
            steps,
            failed_scenarios,
            timed_out_scenarios,
        }
    }
}

} // verus!
