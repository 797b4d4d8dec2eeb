//! The drivers that execute a suite.
//!
//! Execution is one linear, suspendable sequence: run, feature, rule and
//! scenario drivers walk the spec tree in input order, dispatch lifecycle
//! hooks, sequence steps with skip-cascade semantics, and classify each
//! step outcome. The surrounding host performs the actual handler calls,
//! hook calls and timeout racing, and feeds every outcome back into these
//! drivers, which decide everything that happens next and produce the
//! event stream.

use vstd::prelude::*;

use crate::criteria::Criteria;
use crate::criteria::HookScope;
use crate::criteria::spec_eval;
use crate::event::CapturedOutput;
use crate::event::FailureKind;
use crate::event::PanicInfo;
use crate::event::PanicPayload;
use crate::event::PanicPayloadView;
use crate::event::RuleEvent;
use crate::event::RuleEventView;
use crate::event::ScenarioEvent;
use crate::event::ScenarioEventView;
use crate::event::StepEvent;
use crate::event::StepEventView;
use crate::event::StepFailureKind;
use crate::event::StepFailureKindView;
use crate::event::TestEvent;
use crate::event::failure_kind_of;
use crate::event::spec_failure_kind_of;
use crate::event::spec_unknown_panic_info;
use crate::examples::ExampleValues;
use crate::examples::ExampleValuesView;
use crate::model::Feature;
use crate::model::Rule;
use crate::model::Scenario;
use crate::model::Step;
use crate::model::StepView;
use crate::stats::RunResult;
use crate::TestError;

verus! {

/// Compiled scenario-name filters are carried opaquely; only the regex
/// crate reads them.
#[verifier::external_type_specification]
#[verifier::external_body]
pub struct ExRegex(regex::Regex);

/// Whether a compiled regular expression matches somewhere in a
/// haystack. The answer is a function of the expression and the haystack
/// alone; nothing further is assumed about it.
pub uninterp spec fn spec_regex_match(re: regex::Regex, hay: Seq<char>) -> bool;

/// Relies on `regex::Regex::is_match`: whether the compiled pattern
/// matches somewhere in the haystack, named by [`spec_regex_match`].
pub assume_specification[ regex::Regex::is_match ](re: &regex::Regex, haystack: &str) -> (r:
    bool)
    ensures
        r == spec_regex_match(*re, haystack@),
;

/// The reserved payload text by which a handler voluntarily aborts the
/// rest of its scenario without being recorded as a failure.
pub open spec fn spec_test_skipped() -> Seq<char> {
    "Cucumber: test skipped"@
}

/// The reserved skip payload text.
pub fn test_skipped_text() -> (r: &'static str)
    ensures
        r@ == spec_test_skipped(),
{
    "Cucumber: test skipped"
}

/// The text read from an abnormal termination's payload: the payload's own
/// text when it carried one, and a fixed placeholder otherwise.
pub open spec fn spec_coerce_error(p: PanicPayloadView) -> Seq<char> {
    match p {
        PanicPayloadView::Text(s) => s,
        PanicPayloadView::Opaque => "(Could not resolve panic payload)"@,
    }
}

/// Reads the text of an abnormal termination's payload.
pub fn coerce_error(err: &PanicPayload) -> (r: String)
    ensures
        r@ == spec_coerce_error(err@),
{
    match err {
        PanicPayload::Text(s) => s.clone(),
        PanicPayload::Opaque => "(Could not resolve panic payload)".to_owned(),
    }
}

/// Classifies what a step handler's execution produced, after the race
/// against the timeout and the capture of output and termination details:
/// normal completion passes the new world on; a timeout is a timeout
/// failure, never an abnormal-termination one; a termination whose payload
/// reads exactly as the reserved skip text is a skip, not a failure; any
/// other termination is a failure carrying the captured output and the
/// recorded details, or a placeholder when nothing was recorded.
pub fn classify_step_result<W>(
    result: Result<W, TestError>,
    output: CapturedOutput,
    panic_info: Option<PanicInfo>,
) -> (ev: TestEvent<W>)
    ensures
        result matches Ok(w) ==> (ev matches TestEvent::Success(w2, out) && w2 == w && out@
            == output@),
        result matches Err(TestError::TimedOut) ==> (ev matches TestEvent::Failure(k) && k@
            == StepFailureKindView::TimedOut),
        (result matches Err(TestError::PanicError(p)) && spec_coerce_error(p@)
            == spec_test_skipped()) ==> ev is Skipped,
        (result matches Err(TestError::PanicError(p)) && spec_coerce_error(p@)
            != spec_test_skipped()) ==> (ev matches TestEvent::Failure(k) && k@
            == StepFailureKindView::Panic(
            output@,
            match panic_info {
                Some(pi) => pi@,
                None => spec_unknown_panic_info(),
            },
        )),
{
    match result {
        Ok(w) => TestEvent::Success(w, output),
        Err(TestError::TimedOut) => TestEvent::Failure(StepFailureKind::TimedOut),
        Err(TestError::PanicError(p)) => {
            let text = coerce_error(&p);
            let skip = test_skipped_text().to_owned();
            if text.eq(&skip) {
                TestEvent::Skipped
            } else {
                let pi = match panic_info {
                    Some(pi) => pi,
                    None => PanicInfo::unknown(),
                };
                TestEvent::Failure(StepFailureKind::Panic(output, pi))
            }
        },
    }
}

/// Whether some observed scenario terminal event is a failure by
/// abnormal termination.
pub open spec fn spec_any_scenario_panic(evs: Seq<ScenarioEventView>) -> bool {
    exists|i: int| 0 <= i < evs.len() && evs[i] == ScenarioEventView::Failed(FailureKind::Panic)
}

/// Whether some observed scenario terminal event is a failure by timeout.
pub open spec fn spec_any_scenario_timeout(evs: Seq<ScenarioEventView>) -> bool {
    exists|i: int|
        0 <= i < evs.len() && evs[i] == ScenarioEventView::Failed(FailureKind::TimedOut)
}

/// Whether some observed scenario terminal event is `Passed`.
pub open spec fn spec_any_scenario_passed(evs: Seq<ScenarioEventView>) -> bool {
    exists|i: int| 0 <= i < evs.len() && evs[i] is Passed
}

/// The terminal status of a rule, aggregated from its scenarios: a
/// failure by abnormal termination takes precedence, then a failure by
/// timeout, then `Passed` when at least one scenario passed, else
/// `Skipped`.
pub open spec fn spec_rule_terminal(panic: bool, timeout: bool, passed: bool) -> RuleEventView {
    if panic {
        RuleEventView::Failed(FailureKind::Panic)
    } else if timeout {
        RuleEventView::Failed(FailureKind::TimedOut)
    } else if passed {
        RuleEventView::Passed
    } else {
        RuleEventView::Skipped
    }
}

/// Observing one more scenario event extends each aggregate exactly by
/// what the new event is.
proof fn lemma_any_push(evs: Seq<ScenarioEventView>, e: ScenarioEventView)
    ensures
        spec_any_scenario_panic(evs.push(e)) == (spec_any_scenario_panic(evs) || e
            == ScenarioEventView::Failed(FailureKind::Panic)),
        spec_any_scenario_timeout(evs.push(e)) == (spec_any_scenario_timeout(evs) || e
            == ScenarioEventView::Failed(FailureKind::TimedOut)),
        spec_any_scenario_passed(evs.push(e)) == (spec_any_scenario_passed(evs) || e is Passed),
{
    let p = evs.push(e);
    assert(p[evs.len() as int] == e);
    assert forall|i: int| 0 <= i < evs.len() implies p[i] == evs[i] by {}
    if spec_any_scenario_panic(evs) {
        let i = choose|i: int|
            0 <= i < evs.len() && evs[i] == ScenarioEventView::Failed(FailureKind::Panic);
        assert(p[i] == ScenarioEventView::Failed(FailureKind::Panic));
    }
    if spec_any_scenario_timeout(evs) {
        let i = choose|i: int|
            0 <= i < evs.len() && evs[i] == ScenarioEventView::Failed(FailureKind::TimedOut);
        assert(p[i] == ScenarioEventView::Failed(FailureKind::TimedOut));
    }
    if spec_any_scenario_passed(evs) {
        let i = choose|i: int| 0 <= i < evs.len() && evs[i] is Passed;
        assert(p[i] is Passed);
    }
    if spec_any_scenario_panic(p) {
        let i = choose|i: int|
            0 <= i < p.len() && p[i] == ScenarioEventView::Failed(FailureKind::Panic);
        if i < evs.len() {
            assert(evs[i] == ScenarioEventView::Failed(FailureKind::Panic));
        }
    }
    if spec_any_scenario_timeout(p) {
        let i = choose|i: int|
            0 <= i < p.len() && p[i] == ScenarioEventView::Failed(FailureKind::TimedOut);
        if i < evs.len() {
            assert(evs[i] == ScenarioEventView::Failed(FailureKind::TimedOut));
        }
    }
    if spec_any_scenario_passed(p) {
        let i = choose|i: int| 0 <= i < p.len() && p[i] is Passed;
        if i < evs.len() {
            assert(evs[i] is Passed);
        }
    }
}

/// The events of one rule, driven scenario by scenario: every scenario
/// event is wrapped and observed, and the rule's terminal status
/// aggregates what was seen.
pub struct RuleDriver {
    /// Whether a scenario failed by abnormal termination.
    pub saw_panic: bool,
    /// Whether a scenario failed by timeout.
    pub saw_timeout: bool,
    /// Whether a scenario passed.
    pub saw_passed: bool,
    /// The views of every scenario event observed, in order.
    pub observed: Ghost<Seq<ScenarioEventView>>,
}

impl RuleDriver {
    /// The aggregation flags say exactly what the observed events show.
    pub open spec fn wf(self) -> bool {
        &&& self.saw_panic == spec_any_scenario_panic(self.observed@)
        &&& self.saw_timeout == spec_any_scenario_timeout(self.observed@)
        &&& self.saw_passed == spec_any_scenario_passed(self.observed@)
    }

    /// Opens a rule: nothing observed yet, and the `Starting` event is
    /// handed out.
    pub fn new() -> (r: (RuleDriver, RuleEvent))
        ensures
            r.0.wf(),
            r.0.observed@ == Seq::<ScenarioEventView>::empty(),
            r.1@ == RuleEventView::Starting,
    {
        let d = RuleDriver {
            saw_panic: false,
            saw_timeout: false,
            saw_passed: false,
            observed: Ghost(Seq::empty()),
        };
        (d, RuleEvent::Starting)
    }

    /// Observes one scenario event of a scenario belonging to the rule
    /// and wraps it in the rule's envelope.
    pub fn observe(&mut self, scenario: &Scenario, ev: ScenarioEvent) -> (r: RuleEvent)
        requires
            old(self).wf(),
        ensures
            final(self).wf(),
            final(self).observed@ == old(self).observed@.push(ev@),
            r@ == RuleEventView::Scenario(scenario@, ev@),
    {
        let ghost evv = ev@;
        match &ev {
            ScenarioEvent::Failed(FailureKind::Panic) => {
                self.saw_panic = true;
            },
            ScenarioEvent::Failed(FailureKind::TimedOut) => {
                self.saw_timeout = true;
            },
            ScenarioEvent::Passed => {
                self.saw_passed = true;
            },
            _ => {},
        }
        proof {
            lemma_any_push(old(self).observed@, evv);
        }
        self.observed = Ghost(self.observed@.push(evv));
        RuleEvent::Scenario(scenario.clone(), ev)
    }

    /// Closes the rule after the after-hooks, handing out its terminal
    /// event: the aggregate of every scenario observed.
    pub fn finish(&self) -> (r: RuleEvent)
        requires
            self.wf(),
        ensures
            r@ == spec_rule_terminal(
                spec_any_scenario_panic(self.observed@),
                spec_any_scenario_timeout(self.observed@),
                spec_any_scenario_passed(self.observed@),
            ),
    {
        if self.saw_panic {
            RuleEvent::Failed(FailureKind::Panic)
        } else if self.saw_timeout {
            RuleEvent::Failed(FailureKind::TimedOut)
        } else if self.saw_passed {
            RuleEvent::Passed
        } else {
            RuleEvent::Skipped
        }
    }
}

/// Every counter of `m` lies between zero and `b`.
pub open spec fn spec_stats_le(m: crate::stats::StatsModel, b: int) -> bool {
    &&& 0 <= m.total <= b
    &&& 0 <= m.skipped <= b
    &&& 0 <= m.passed <= b
    &&& 0 <= m.failed <= b
    &&& 0 <= m.timed_out <= b
}

/// Every counter of every level of `c` lies between zero and `b`.
pub open spec fn spec_collector_le(c: crate::stats::CollectorModel, b: int) -> bool {
    &&& spec_stats_le(c.features, b)
    &&& spec_stats_le(c.rules, b)
    &&& spec_stats_le(c.scenarios, b)
    &&& spec_stats_le(c.steps, b)
}

/// The events of one whole run: each feature's events are observed and
/// wrapped, the statistics are folded in step with the stream, and the
/// final result is frozen when the run finishes.
pub struct RunDriver {
    /// The streaming statistics.
    pub stats: crate::stats::StatsCollector,
    /// The views of every feature event observed, in order.
    pub observed: Ghost<Seq<crate::event::FeatureEventView>>,
}

impl RunDriver {
    /// The statistics are exactly the fold of the observed events.
    pub open spec fn wf(self) -> bool {
        &&& self.stats@ == crate::stats::spec_fold_feature_events(
            crate::stats::spec_empty_collector(),
            self.observed@,
        )
        &&& spec_collector_le(self.stats@, self.observed@.len() as int)
    }

    /// Opens a run at the given clock reading, handing out the run's
    /// `Starting` event.
    pub fn new(started: u64) -> (r: (RunDriver, crate::event::CucumberEvent))
        ensures
            r.0.wf(),
            r.0.stats.started == started,
            r.0.observed@ == Seq::<crate::event::FeatureEventView>::empty(),
            r.1@ == crate::event::CucumberEventView::Starting,
    {
        let d = RunDriver {
            stats: crate::stats::StatsCollector::new(started),
            observed: Ghost(Seq::empty()),
        };
        (d, crate::event::CucumberEvent::Starting)
    }

    /// Observes one feature event, folds it into the statistics, and
    /// wraps it in the run's envelope.
    pub fn observe_feature_event(
        &mut self,
        feature: &Feature,
        ev: crate::event::FeatureEvent,
    ) -> (r: crate::event::CucumberEvent)
        requires
            old(self).wf(),
            old(self).observed@.len() < u32::MAX,
        ensures
            final(self).wf(),
            final(self).observed@ == old(self).observed@.push(ev@),
            final(self).stats@ == crate::stats::spec_on_feature_event(old(self).stats@, ev@),
            final(self).stats.started == old(self).stats.started,
            r@ == crate::event::CucumberEventView::Feature(feature@, ev@),
    {
        let ghost evv = ev@;
        self.stats.handle_feature_event(&ev);
        self.observed = Ghost(self.observed@.push(evv));
        proof {
            assert(self.observed@.drop_last() =~= old(self).observed@);
            assert(self.observed@.last() == evv);
        }
        crate::event::CucumberEvent::Feature(feature.clone(), ev)
    }

    /// Closes the run at the given clock reading: the frozen result and
    /// the `Finished` event carrying it. The result's scenario total is
    /// exactly the number of scenario instances the stream started.
    pub fn finish(self, now: u64) -> (r: (RunResult, crate::event::CucumberEvent))
        requires
            self.wf(),
            self.stats.started <= now,
        ensures
            r.0@.started == self.stats.started,
            r.0@.elapsed == now - self.stats.started,
            crate::stats::spec_stats_model(r.0@.features) == self.stats@.features,
            crate::stats::spec_stats_model(r.0@.rules) == self.stats@.rules,
            crate::stats::spec_stats_model(r.0@.scenarios) == self.stats@.scenarios,
            crate::stats::spec_stats_model(r.0@.steps) == self.stats@.steps,
            r.0@.failed_scenarios == self.stats@.failed_scenarios,
            r.0@.timed_out_scenarios == self.stats@.timed_out_scenarios,
            r.0@.scenarios.total == crate::stats::spec_count_scenario_starts(self.observed@),
            r.1@ == crate::event::CucumberEventView::Finished(r.0@),
    {
        let ghost obs = self.observed@;
        let ghost started_stats = self.stats@;
        let res = self.stats.collect(now);
        proof {
            crate::stats::lemma_scenario_total_counts_starts(
                crate::stats::spec_empty_collector(),
                obs,
            );
        }
        let ev = crate::event::CucumberEvent::Finished(res.clone());
        (res, ev)
    }
}

/// The configuration of one run: the features to execute, the per-step
/// time limit, whether to capture output, the optional scenario-name
/// filter, and the lifecycle hooks' criteria in registration order. The
/// hooks' bodies stay with the host; they are addressed here by index.
pub struct Runner {
    /// The features, in input order.
    pub features: Vec<Feature>,
    /// The per-step time limit, in milliseconds, if one is configured.
    pub step_timeout: Option<u64>,
    /// Whether output written during a step is captured.
    pub enable_capture: bool,
    /// The scenario-name filter, if one is configured.
    pub scenario_filter: Option<regex::Regex>,
    /// The criteria of the before-hooks, in registration order.
    pub before: Vec<Criteria>,
    /// The criteria of the after-hooks, in registration order.
    pub after: Vec<Criteria>,
}

impl Runner {
    /// Packs a run's configuration.
    pub fn new(
        features: Vec<Feature>,
        step_timeout: Option<u64>,
        enable_capture: bool,
        scenario_filter: Option<regex::Regex>,
        before: Vec<Criteria>,
        after: Vec<Criteria>,
    ) -> (res: std::rc::Rc<Runner>)
        ensures
            res.features == features,
            res.step_timeout == step_timeout,
            res.enable_capture == enable_capture,
            res.scenario_filter == scenario_filter,
            res.before == before,
            res.after == after,
    {
        std::rc::Rc::new(
            Runner { features, step_timeout, enable_capture, scenario_filter, before, after },
        )
    }

    /// Applies the optional scenario-name filter: with no filter
    /// configured, every scenario is selected; with one, the regular
    /// expression decides against the scenario's name, and a scenario it
    /// rejects produces no events at all.
    pub fn scenario_selected(&self, scenario: &Scenario) -> (r: bool)
        ensures
            self.scenario_filter is None ==> r,
            self.scenario_filter matches Some(re) ==> r == spec_regex_match(
                re,
                scenario@.name,
            ),
    {
        match &self.scenario_filter {
            None => true,
            Some(re) => re.is_match(scenario.name.as_str()),
        }
    }

    /// Whether the before-hook at `i` fires at the given location: its
    /// criteria must be of the given scope and its tag tokens visible
    /// there.
    pub fn before_applies(
        &self,
        i: usize,
        scope: HookScope,
        feature: &Feature,
        rule: Option<&Rule>,
        scenario: Option<&Scenario>,
    ) -> (r: bool)
        requires
            i < self.before@.len(),
        ensures
            r == (self.before.deep_view()[i as int].scope == scope && spec_eval(
                self.before.deep_view()[i as int].tags,
                feature@,
                rule.deep_view(),
                scenario.deep_view(),
            )),
    {
        let c = &self.before[i];
        let scope_matches = match (c.scope, scope) {
            (HookScope::Feature, HookScope::Feature) => true,
            (HookScope::Rule, HookScope::Rule) => true,
            (HookScope::Scenario, HookScope::Scenario) => true,
            _ => false,
        };
        scope_matches && c.eval(feature, rule, scenario)
    }

    /// Whether the after-hook at `i` fires at the given location.
    pub fn after_applies(
        &self,
        i: usize,
        scope: HookScope,
        feature: &Feature,
        rule: Option<&Rule>,
        scenario: Option<&Scenario>,
    ) -> (r: bool)
        requires
            i < self.after@.len(),
        ensures
            r == (self.after.deep_view()[i as int].scope == scope && spec_eval(
                self.after.deep_view()[i as int].tags,
                feature@,
                rule.deep_view(),
                scenario.deep_view(),
            )),
    {
        let c = &self.after[i];
        let scope_matches = match (c.scope, scope) {
            (HookScope::Feature, HookScope::Feature) => true,
            (HookScope::Rule, HookScope::Rule) => true,
            (HookScope::Scenario, HookScope::Scenario) => true,
            _ => false,
        };
        scope_matches && c.eval(feature, rule, scenario)
    }
}

/// The envelope of one step event within a scenario: background steps are
/// wrapped as `Background`, scenario steps as `Step`.
pub open spec fn spec_wrap_step(
    steps: Seq<StepView>,
    nbg: int,
    i: int,
    e: StepEventView,
) -> ScenarioEventView {
    if i < nbg {
        ScenarioEventView::Background(steps[i], e)
    } else {
        ScenarioEventView::Step(steps[i], e)
    }
}

/// The scenario terminal event a non-passing step outcome forces: a
/// failure keeps its kind, an unimplemented or skipped step skips the
/// scenario.
pub open spec fn spec_scenario_terminal_of(e: StepEventView) -> ScenarioEventView {
    match e {
        StepEventView::Failed(k) => ScenarioEventView::Failed(spec_failure_kind_of(k)),
        _ => ScenarioEventView::Skipped,
    }
}

/// The scenario events one attempted step with outcome `o` contributes:
/// its `Starting` envelope, its outcome envelope, and, when the outcome
/// halts the scenario, the terminal event right after.
pub open spec fn spec_step_chunk(
    steps: Seq<StepView>,
    nbg: int,
    i: int,
    o: StepEventView,
) -> Seq<ScenarioEventView> {
    let head = seq![
        spec_wrap_step(steps, nbg, i, StepEventView::Starting),
        spec_wrap_step(steps, nbg, i, o),
    ];
    if o is Passed {
        head
    } else {
        head.push(spec_scenario_terminal_of(o))
    }
}

/// The scenario events produced by attempting steps from index `i` on,
/// one outcome per attempted step: steps are attempted in order and the
/// first non-passing outcome halts the scenario, so outcomes past it are
/// never consumed.
pub open spec fn spec_steps_events(
    steps: Seq<StepView>,
    nbg: int,
    i: int,
    outcomes: Seq<StepEventView>,
) -> Seq<ScenarioEventView>
    decreases outcomes.len(),
{
    if outcomes.len() == 0 || i < 0 || i >= steps.len() {
        Seq::empty()
    } else if outcomes[0] is Passed {
        spec_step_chunk(steps, nbg, i, outcomes[0]) + spec_steps_events(
            steps,
            nbg,
            i + 1,
            outcomes.drop_first(),
        )
    } else {
        spec_step_chunk(steps, nbg, i, outcomes[0])
    }
}

/// Appending one more outcome to an all-passing run appends exactly that
/// step's chunk of events.
proof fn lemma_steps_events_snoc(
    steps: Seq<StepView>,
    nbg: int,
    i: int,
    outcomes: Seq<StepEventView>,
    o: StepEventView,
)
    requires
        0 <= i,
        i + outcomes.len() < steps.len(),
        forall|k: int| 0 <= k < outcomes.len() ==> outcomes[k] is Passed,
    ensures
        spec_steps_events(steps, nbg, i, outcomes.push(o)) == spec_steps_events(
            steps,
            nbg,
            i,
            outcomes,
        ) + spec_step_chunk(steps, nbg, i + outcomes.len(), o),
    decreases outcomes.len(),
{
    let lhs = spec_steps_events(steps, nbg, i, outcomes.push(o));
    if outcomes.len() == 0 {
        assert(outcomes.push(o)[0] == o);
        assert(outcomes.push(o).drop_first() =~= Seq::<StepEventView>::empty());
        assert(spec_steps_events(steps, nbg, i, outcomes) =~= Seq::<ScenarioEventView>::empty());
        if o is Passed {
            assert(spec_steps_events(steps, nbg, i + 1, Seq::empty()) =~= Seq::<
                ScenarioEventView,
            >::empty());
            assert(lhs =~= spec_step_chunk(steps, nbg, i, o));
        }
        assert(lhs =~= spec_steps_events(steps, nbg, i, outcomes) + spec_step_chunk(
            steps,
            nbg,
            i,
            o,
        ));
    } else {
        assert(outcomes.push(o)[0] == outcomes[0]);
        assert(outcomes[0] is Passed);
        assert(outcomes.push(o).drop_first() =~= outcomes.drop_first().push(o));
        lemma_steps_events_snoc(steps, nbg, i + 1, outcomes.drop_first(), o);
        assert(i + 1 + outcomes.drop_first().len() == i + outcomes.len());
        assert(lhs =~= spec_steps_events(steps, nbg, i, outcomes) + spec_step_chunk(
            steps,
            nbg,
            i + outcomes.len(),
            o,
        ));
    }
}

/// Whether a scenario event is a step envelope (background or scenario
/// step).
pub open spec fn spec_is_step_event(e: ScenarioEventView) -> bool {
    match e {
        ScenarioEventView::Background(_, _) => true,
        ScenarioEventView::Step(_, _) => true,
        _ => false,
    }
}

/// Whether a scenario event is a step `Starting` envelope.
pub open spec fn spec_is_step_starting(e: ScenarioEventView) -> bool {
    match e {
        ScenarioEventView::Background(_, se) => se is Starting,
        ScenarioEventView::Step(_, se) => se is Starting,
        _ => false,
    }
}

/// Whether a scenario event is a terminal step envelope: a step outcome,
/// not a `Starting`.
pub open spec fn spec_is_step_terminal(e: ScenarioEventView) -> bool {
    spec_is_step_event(e) && !spec_is_step_starting(e)
}

/// Whether a scenario event is a terminal step envelope whose outcome did
/// not pass.
pub open spec fn spec_is_nonpassed_step_terminal(e: ScenarioEventView) -> bool {
    match e {
        ScenarioEventView::Background(_, se) => !(se is Starting) && !(se is Passed),
        ScenarioEventView::Step(_, se) => !(se is Starting) && !(se is Passed),
        _ => false,
    }
}

/// How many events of `events` satisfy `p`.
pub open spec fn spec_count(events: Seq<ScenarioEventView>, p: spec_fn(ScenarioEventView) -> bool) -> int
    decreases events.len(),
{
    if events.len() == 0 {
        0
    } else {
        (if p(events[0]) {
            1int
        } else {
            0int
        }) + spec_count(events.drop_first(), p)
    }
}

/// How many step `Starting` envelopes `events` holds.
pub open spec fn spec_count_step_starting(events: Seq<ScenarioEventView>) -> int {
    spec_count(events, |e: ScenarioEventView| spec_is_step_starting(e))
}

/// How many terminal step envelopes `events` holds.
pub open spec fn spec_count_step_terminal(events: Seq<ScenarioEventView>) -> int {
    spec_count(events, |e: ScenarioEventView| spec_is_step_terminal(e))
}

/// How many scenario `Starting` events `events` holds.
pub open spec fn spec_count_scenario_starting(events: Seq<ScenarioEventView>) -> int {
    spec_count(events, |e: ScenarioEventView| e is Starting)
}

/// The skip-cascade, as seen in the event stream: once a terminal step
/// event that did not pass has been emitted, no further step event of any
/// kind follows for that scenario.
pub open spec fn spec_skip_cascade_holds(events: Seq<ScenarioEventView>) -> bool {
    forall|i: int, j: int|
        0 <= i < j < events.len() && spec_is_nonpassed_step_terminal(events[i])
            ==> !spec_is_step_event(events[j])
}

/// Counting distributes over concatenation.
proof fn lemma_count_concat(
    a: Seq<ScenarioEventView>,
    b: Seq<ScenarioEventView>,
    p: spec_fn(ScenarioEventView) -> bool,
)
    ensures
        spec_count(a + b, p) == spec_count(a, p) + spec_count(b, p),
    decreases a.len(),
{
    if a.len() == 0 {
        assert(a + b =~= b);
    } else {
        assert((a + b)[0] == a[0]);
        assert((a + b).drop_first() =~= a.drop_first() + b);
        lemma_count_concat(a.drop_first(), b, p);
    }
}

/// The counts and ordering facts of the step-event model: starting and
/// terminal envelopes balance, no scenario `Starting` appears, a
/// non-passing terminal can only be second-to-last with the scenario
/// terminal after it, and an all-passing run has no non-passing terminal.
proof fn lemma_se_props(steps: Seq<StepView>, nbg: int, i: int, outcomes: Seq<StepEventView>)
    requires
        forall|k: int| 0 <= k < outcomes.len() ==> !(outcomes[k] is Starting),
    ensures
        spec_count_step_starting(spec_steps_events(steps, nbg, i, outcomes))
            == spec_count_step_terminal(spec_steps_events(steps, nbg, i, outcomes)),
        spec_count_scenario_starting(spec_steps_events(steps, nbg, i, outcomes)) == 0,
        forall|k: int|
            #![trigger spec_steps_events(steps, nbg, i, outcomes)[k]]
            0 <= k < spec_steps_events(steps, nbg, i, outcomes).len()
                && spec_is_nonpassed_step_terminal(spec_steps_events(steps, nbg, i, outcomes)[k])
                ==> k == spec_steps_events(steps, nbg, i, outcomes).len() - 2
                && !spec_is_step_event(
                spec_steps_events(steps, nbg, i, outcomes)[spec_steps_events(
                    steps,
                    nbg,
                    i,
                    outcomes,
                ).len() - 1],
            ),
        (forall|k: int| 0 <= k < outcomes.len() ==> outcomes[k] is Passed) ==> (forall|k: int|
            #![trigger spec_steps_events(steps, nbg, i, outcomes)[k]]
            0 <= k < spec_steps_events(steps, nbg, i, outcomes).len() ==> !spec_is_nonpassed_step_terminal(
                spec_steps_events(steps, nbg, i, outcomes)[k],
            )),
    decreases outcomes.len(),
{
    reveal_with_fuel(spec_count, 5);
    let se = spec_steps_events(steps, nbg, i, outcomes);
    let p_start = |e: ScenarioEventView| spec_is_step_starting(e);
    let p_term = |e: ScenarioEventView| spec_is_step_terminal(e);
    let p_scstart = |e: ScenarioEventView| e is Starting;
    if outcomes.len() == 0 || i < 0 || i >= steps.len() {
    } else {
        let o = outcomes[0];
        let chunk = spec_step_chunk(steps, nbg, i, o);
        let s0 = spec_wrap_step(steps, nbg, i, StepEventView::Starting);
        let s1 = spec_wrap_step(steps, nbg, i, o);
        assert(chunk[0] == s0 && chunk[1] == s1);
        if o is Passed {
            let tail = spec_steps_events(steps, nbg, i + 1, outcomes.drop_first());
            assert(se == chunk + tail);
            lemma_se_props(steps, nbg, i + 1, outcomes.drop_first());
            lemma_count_concat(chunk, tail, p_start);
            lemma_count_concat(chunk, tail, p_term);
            lemma_count_concat(chunk, tail, p_scstart);
            assert(chunk.drop_first() =~= seq![s1]);
            assert(seq![s1].drop_first() =~= Seq::<ScenarioEventView>::empty());
            assert(spec_count(chunk, p_start) == 1);
            assert(spec_count(chunk, p_term) == 1);
            assert(spec_count(chunk, p_scstart) == 0);
            assert forall|k: int|
                0 <= k < se.len() && spec_is_nonpassed_step_terminal(#[trigger] se[k]) implies k
                == se.len() - 2 && !spec_is_step_event(se[se.len() - 1]) by {
                if k < 2 {
                    assert(se[k] == chunk[k]);
                    assert(!spec_is_nonpassed_step_terminal(se[k]));
                } else {
                    assert(se[k] == tail[k - 2]);
                    assert(se[se.len() - 1] == tail[tail.len() - 1]);
                }
            }
            if forall|k: int| 0 <= k < outcomes.len() ==> outcomes[k] is Passed {
                assert forall|k: int|
                    0 <= k < se.len() implies !spec_is_nonpassed_step_terminal(
                    #[trigger] se[k],
                ) by {
                    if k < 2 {
                        assert(se[k] == chunk[k]);
                    } else {
                        assert(se[k] == tail[k - 2]);
                    }
                }
            }
        } else {
            let term = spec_scenario_terminal_of(o);
            assert(se == chunk);
            assert(se =~= seq![s0, s1, term]);
            assert(se.drop_first() =~= seq![s1, term]);
            assert(seq![s1, term].drop_first() =~= seq![term]);
            assert(seq![term].drop_first() =~= Seq::<ScenarioEventView>::empty());
            assert(spec_count(se, p_start) == 1);
            assert(spec_count(se, p_term) == 1);
            assert(spec_count(se, p_scstart) == 0);
        }
    }
}

/// For every scenario run that has been driven to completion: the number
/// of step `Starting` events equals the number of terminal step events,
/// the scenario's own `Starting` event appears exactly once, and the
/// first non-passing terminal step event — if any — is the last step
/// event of the run.
pub proof fn lemma_scenario_run_events(d: ScenarioDriver)
    requires
        d.wf(),
        d.done,
    ensures
        spec_count_step_starting(d.events@) == spec_count_step_terminal(d.events@),
        spec_count_scenario_starting(d.events@) == 1,
        spec_skip_cascade_holds(d.events@),
{
    reveal_with_fuel(spec_count, 5);
    let p_start = |e: ScenarioEventView| spec_is_step_starting(e);
    let p_term = |e: ScenarioEventView| spec_is_step_terminal(e);
    let p_scstart = |e: ScenarioEventView| e is Starting;
    let a = seq![ScenarioEventView::Starting(d.example@)];
    let se = spec_steps_events(d.steps.deep_view(), d.n_background as int, 0, d.outcomes@);
    let e2: Seq<ScenarioEventView> = if d.done && !d.halted {
        seq![ScenarioEventView::Passed]
    } else {
        Seq::empty()
    };
    assert(d.events@ == a + se + Seq::<ScenarioEventView>::empty() + e2);
    assert(a + se + Seq::<ScenarioEventView>::empty() + e2 =~= a + se + e2);
    lemma_se_props(d.steps.deep_view(), d.n_background as int, 0, d.outcomes@);
    lemma_count_concat(a + se, e2, p_start);
    lemma_count_concat(a, se, p_start);
    lemma_count_concat(a + se, e2, p_term);
    lemma_count_concat(a, se, p_term);
    lemma_count_concat(a + se, e2, p_scstart);
    lemma_count_concat(a, se, p_scstart);
    assert(a.drop_first() =~= Seq::<ScenarioEventView>::empty());
    assert(spec_count(a, p_start) == 0);
    assert(spec_count(a, p_term) == 0);
    assert(spec_count(a, p_scstart) == 1);
    if e2.len() > 0 {
        assert(e2.drop_first() =~= Seq::<ScenarioEventView>::empty());
        assert(spec_count(e2, p_start) == 0);
        assert(spec_count(e2, p_term) == 0);
        assert(spec_count(e2, p_scstart) == 0);
    }
    let whole = a + se + e2;
    assert forall|i: int, j: int|
        0 <= i < j < whole.len() && spec_is_nonpassed_step_terminal(whole[i]) implies !spec_is_step_event(
        whole[j],
    ) by {
        assert(!spec_is_nonpassed_step_terminal(a[0]));
        if i >= 1 && i < 1 + se.len() {
            assert(whole[i] == se[i - 1]);
            if d.halted {
                assert(i - 1 == se.len() - 2);
                if j < 1 + se.len() {
                    assert(whole[j] == se[j - 1]);
                    assert(j - 1 == se.len() - 1);
                    assert(!spec_is_step_event(se[se.len() - 1]));
                } else {
                    assert(e2.len() == 0);
                    assert(j < whole.len());
                    assert(false);
                }
            } else {
                assert(!spec_is_nonpassed_step_terminal(se[i - 1]));
                assert(false);
            }
        } else if i >= 1 + se.len() {
            assert(whole[i] == e2[i - 1 - se.len()]);
            assert(!spec_is_nonpassed_step_terminal(ScenarioEventView::Passed));
            assert(false);
        }
    }
    assert(spec_skip_cascade_holds(whole));
}

/// A scenario whose first attempted step is unmatched by the resolver:
/// the run's events are exactly the scenario `Starting`, the step's
/// `Starting` envelope, one `Unimplemented` step event, and the terminal
/// `Skipped` — no further step event is ever produced.
pub proof fn lemma_unimplemented_first_step(d: ScenarioDriver)
    requires
        d.wf(),
        d.done,
        d.outcomes@.len() >= 1,
        d.outcomes@[0] is Unimplemented,
    ensures
        d.events@ =~= seq![
            ScenarioEventView::Starting(d.example@),
            spec_wrap_step(
                d.steps.deep_view(),
                d.n_background as int,
                0,
                StepEventView::Starting,
            ),
            spec_wrap_step(
                d.steps.deep_view(),
                d.n_background as int,
                0,
                StepEventView::Unimplemented,
            ),
            ScenarioEventView::Skipped,
        ],
{
    let o = d.outcomes@[0];
    assert(d.halted) by {
        if !d.halted {
            assert(d.outcomes@[0] is Passed);
        }
    }
    assert(d.next == 1) by {
        if d.next > 1 {
            assert(d.outcomes@[0] is Passed);
        }
    }
    assert(d.outcomes@ =~= seq![o]);
    let se = spec_steps_events(d.steps.deep_view(), d.n_background as int, 0, d.outcomes@);
    assert(0 < d.steps@.len());
    assert(se == spec_step_chunk(d.steps.deep_view(), d.n_background as int, 0, o));
    assert(spec_scenario_terminal_of(o) == ScenarioEventView::Skipped);
    assert(d.events@ =~= seq![ScenarioEventView::Starting(d.example@)] + se);
}

/// The events of one scenario run, resumable step by step.
///
/// The host drives it: `begin_step` hands out the next step to attempt
/// together with its `Starting` envelope, `finish_step` records the
/// outcome the host observed and hands back the events to emit, and
/// `finish` closes the run after the after-hooks. The ghost fields hold
/// the views of every event handed out and every outcome recorded, and
/// well-formedness ties them exactly to the event model
/// [`spec_steps_events`].
pub struct ScenarioDriver {
    /// How many of `steps` are background steps.
    pub n_background: usize,
    /// The background steps, then the scenario's own steps.
    pub steps: Vec<Step>,
    /// The index of the next step to attempt.
    pub next: usize,
    /// Whether a step's `Starting` envelope is out with no outcome yet.
    pub pending: bool,
    /// Whether a non-passing outcome halted the scenario.
    pub halted: bool,
    /// Whether the run is closed.
    pub done: bool,
    /// The example row this instance runs under.
    pub example: Ghost<ExampleValuesView>,
    /// The outcomes recorded so far, one per attempted step.
    pub outcomes: Ghost<Seq<StepEventView>>,
    /// The views of every scenario event handed out so far, in order.
    pub events: Ghost<Seq<ScenarioEventView>>,
}

impl ScenarioDriver {
    /// The driver's state is internally consistent and its events are
    /// exactly those of the event model.
    pub open spec fn wf(self) -> bool {
        &&& self.n_background <= self.steps@.len()
        &&& self.outcomes@.len() == self.next
        &&& self.next <= self.steps@.len()
        &&& (forall|k: int| 0 <= k < self.outcomes@.len() ==> !(self.outcomes@[k] is Starting))
        &&& (!self.halted ==> forall|k: int|
            0 <= k < self.outcomes@.len() ==> self.outcomes@[k] is Passed)
        &&& (self.halted ==> self.next >= 1 && !(self.outcomes@[self.next - 1] is Passed)
            && forall|k: int| 0 <= k < self.next - 1 ==> self.outcomes@[k] is Passed)
        &&& (self.pending ==> !self.halted && !self.done && self.next < self.steps@.len())
        &&& (self.done ==> !self.pending)
        &&& self.events@ == seq![ScenarioEventView::Starting(self.example@)] + spec_steps_events(
            self.steps.deep_view(),
            self.n_background as int,
            0,
            self.outcomes@,
        ) + (if self.pending {
            seq![
                spec_wrap_step(
                    self.steps.deep_view(),
                    self.n_background as int,
                    self.next as int,
                    StepEventView::Starting,
                ),
            ]
        } else {
            Seq::<ScenarioEventView>::empty()
        }) + (if self.done && !self.halted {
            seq![ScenarioEventView::Passed]
        } else {
            Seq::<ScenarioEventView>::empty()
        })
    }

    /// Opens a scenario run: the steps are the feature's background steps
    /// followed by the (already expanded) scenario's steps, and the
    /// `Starting` event is handed out.
    pub fn new(feature: &Feature, scenario: &Scenario, example: ExampleValues) -> (r: (
        ScenarioDriver,
        ScenarioEvent,
    ))
        ensures
            r.0.wf(),
            r.0.steps.deep_view() == feature@.background + scenario@.steps,
            r.0.n_background == feature@.background.len(),
            r.0.example@ == example@,
            r.0.next == 0,
            !r.0.pending,
            !r.0.halted,
            !r.0.done,
            r.0.outcomes@ == Seq::<StepEventView>::empty(),
            r.0.events@ == seq![ScenarioEventView::Starting(example@)],
            r.1@ == ScenarioEventView::Starting(example@),
    {
        let mut steps: Vec<Step> = Vec::new();
        let mut i: usize = 0;
        while i < feature.background.len()
            invariant
                i <= feature.background@.len(),
                steps.deep_view() =~= feature@.background.take(i as int),
            decreases feature.background@.len() - i,
        {
            let c = feature.background[i].clone();
            let ghost pre = steps;
            steps.push(c);
            proof {
                crate::model::lemma_push_deep_view(pre, steps, steps[steps.len() - 1]);
                assert(steps.deep_view() =~= feature@.background.take(i + 1));
            }
            i += 1;
        }
        proof {
            assert(feature@.background.take(feature.background@.len() as int)
                =~= feature@.background);
        }
        let n_background = steps.len();
        let mut j: usize = 0;
        while j < scenario.steps.len()
            invariant
                j <= scenario.steps@.len(),
                steps.deep_view() =~= feature@.background + scenario@.steps.take(j as int),
            decreases scenario.steps@.len() - j,
        {
            let c = scenario.steps[j].clone();
            let ghost pre = steps;
            steps.push(c);
            proof {
                crate::model::lemma_push_deep_view(pre, steps, steps[steps.len() - 1]);
                assert(steps.deep_view() =~= feature@.background + scenario@.steps.take(j + 1));
            }
            j += 1;
        }
        proof {
            assert(scenario@.steps.take(scenario.steps@.len() as int) =~= scenario@.steps);
        }
        let ghost ex = example@;
        let ghost evs0: Seq<ScenarioEventView> = seq![ScenarioEventView::Starting(ex)];
        let ev = ScenarioEvent::Starting(example);
        let driver = ScenarioDriver {
            n_background,
            steps,
            next: 0,
            pending: false,
            halted: false,
            done: false,
            example: Ghost(ex),
            outcomes: Ghost(Seq::empty()),
            events: Ghost(evs0),
        };
        proof {
            assert(spec_steps_events(
                driver.steps.deep_view(),
                driver.n_background as int,
                0,
                Seq::empty(),
            ) =~= Seq::<ScenarioEventView>::empty());
            assert(driver.events@ =~= seq![ScenarioEventView::Starting(ex)] + spec_steps_events(
                driver.steps.deep_view(),
                driver.n_background as int,
                0,
                driver.outcomes@,
            ) + Seq::<ScenarioEventView>::empty() + Seq::<ScenarioEventView>::empty());
        }
        (driver, ev)
    }

    /// Hands out the next step to attempt together with its `Starting`
    /// envelope, or nothing when the scenario is halted or exhausted:
    /// after a non-passing outcome no further step is ever attempted.
    pub fn begin_step(&mut self) -> (r: Option<(Step, ScenarioEvent)>)
        requires
            old(self).wf(),
            !old(self).pending,
            !old(self).done,
        ensures
            final(self).wf(),
            final(self).steps == old(self).steps,
            final(self).n_background == old(self).n_background,
            final(self).example == old(self).example,
            final(self).next == old(self).next,
            final(self).halted == old(self).halted,
            final(self).done == old(self).done,
            final(self).outcomes == old(self).outcomes,
            match r {
                Some(p) => {
                    &&& !old(self).halted
                    &&& old(self).next < old(self).steps@.len()
                    &&& final(self).pending
                    &&& p.0@ == old(self).steps.deep_view()[old(self).next as int]
                    &&& p.1@ == spec_wrap_step(
                        old(self).steps.deep_view(),
                        old(self).n_background as int,
                        old(self).next as int,
                        StepEventView::Starting,
                    )
                    &&& final(self).events@ == old(self).events@.push(p.1@)
                },
                None => {
                    &&& (old(self).halted || old(self).next == old(self).steps@.len())
                    &&& !final(self).pending
                    &&& final(self).events@ == old(self).events@
                },
            },
    {
        if self.halted || self.next >= self.steps.len() {
            return None;
        }
        let step = self.steps[self.next].clone();
        let wrapped_step = step.clone();
        let ev = if self.next < self.n_background {
            ScenarioEvent::Background(wrapped_step, StepEvent::Starting)
        } else {
            ScenarioEvent::Step(wrapped_step, StepEvent::Starting)
        };
        proof {
            assert(self.steps.deep_view()[self.next as int] == self.steps@[self.next as int]@);
            assert(ev@ == spec_wrap_step(
                self.steps.deep_view(),
                self.n_background as int,
                self.next as int,
                StepEventView::Starting,
            ));
        }
        self.pending = true;
        self.events = Ghost(self.events@.push(ev@));
        proof {
            assert(self.events@ =~= seq![ScenarioEventView::Starting(self.example@)]
                + spec_steps_events(
                self.steps.deep_view(),
                self.n_background as int,
                0,
                self.outcomes@,
            ) + seq![
                spec_wrap_step(
                    self.steps.deep_view(),
                    self.n_background as int,
                    self.next as int,
                    StepEventView::Starting,
                ),
            ] + Seq::<ScenarioEventView>::empty());
        }
        Some((step, ev))
    }

    /// Records the outcome of the step handed out last, and hands back the
    /// events to emit: the outcome's envelope and, when the outcome does
    /// not pass, the scenario's terminal event right after it — the
    /// skip-cascade that halts every later step.
    pub fn finish_step(&mut self, outcome: StepEvent) -> (evs: Vec<ScenarioEvent>)
        requires
            old(self).wf(),
            old(self).pending,
            !(outcome@ is Starting),
        ensures
            final(self).wf(),
            final(self).steps == old(self).steps,
            final(self).n_background == old(self).n_background,
            final(self).example == old(self).example,
            final(self).next == old(self).next + 1,
            !final(self).pending,
            !final(self).done,
            final(self).halted == !(outcome@ is Passed),
            final(self).outcomes@ == old(self).outcomes@.push(outcome@),
            evs.deep_view() == spec_step_chunk(
                old(self).steps.deep_view(),
                old(self).n_background as int,
                old(self).next as int,
                outcome@,
            ).drop_first(),
            final(self).events@ == old(self).events@ + evs.deep_view(),
    {
        let ghost o = outcome@;
        let ghost old_outcomes = self.outcomes@;
        let terminal: Option<ScenarioEvent> = match &outcome {
            StepEvent::Failed(k) => Some(ScenarioEvent::Failed(failure_kind_of(k))),
            StepEvent::Skipped => Some(ScenarioEvent::Skipped),
            StepEvent::Unimplemented => Some(ScenarioEvent::Skipped),
            StepEvent::Passed(_) => None,
            StepEvent::Starting => None,
        };
        let step = self.steps[self.next].clone();
        let wrapped = if self.next < self.n_background {
            ScenarioEvent::Background(step, outcome)
        } else {
            ScenarioEvent::Step(step, outcome)
        };
        proof {
            assert(self.steps.deep_view()[self.next as int] == self.steps@[self.next as int]@);
            assert(wrapped@ == spec_wrap_step(
                self.steps.deep_view(),
                self.n_background as int,
                self.next as int,
                o,
            ));
        }
        let mut evs: Vec<ScenarioEvent> = Vec::new();
        let ghost pre0 = evs;
        evs.push(wrapped);
        proof {
            crate::model::lemma_push_deep_view(pre0, evs, evs[evs.len() - 1]);
        }
        self.pending = false;
        let total = self.steps.len();
        proof {
            assert(self.next < total);
        }
        self.next += 1;
        self.outcomes = Ghost(old_outcomes.push(o));
        match terminal {
            Some(t) => {
                proof {
                    assert(t@ == spec_scenario_terminal_of(o));
                }
                self.halted = true;
                let ghost pre1 = evs;
                evs.push(t);
                proof {
                    crate::model::lemma_push_deep_view(pre1, evs, evs[evs.len() - 1]);
                }
            },
            None => {},
        }
        proof {
            assert(evs.deep_view() =~= spec_step_chunk(
                old(self).steps.deep_view(),
                old(self).n_background as int,
                old(self).next as int,
                o,
            ).drop_first());
            lemma_steps_events_snoc(
                self.steps.deep_view(),
                self.n_background as int,
                0,
                old_outcomes,
                o,
            );
        }
        self.events = Ghost(old(self).events@ + evs.deep_view());
        proof {
            let chunk = spec_step_chunk(
                self.steps.deep_view(),
                self.n_background as int,
                old(self).next as int,
                o,
            );
            assert(chunk[0] == spec_wrap_step(
                self.steps.deep_view(),
                self.n_background as int,
                old(self).next as int,
                StepEventView::Starting,
            ));
            assert(old(self).events@ + evs.deep_view() =~= (seq![
                ScenarioEventView::Starting(self.example@),
            ] + spec_steps_events(
                self.steps.deep_view(),
                self.n_background as int,
                0,
                old_outcomes,
            )) + chunk);
            assert(self.events@ =~= seq![ScenarioEventView::Starting(self.example@)]
                + spec_steps_events(
                self.steps.deep_view(),
                self.n_background as int,
                0,
                self.outcomes@,
            ) + Seq::<ScenarioEventView>::empty() + Seq::<ScenarioEventView>::empty());
        }
        evs
    }

    /// Closes the run after the after-hooks: when every step passed (or
    /// there was none), the terminal `Passed` event is handed out; a
    /// halted scenario already emitted its terminal event.
    pub fn finish(&mut self) -> (r: Option<ScenarioEvent>)
        requires
            old(self).wf(),
            !old(self).pending,
            !old(self).done,
            old(self).halted || old(self).next == old(self).steps@.len(),
        ensures
            final(self).wf(),
            final(self).done,
            final(self).steps == old(self).steps,
            final(self).n_background == old(self).n_background,
            final(self).example == old(self).example,
            final(self).next == old(self).next,
            final(self).halted == old(self).halted,
            final(self).outcomes == old(self).outcomes,
            old(self).halted ==> r is None && final(self).events@ == old(self).events@,
            !old(self).halted ==> (match r {
                Some(e) => e@ == ScenarioEventView::Passed && final(self).events@ == old(
                    self,
                ).events@.push(ScenarioEventView::Passed),
                None => false,
            }),
    {
        self.done = true;
        if self.halted {
            proof {
                assert(self.events@ =~= seq![ScenarioEventView::Starting(self.example@)]
                    + spec_steps_events(
                    self.steps.deep_view(),
                    self.n_background as int,
                    0,
                    self.outcomes@,
                ) + Seq::<ScenarioEventView>::empty() + Seq::<ScenarioEventView>::empty());
            }
            None
        } else {
            self.events = Ghost(self.events@.push(ScenarioEventView::Passed));
            proof {
                assert(self.events@ =~= seq![ScenarioEventView::Starting(self.example@)]
                    + spec_steps_events(
                    self.steps.deep_view(),
                    self.n_background as int,
                    0,
                    self.outcomes@,
                ) + Seq::<ScenarioEventView>::empty() + seq![ScenarioEventView::Passed]);
            }
            Some(ScenarioEvent::Passed)
        }
    }
}

} // verus!
