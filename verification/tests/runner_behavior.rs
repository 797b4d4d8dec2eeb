use cucumber_core::criteria::Criteria;
use cucumber_core::criteria::HookScope;
use cucumber_core::event::CapturedOutput;
use cucumber_core::event::FailureKind;
use cucumber_core::event::Location;
use cucumber_core::event::PanicInfo;
use cucumber_core::event::PanicPayload;
use cucumber_core::event::ScenarioEvent;
use cucumber_core::event::StepEvent;
use cucumber_core::event::StepFailureKind;
use cucumber_core::event::TestEvent;
use cucumber_core::event::failure_kind_of;
use cucumber_core::event::test_event_to_step_event;
use cucumber_core::examples::ExampleValues;
use cucumber_core::examples::u64_digits;
use cucumber_core::examples::expand_scenario;
use cucumber_core::model::ExamplesTable;
use cucumber_core::model::Feature;
use cucumber_core::model::Scenario;
use cucumber_core::model::Step;
use cucumber_core::model::StepType;
use cucumber_core::runner::classify_step_result;
use cucumber_core::runner::coerce_error;
use cucumber_core::runner::test_skipped_text;
use cucumber_core::runner::Runner;
use cucumber_core::runner::RuleDriver;
use cucumber_core::runner::RunDriver;
use cucumber_core::runner::ScenarioDriver;
use cucumber_core::Stats;
use cucumber_core::StatsCollector;
use cucumber_core::TestError;

fn step(value: &str) -> Step {
    Step {
        keyword: "Given".to_string(),
        ty: StepType::Given,
        value: value.to_string(),
        docstring: None,
    }
}

fn scenario(name: &str, steps: Vec<Step>) -> Scenario {
    Scenario { name: name.to_string(), steps, examples: None, tags: Vec::new() }
}

fn feature(name: &str, background: Vec<Step>, scenarios: Vec<Scenario>) -> Feature {
    Feature {
        name: name.to_string(),
        background,
        scenarios,
        rules: Vec::new(),
        tags: Vec::new(),
    }
}

fn no_output() -> CapturedOutput {
    CapturedOutput { out: String::new(), err: String::new() }
}

#[test]
fn stats_failed_reports_failures_and_timeouts() {
    let mut s = Stats::default();
    assert!(!s.failed());
    s.failed = 1;
    assert!(s.failed());
    s.failed = 0;
    s.timed_out = 2;
    assert!(s.failed());
}

#[test]
fn location_and_panic_info_unknown() {
    let l = Location::unknown();
    assert_eq!(l.file, "unknown");
    assert_eq!(l.line, 0);
    assert_eq!(l.column, 0);
    let p = PanicInfo::unknown();
    assert_eq!(p.location, Location::unknown());
    assert_eq!(p.payload, "");
}

#[test]
fn coerce_error_reads_text_payloads() {
    let p = PanicPayload::Text("boom".to_string());
    assert_eq!(coerce_error(&p), "boom");
    assert_eq!(coerce_error(&PanicPayload::Opaque), "(Could not resolve panic payload)");
}

#[test]
fn failure_kind_rollup_drops_details() {
    let k = StepFailureKind::Panic(no_output(), PanicInfo::unknown());
    assert_eq!(failure_kind_of(&k), FailureKind::Panic);
    assert_eq!(failure_kind_of(&StepFailureKind::TimedOut), FailureKind::TimedOut);
}

#[test]
fn classify_success_passes_world_and_output() {
    let out = CapturedOutput { out: "hello".to_string(), err: String::new() };
    let ev = classify_step_result::<u32>(Ok(7), out, None);
    match ev {
        TestEvent::Success(w, o) => {
            assert_eq!(w, 7);
            assert_eq!(o.out, "hello");
        }
        _ => panic!("expected success"),
    }
}

#[test]
fn classify_timeout_is_timed_out_never_panic() {
    let ev = classify_step_result::<u32>(Err(TestError::TimedOut), no_output(), None);
    match ev {
        TestEvent::Failure(StepFailureKind::TimedOut) => {}
        TestEvent::Failure(StepFailureKind::Panic(_, _)) => panic!("timeout classified as panic"),
        _ => panic!("expected a failure"),
    }
}

#[test]
fn classify_skip_payload_is_skipped_not_failed() {
    let payload = PanicPayload::Text(test_skipped_text().to_string());
    let ev = classify_step_result::<u32>(
        Err(TestError::PanicError(payload)),
        no_output(),
        None,
    );
    assert!(matches!(ev, TestEvent::Skipped));
}

#[test]
fn classify_panic_keeps_payload_and_uses_unknown_location() {
    let payload = PanicPayload::Text("exploded".to_string());
    let info = PanicInfo {
        location: Location { file: "steps.rs".to_string(), line: 3, column: 9 },
        payload: "exploded".to_string(),
    };
    let ev = classify_step_result::<u32>(
        Err(TestError::PanicError(payload)),
        no_output(),
        Some(info.clone()),
    );
    match ev {
        TestEvent::Failure(StepFailureKind::Panic(_, pi)) => assert_eq!(pi, info),
        _ => panic!("expected a panic failure"),
    }
    let ev2 = classify_step_result::<u32>(
        Err(TestError::PanicError(PanicPayload::Opaque)),
        no_output(),
        None,
    );
    match ev2 {
        TestEvent::Failure(StepFailureKind::Panic(_, pi)) => assert_eq!(pi, PanicInfo::unknown()),
        _ => panic!("expected a panic failure"),
    }
}

#[test]
fn test_event_splits_world_from_step_event() {
    let (w, ev) = test_event_to_step_event(TestEvent::Success(5u32, no_output()));
    assert_eq!(w, Some(5));
    assert!(matches!(ev, StepEvent::Passed(_)));
    let (w, ev) = test_event_to_step_event::<u32>(TestEvent::Unimplemented);
    assert_eq!(w, None);
    assert!(matches!(ev, StepEvent::Unimplemented));
    let (w, ev) = test_event_to_step_event::<u32>(TestEvent::Skipped);
    assert_eq!(w, None);
    assert!(matches!(ev, StepEvent::Skipped));
    let (w, ev) =
        test_event_to_step_event::<u32>(TestEvent::Failure(StepFailureKind::TimedOut));
    assert_eq!(w, None);
    assert!(matches!(ev, StepEvent::Failed(StepFailureKind::TimedOut)));
}

#[test]
fn digits_render_decimal() {
    assert_eq!(u64_digits(0), "0");
    assert_eq!(u64_digits(7), "7");
    assert_eq!(u64_digits(10), "10");
    assert_eq!(u64_digits(12345), "12345");
}

#[test]
fn insert_values_substitutes_each_header() {
    let ev = ExampleValues {
        keys: vec!["count".to_string(), "what".to_string()],
        values: vec!["3".to_string(), "cukes".to_string()],
    };
    assert_eq!(ev.insert_values("I have <count> <what>"), "I have 3 cukes");
    assert_eq!(ev.insert_values("<count><count>"), "33");
    assert_eq!(ev.insert_values("no placeholders"), "no placeholders");
}

#[test]
fn insert_values_empty_is_identity() {
    let ev = ExampleValues::empty();
    assert!(ev.is_empty());
    assert_eq!(ev.insert_values("I have <count> items"), "I have <count> items");
}

#[test]
fn from_examples_without_table_yields_single_empty_row() {
    let rows = ExampleValues::from_examples(&None);
    assert_eq!(rows.len(), 1);
    assert!(rows[0].is_empty());
    let empty_table = ExamplesTable { header: vec!["count".to_string()], rows: Vec::new() };
    let rows = ExampleValues::from_examples(&Some(empty_table));
    assert_eq!(rows.len(), 1);
    assert!(rows[0].is_empty());
}

#[test]
fn outline_expands_to_three_distinct_scenarios() {
    let mut sc = scenario("eating", vec![step("I have <count> items")]);
    sc.examples = Some(ExamplesTable {
        header: vec!["count".to_string()],
        rows: vec![
            vec!["1".to_string()],
            vec!["2".to_string()],
            vec!["3".to_string()],
        ],
    });
    let instances = expand_scenario(&sc);
    assert_eq!(instances.len(), 3);
    let texts: Vec<String> =
        instances.iter().map(|(_, s)| s.steps[0].value.clone()).collect();
    assert_eq!(texts, vec!["I have 1 items", "I have 2 items", "I have 3 items"]);
    let names: Vec<String> = instances.iter().map(|(_, s)| s.name.clone()).collect();
    assert_eq!(names, vec!["eating #1", "eating #2", "eating #3"]);
    assert!(names[0] != names[1] && names[1] != names[2] && names[0] != names[2]);
}

#[test]
fn outline_substitutes_name_and_docstring() {
    let mut st = step("eat <count>");
    st.docstring = Some("doc <count>".to_string());
    let mut sc = scenario("eating <count> cukes", vec![st]);
    sc.examples = Some(ExamplesTable {
        header: vec!["count".to_string()],
        rows: vec![vec!["5".to_string()]],
    });
    let instances = expand_scenario(&sc);
    assert_eq!(instances.len(), 1);
    assert_eq!(instances[0].1.name, "eating 5 cukes");
    assert_eq!(instances[0].1.steps[0].docstring.as_deref(), Some("doc 5"));
}

#[test]
fn plain_scenario_expands_to_itself() {
    let sc = scenario("plain", vec![step("a step")]);
    let instances = expand_scenario(&sc);
    assert_eq!(instances.len(), 1);
    assert!(instances[0].0.is_empty());
    assert_eq!(instances[0].1, sc);
}

#[test]
fn criteria_eval_checks_literal_containment() {
    let f = Feature { tags: vec!["wip".to_string()], ..feature("f", Vec::new(), Vec::new()) };
    let c = Criteria::feature(vec!["wip".to_string()]);
    assert!(c.eval(&f, None, None));
    let c2 = Criteria::feature(vec!["slow".to_string()]);
    assert!(!c2.eval(&f, None, None));
    let c3 = Criteria::feature(Vec::new());
    assert!(c3.eval(&f, None, None));
}

#[test]
fn criteria_eval_ignores_connectors_and_sees_scenario_tags() {
    let f = feature("f", Vec::new(), Vec::new());
    let mut sc = scenario("s", Vec::new());
    sc.tags = vec!["fast".to_string()];
    let c = Criteria::scenario(vec![
        "fast".to_string(),
        "and".to_string(),
        "or".to_string(),
    ]);
    assert!(c.eval(&f, None, Some(&sc)));
    let c2 = Criteria::scenario(vec!["fast".to_string(), "slow".to_string()]);
    assert!(!c2.eval(&f, None, Some(&sc)));
}

#[test]
fn runner_hooks_apply_by_scope_and_tags() {
    let f = feature("f", Vec::new(), Vec::new());
    let runner = Runner::new(
        Vec::new(),
        Some(50),
        true,
        None,
        vec![Criteria::feature(Vec::new()), Criteria::scenario(Vec::new())],
        vec![Criteria::feature(vec!["wip".to_string()])],
    );
    assert!(runner.before_applies(0, HookScope::Feature, &f, None, None));
    assert!(!runner.before_applies(1, HookScope::Feature, &f, None, None));
    assert!(!runner.after_applies(0, HookScope::Feature, &f, None, None));
}

#[test]
fn runner_filter_selects_by_regex() {
    let re = regex::Regex::new("^eat").unwrap();
    let runner = Runner::new(Vec::new(), None, false, Some(re), Vec::new(), Vec::new());
    assert!(runner.scenario_selected(&scenario("eating", Vec::new())));
    assert!(!runner.scenario_selected(&scenario("drinking", Vec::new())));
    let open_runner = Runner::new(Vec::new(), None, false, None, Vec::new(), Vec::new());
    assert!(open_runner.scenario_selected(&scenario("anything", Vec::new())));
}

#[test]
fn scenario_driver_runs_all_steps_and_passes() {
    let sc = scenario("ok", vec![step("one"), step("two")]);
    let f = feature("f", Vec::new(), vec![sc.clone()]);
    let (mut d, start_ev) = ScenarioDriver::new(&f, &sc, ExampleValues::empty());
    assert!(matches!(start_ev, ScenarioEvent::Starting(_)));
    let mut step_events = 0;
    while let Some((st, starting)) = d.begin_step() {
        assert!(matches!(
            starting,
            ScenarioEvent::Step(_, StepEvent::Starting)
        ));
        assert!(st.value == "one" || st.value == "two");
        let evs = d.finish_step(StepEvent::Passed(no_output()));
        assert_eq!(evs.len(), 1);
        assert!(matches!(evs[0], ScenarioEvent::Step(_, StepEvent::Passed(_))));
        step_events += 1;
    }
    assert_eq!(step_events, 2);
    let terminal = d.finish();
    assert!(matches!(terminal, Some(ScenarioEvent::Passed)));
}

#[test]
fn scenario_driver_background_steps_are_wrapped_as_background() {
    let sc = scenario("s", vec![step("main")]);
    let f = feature("f", vec![step("setup")], vec![sc.clone()]);
    let (mut d, _) = ScenarioDriver::new(&f, &sc, ExampleValues::empty());
    let (st, starting) = d.begin_step().unwrap();
    assert_eq!(st.value, "setup");
    assert!(matches!(starting, ScenarioEvent::Background(_, StepEvent::Starting)));
    let evs = d.finish_step(StepEvent::Passed(no_output()));
    assert!(matches!(evs[0], ScenarioEvent::Background(_, StepEvent::Passed(_))));
    let (st, starting) = d.begin_step().unwrap();
    assert_eq!(st.value, "main");
    assert!(matches!(starting, ScenarioEvent::Step(_, StepEvent::Starting)));
}

#[test]
fn unimplemented_first_step_skips_scenario_with_no_more_step_events() {
    let sc = scenario("s", vec![step("missing"), step("never run")]);
    let f = feature("f", Vec::new(), vec![sc.clone()]);
    let (mut d, _) = ScenarioDriver::new(&f, &sc, ExampleValues::empty());
    let (_, _) = d.begin_step().unwrap();
    let evs = d.finish_step(StepEvent::Unimplemented);
    assert_eq!(evs.len(), 2);
    assert!(matches!(evs[0], ScenarioEvent::Step(_, StepEvent::Unimplemented)));
    assert!(matches!(evs[1], ScenarioEvent::Skipped));
    assert!(d.begin_step().is_none());
    assert!(d.finish().is_none());
}

#[test]
fn failing_step_halts_scenario_and_reports_kind() {
    let sc = scenario("s", vec![step("a"), step("b"), step("c")]);
    let f = feature("f", Vec::new(), vec![sc.clone()]);
    let (mut d, _) = ScenarioDriver::new(&f, &sc, ExampleValues::empty());
    let _ = d.begin_step().unwrap();
    let _ = d.finish_step(StepEvent::Passed(no_output()));
    let _ = d.begin_step().unwrap();
    let evs = d.finish_step(StepEvent::Failed(StepFailureKind::TimedOut));
    assert_eq!(evs.len(), 2);
    assert!(matches!(
        evs[0],
        ScenarioEvent::Step(_, StepEvent::Failed(StepFailureKind::TimedOut))
    ));
    assert!(matches!(evs[1], ScenarioEvent::Failed(FailureKind::TimedOut)));
    assert!(d.begin_step().is_none());
    assert!(d.finish().is_none());
}

#[test]
fn rule_driver_aggregates_with_panic_precedence() {
    let sc = scenario("s", Vec::new());

    let (mut d, starting) = RuleDriver::new();
    assert!(matches!(starting, cucumber_core::event::RuleEvent::Starting));
    let wrapped = d.observe(&sc, ScenarioEvent::Passed);
    assert!(matches!(wrapped, cucumber_core::event::RuleEvent::Scenario(_, _)));
    assert!(matches!(d.finish(), cucumber_core::event::RuleEvent::Passed));

    let (mut d, _) = RuleDriver::new();
    d.observe(&sc, ScenarioEvent::Passed);
    d.observe(&sc, ScenarioEvent::Failed(FailureKind::TimedOut));
    assert!(matches!(
        d.finish(),
        cucumber_core::event::RuleEvent::Failed(FailureKind::TimedOut)
    ));

    let (mut d, _) = RuleDriver::new();
    d.observe(&sc, ScenarioEvent::Failed(FailureKind::TimedOut));
    d.observe(&sc, ScenarioEvent::Failed(FailureKind::Panic));
    assert!(matches!(
        d.finish(),
        cucumber_core::event::RuleEvent::Failed(FailureKind::Panic)
    ));

    let (mut d, _) = RuleDriver::new();
    d.observe(&sc, ScenarioEvent::Skipped);
    assert!(matches!(d.finish(), cucumber_core::event::RuleEvent::Skipped));
}

#[test]
fn collector_counts_each_level() {
    let sc = scenario("s", Vec::new());
    let mut c = StatsCollector::new(0);
    c.handle_feature_event(&cucumber_core::event::FeatureEvent::Starting);
    c.handle_scenario_event(&sc, &ScenarioEvent::Starting(ExampleValues::empty()));
    c.handle_scenario_event(&sc, &ScenarioEvent::Step(step("a"), StepEvent::Starting));
    c.handle_scenario_event(
        &sc,
        &ScenarioEvent::Step(step("a"), StepEvent::Passed(no_output())),
    );
    c.handle_scenario_event(&sc, &ScenarioEvent::Passed);
    c.handle_rule_event(&cucumber_core::event::RuleEvent::Starting);
    c.handle_rule_event(&cucumber_core::event::RuleEvent::Skipped);
    assert_eq!(c.features.total, 1);
    assert_eq!(c.scenarios.total, 1);
    assert_eq!(c.scenarios.passed, 1);
    assert_eq!(c.steps.total, 1);
    assert_eq!(c.steps.passed, 1);
    assert_eq!(c.rules.total, 1);
    assert_eq!(c.rules.skipped, 1);
}

#[test]
fn collector_records_failing_and_timed_out_scenarios() {
    let sc1 = scenario("panics", Vec::new());
    let sc2 = scenario("stalls", Vec::new());
    let mut c = StatsCollector::new(0);
    c.handle_scenario_event(&sc1, &ScenarioEvent::Failed(FailureKind::Panic));
    c.handle_scenario_event(&sc2, &ScenarioEvent::Failed(FailureKind::TimedOut));
    assert_eq!(c.scenarios.failed, 1);
    assert_eq!(c.scenarios.timed_out, 1);
    assert_eq!(c.failed_scenarios, vec![sc1]);
    assert_eq!(c.timed_out_scenarios, vec![sc2]);
}

#[test]
fn collect_freezes_elapsed_from_started() {
    let c = StatsCollector::new(5);
    let r = c.collect(12);
    assert_eq!(r.started, 5);
    assert_eq!(r.elapsed, 7);
    let c2 = StatsCollector::new(5);
    let r2 = c2.collect(20);
    assert!(r2.elapsed >= r.elapsed);
}

#[test]
fn run_driver_counts_started_scenario_instances() {
    let sc = scenario("s", Vec::new());
    let f = feature("f", Vec::new(), vec![sc.clone()]);
    let (mut d, starting) = RunDriver::new(0);
    assert!(matches!(starting, cucumber_core::event::CucumberEvent::Starting));
    d.observe_feature_event(&f, cucumber_core::event::FeatureEvent::Starting);
    d.observe_feature_event(
        &f,
        cucumber_core::event::FeatureEvent::Scenario(
            sc.clone(),
            ScenarioEvent::Starting(ExampleValues::empty()),
        ),
    );
    d.observe_feature_event(
        &f,
        cucumber_core::event::FeatureEvent::Scenario(sc.clone(), ScenarioEvent::Passed),
    );
    d.observe_feature_event(
        &f,
        cucumber_core::event::FeatureEvent::Rule(
            cucumber_core::model::Rule {
                name: "r".to_string(),
                scenarios: vec![sc.clone()],
                tags: Vec::new(),
            },
            cucumber_core::event::RuleEvent::Scenario(
                sc.clone(),
                ScenarioEvent::Starting(ExampleValues::empty()),
            ),
        ),
    );
    d.observe_feature_event(&f, cucumber_core::event::FeatureEvent::Finished);
    let (result, finished) = d.finish(9);
    assert!(matches!(finished, cucumber_core::event::CucumberEvent::Finished(_)));
    assert_eq!(result.scenarios.total, 2);
    assert_eq!(result.features.total, 1);
    assert_eq!(result.started, 0);
    assert_eq!(result.elapsed, 9);
    assert!(!result.failed());
}

#[test]
fn insert_values_applies_headers_in_table_order() {
    // Substitution is a sequential fold over the headers: a value may
    // itself contain a later header's placeholder, which is then
    // substituted in turn.
    let ev = ExampleValues {
        keys: vec!["a".to_string(), "b".to_string()],
        values: vec!["<b>".to_string(), "X".to_string()],
    };
    assert_eq!(ev.insert_values("see <a>"), "see X");
    // The reverse order does not chain.
    let ev2 = ExampleValues {
        keys: vec!["b".to_string(), "a".to_string()],
        values: vec!["X".to_string(), "<b>".to_string()],
    };
    assert_eq!(ev2.insert_values("see <a>"), "see <b>");
}

#[test]
fn insert_values_ignores_unpaired_headers() {
    let ev = ExampleValues {
        keys: vec!["a".to_string(), "b".to_string()],
        values: vec!["1".to_string()],
    };
    assert_eq!(ev.insert_values("<a> <b>"), "1 <b>");
}

#[test]
fn from_examples_pairs_header_with_each_row() {
    let table = ExamplesTable {
        header: vec!["x".to_string(), "y".to_string()],
        rows: vec![
            vec!["1".to_string(), "2".to_string()],
            vec!["3".to_string(), "4".to_string()],
        ],
    };
    let rows = ExampleValues::from_examples(&Some(table));
    assert_eq!(rows.len(), 2);
    assert_eq!(rows[0].keys, vec!["x", "y"]);
    assert_eq!(rows[0].values, vec!["1", "2"]);
    assert_eq!(rows[1].values, vec!["3", "4"]);
}

struct CollectingHandler {
    events: Vec<cucumber_core::event::CucumberEvent>,
}

impl cucumber_core::EventHandler for CollectingHandler {
    fn handle_event(&mut self, event: cucumber_core::event::CucumberEvent) {
        self.events.push(event);
    }
}

#[test]
fn event_handler_receives_run_events_in_order() {
    let f = feature("f", Vec::new(), Vec::new());
    let mut handler = CollectingHandler { events: Vec::new() };
    let (mut d, starting) = RunDriver::new(0);
    cucumber_core::EventHandler::handle_event(&mut handler, starting);
    let wrapped = d.observe_feature_event(&f, cucumber_core::event::FeatureEvent::Starting);
    cucumber_core::EventHandler::handle_event(&mut handler, wrapped);
    let (_, finished) = d.finish(1);
    cucumber_core::EventHandler::handle_event(&mut handler, finished);
    assert_eq!(handler.events.len(), 3);
    assert!(matches!(
        handler.events[0],
        cucumber_core::event::CucumberEvent::Starting
    ));
    assert!(matches!(
        handler.events[1],
        cucumber_core::event::CucumberEvent::Feature(_, _)
    ));
    assert!(matches!(
        handler.events[2],
        cucumber_core::event::CucumberEvent::Finished(_)
    ));
}

#[test]
fn run_result_failed_looks_at_features_and_scenarios() {
    let c = StatsCollector::new(0);
    let mut r = c.collect(1);
    assert!(!r.failed());
    r.scenarios.timed_out = 1;
    assert!(r.failed());
    r.scenarios.timed_out = 0;
    r.features.failed = 1;
    assert!(r.failed());
}
