//! The parsed specification tree: features, rules, scenarios and steps.
//!
//! These types hold, as plain values, exactly the fields the runner logic
//! reads: names, step text, docstrings, example tables and tags. They are
//! immutable once built; execution never mutates a tree node.

use vstd::prelude::*;

verus! {

/// The kind of a step after contextual resolution of `And`/`But`.
#[derive(Debug, Clone, Copy, PartialEq, Eq, Hash, Structural)]
pub enum StepType {
    Given,
    When,
    Then,
}

/// Mathematical value of a [`Step`].
#[verifier::ext_equal]
pub struct StepView {
    pub keyword: Seq<char>,
    pub ty: StepType,
    pub value: Seq<char>,
    pub docstring: Option<Seq<char>>,
}

/// One step of a scenario or background.
#[derive(Debug, PartialEq, Eq)]
pub struct Step {
    /// The raw keyword used in the source (`Given`, `And`, ...).
    pub keyword: String,
    /// The resolved step type.
    pub ty: StepType,
    /// The step text after the keyword.
    pub value: String,
    /// A docstring, if provided.
    pub docstring: Option<String>,
}

impl View for Step {
    type V = StepView;

    open spec fn view(&self) -> StepView {
        StepView {
            keyword: self.keyword@,
            ty: self.ty,
            value: self.value@,
            docstring: self.docstring.deep_view(),
        }
    }
}

impl DeepView for Step {
    type V = StepView;

    open spec fn deep_view(&self) -> StepView {
        self.view()
    }
}

impl Clone for Step {
    fn clone(&self) -> (res: Self)
        ensures
            res@ == self@,
    {
        Step {
            keyword: self.keyword.clone(),
            ty: self.ty,
            value: self.value.clone(),
            docstring: self.docstring.clone(),
        }
    }
}

/// Mathematical value of an [`ExamplesTable`].
#[verifier::ext_equal]
pub struct ExamplesView {
    pub header: Seq<Seq<char>>,
    pub rows: Seq<Seq<Seq<char>>>,
}

/// The examples table of a scenario outline: a header row naming the
/// placeholders and one data row per concrete instance.
#[derive(Debug, PartialEq, Eq)]
pub struct ExamplesTable {
    /// The header row: placeholder names.
    pub header: Vec<String>,
    /// The data rows.
    pub rows: Vec<Vec<String>>,
}

impl View for ExamplesTable {
    type V = ExamplesView;

    open spec fn view(&self) -> ExamplesView {
        ExamplesView { header: self.header.deep_view(), rows: self.rows.deep_view() }
    }
}

impl DeepView for ExamplesTable {
    type V = ExamplesView;

    open spec fn deep_view(&self) -> ExamplesView {
        self.view()
    }
}

impl Clone for ExamplesTable {
    fn clone(&self) -> (res: Self)
        ensures
            res@ == self@,
    {
        let res = ExamplesTable { header: self.header.clone(), rows: self.rows.clone() };
        proof {
            lemma_string_vec_clone(self.header, res.header);
            assert forall|i: int| 0 <= i < self.rows@.len() implies self.rows.deep_view()[i]
                == res.rows.deep_view()[i] by {
                assert(cloned::<Vec<String>>(self.rows[i], res.rows[i]));
                lemma_string_vec_clone(self.rows[i], res.rows[i]);
            }
            assert(res.rows.deep_view() =~= self.rows.deep_view());
            assert(res@ =~= self@);
        }
        res
    }
}

/// A vector of strings that could result from cloning `v` holds the same
/// character sequences as `v`.
pub(crate) proof fn lemma_string_vec_clone(v: Vec<String>, res: Vec<String>)
    requires
        res.len() == v.len(),
        forall|i: int| 0 <= i < v.len() ==> cloned::<String>(v[i], res[i]),
    ensures
        res.deep_view() == v.deep_view(),
{
    assert(res.deep_view() =~= v.deep_view());
}

/// Pushing onto a vector appends the element's view to the vector's deep
/// view.
pub(crate) proof fn lemma_push_deep_view<T: DeepView>(pre: Vec<T>, post: Vec<T>, x: T)
    requires
        post@ == pre@.push(x),
    ensures
        post.deep_view() == pre.deep_view().push(x.deep_view()),
{
    assert(post.deep_view() =~= pre.deep_view().push(x.deep_view()));
}

/// Mathematical value of a [`Scenario`].
#[verifier::ext_equal]
pub struct ScenarioView {
    pub name: Seq<char>,
    pub steps: Seq<StepView>,
    pub examples: Option<ExamplesView>,
    pub tags: Seq<Seq<char>>,
}

/// A scenario: a named sequence of steps, optionally templated by an
/// examples table.
#[derive(Debug, PartialEq, Eq)]
pub struct Scenario {
    /// The name of the scenario.
    pub name: String,
    /// The steps of the scenario, in execution order.
    pub steps: Vec<Step>,
    /// The examples table, if the scenario is an outline.
    pub examples: Option<ExamplesTable>,
    /// The tags attached to the scenario.
    pub tags: Vec<String>,
}

impl View for Scenario {
    type V = ScenarioView;

    open spec fn view(&self) -> ScenarioView {
        ScenarioView {
            name: self.name@,
            steps: self.steps.deep_view(),
            examples: self.examples.deep_view(),
            tags: self.tags.deep_view(),
        }
    }
}

impl DeepView for Scenario {
    type V = ScenarioView;

    open spec fn deep_view(&self) -> ScenarioView {
        self.view()
    }
}

impl Clone for Scenario {
    fn clone(&self) -> (res: Self)
        ensures
            res@ == self@,
    {
        let res = Scenario {
            name: self.name.clone(),
            steps: self.steps.clone(),
            examples: self.examples.clone(),
            tags: self.tags.clone(),
        };
        proof {
            lemma_step_vec_clone(self.steps, res.steps);
            lemma_string_vec_clone(self.tags, res.tags);
            assert(res@ =~= self@);
        }
        res
    }
}

/// A vector of steps that could result from cloning `v` has the same view
/// as `v`.
pub(crate) proof fn lemma_step_vec_clone(v: Vec<Step>, res: Vec<Step>)
    requires
        res.len() == v.len(),
        forall|i: int| 0 <= i < v.len() ==> cloned::<Step>(v[i], res[i]),
    ensures
        res.deep_view() == v.deep_view(),
{
    assert(res.deep_view() =~= v.deep_view());
}

/// Mathematical value of a [`Rule`].
#[verifier::ext_equal]
pub struct RuleView {
    pub name: Seq<char>,
    pub scenarios: Seq<ScenarioView>,
    pub tags: Seq<Seq<char>>,
}

/// A rule: a named group of scenarios within a feature.
#[derive(Debug, PartialEq, Eq)]
pub struct Rule {
    /// The name of the rule.
    pub name: String,
    /// The scenarios grouped under the rule.
    pub scenarios: Vec<Scenario>,
    /// The tags attached to the rule.
    pub tags: Vec<String>,
}

impl View for Rule {
    type V = RuleView;

    open spec fn view(&self) -> RuleView {
        RuleView {
            name: self.name@,
            scenarios: self.scenarios.deep_view(),
            tags: self.tags.deep_view(),
        }
    }
}

impl DeepView for Rule {
    type V = RuleView;

    open spec fn deep_view(&self) -> RuleView {
        self.view()
    }
}

impl Clone for Rule {
    fn clone(&self) -> (res: Self)
        ensures
            res@ == self@,
    {
        let res = Rule {
            name: self.name.clone(),
            scenarios: self.scenarios.clone(),
            tags: self.tags.clone(),
        };
        proof {
            lemma_scenario_vec_clone(self.scenarios, res.scenarios);
            lemma_string_vec_clone(self.tags, res.tags);
            assert(res@ =~= self@);
        }
        res
    }
}

/// A vector of scenarios that could result from cloning `v` has the same
/// view as `v`.
pub(crate) proof fn lemma_scenario_vec_clone(v: Vec<Scenario>, res: Vec<Scenario>)
    requires
        res.len() == v.len(),
        forall|i: int| 0 <= i < v.len() ==> cloned::<Scenario>(v[i], res[i]),
    ensures
        res.deep_view() == v.deep_view(),
{
    assert(res.deep_view() =~= v.deep_view());
}

/// Mathematical value of a [`Feature`].
#[verifier::ext_equal]
pub struct FeatureView {
    pub name: Seq<char>,
    pub background: Seq<StepView>,
    pub scenarios: Seq<ScenarioView>,
    pub rules: Seq<RuleView>,
    pub tags: Seq<Seq<char>>,
}

/// A feature: the root of one parsed specification file.
///
/// An absent background is represented by an empty step list.
#[derive(Debug, PartialEq, Eq)]
pub struct Feature {
    /// The name of the feature.
    pub name: String,
    /// The background steps shared by the feature's scenarios.
    pub background: Vec<Step>,
    /// The scenarios of the feature, outside any rule.
    pub scenarios: Vec<Scenario>,
    /// The rules of the feature.
    pub rules: Vec<Rule>,
    /// The tags attached to the feature.
    pub tags: Vec<String>,
}

impl View for Feature {
    type V = FeatureView;

    open spec fn view(&self) -> FeatureView {
        FeatureView {
            name: self.name@,
            background: self.background.deep_view(),
            scenarios: self.scenarios.deep_view(),
            rules: self.rules.deep_view(),
            tags: self.tags.deep_view(),
        }
    }
}

impl DeepView for Feature {
    type V = FeatureView;

    open spec fn deep_view(&self) -> FeatureView {
        self.view()
    }
}

impl Clone for Feature {
    fn clone(&self) -> (res: Self)
        ensures
            res@ == self@,
    {
        let res = Feature {
            name: self.name.clone(),
            background: self.background.clone(),
            scenarios: self.scenarios.clone(),
            rules: self.rules.clone(),
            tags: self.tags.clone(),
        };
        proof {
            lemma_step_vec_clone(self.background, res.background);
            lemma_scenario_vec_clone(self.scenarios, res.scenarios);
            lemma_string_vec_clone(self.tags, res.tags);
            assert forall|i: int| 0 <= i < self.rules@.len() implies self.rules.deep_view()[i]
                == res.rules.deep_view()[i] by {
                assert(cloned::<Rule>(self.rules[i], res.rules[i]));
            }
            assert(res.rules.deep_view() =~= self.rules.deep_view());
            assert(res@ =~= self@);
        }
        res
    }
}

} // verus!
