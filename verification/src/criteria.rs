//! Applicability of lifecycle hooks.
//!
//! A criteria pairs a scope (feature, rule or scenario) with a list of tag
//! tokens. It applies to a tree location when every token is found among
//! the tags visible there. Matching is literal token containment only: the
//! connector tokens `and` and `or` are ignored, not interpreted.

use vstd::prelude::*;

use crate::model::Feature;
use crate::model::FeatureView;
use crate::model::Rule;
use crate::model::RuleView;
use crate::model::Scenario;
use crate::model::ScenarioView;

verus! {

/// The level of the spec tree a lifecycle hook is attached to.
#[derive(Debug, Clone, Copy, PartialEq, Eq, Structural)]
pub enum HookScope {
    Feature,
    Rule,
    Scenario,
}

/// Mathematical value of a [`Criteria`].
#[verifier::ext_equal]
pub struct CriteriaView {
    pub scope: HookScope,
    pub tags: Seq<Seq<char>>,
}

/// Scope and tag predicate deciding whether a lifecycle hook applies to a
/// given (feature, rule, scenario) location.
#[derive(Debug, PartialEq, Eq)]
pub struct Criteria {
    /// The scope the hook fires at.
    pub scope: HookScope,
    /// The tag tokens that must all be visible at the location; an empty
    /// list applies everywhere of the right scope.
    pub tags: Vec<String>,
}

impl View for Criteria {
    type V = CriteriaView;

    open spec fn view(&self) -> CriteriaView {
        CriteriaView { scope: self.scope, tags: self.tags.deep_view() }
    }
}

impl DeepView for Criteria {
    type V = CriteriaView;

    open spec fn deep_view(&self) -> CriteriaView {
        self.view()
    }
}

impl Clone for Criteria {
    fn clone(&self) -> (res: Self)
        ensures
            res@ == self@,
    {
        let res = Criteria { scope: self.scope, tags: self.tags.clone() };
        proof {
            crate::model::lemma_string_vec_clone(self.tags, res.tags);
            assert(res@ =~= self@);
        }
        res
    }
}

/// Whether a token is one of the ignored boolean connectors.
pub open spec fn spec_connector(tok: Seq<char>) -> bool {
    tok == "and"@ || tok == "or"@
}

/// Whether a tag is visible at a tree location: attached to the feature,
/// to the rule (if inside one), or to the scenario (if at one).
pub open spec fn spec_tag_visible(
    tok: Seq<char>,
    feature: FeatureView,
    rule: Option<RuleView>,
    scenario: Option<ScenarioView>,
) -> bool {
    ||| feature.tags.contains(tok)
    ||| (rule matches Some(r) && r.tags.contains(tok))
    ||| (scenario matches Some(s) && s.tags.contains(tok))
}

/// Whether every non-connector token of `tokens` is visible at the
/// location.
pub open spec fn spec_eval(
    tokens: Seq<Seq<char>>,
    feature: FeatureView,
    rule: Option<RuleView>,
    scenario: Option<ScenarioView>,
) -> bool {
    forall|i: int|
        0 <= i < tokens.len() && !spec_connector(tokens[i]) ==> spec_tag_visible(
            tokens[i],
            feature,
            rule,
            scenario,
        )
}

/// Whether `tok` occurs among `tags`.
fn tag_in(tags: &Vec<String>, tok: &String) -> (r: bool)
    ensures
        r == tags.deep_view().contains(tok@),
{
    let mut i: usize = 0;
    while i < tags.len()
        invariant
            i <= tags@.len(),
            forall|k: int| 0 <= k < i ==> tags.deep_view()[k] != tok@,
        decreases tags@.len() - i,
    {
        if tags[i].eq(tok) {
            proof {
                assert(tags.deep_view()[i as int] == tok@);
            }
            return true;
        }
        i += 1;
    }
    proof {
        assert forall|k: int| 0 <= k < tags.deep_view().len() implies tags.deep_view()[k] != tok@
            by {}
    }
    false
}

impl Criteria {
    /// A criteria at feature scope.
    pub fn feature(tags: Vec<String>) -> (res: Criteria)
        ensures
            res@.scope == HookScope::Feature,
            res@.tags == tags.deep_view(),
    {
        Criteria { scope: HookScope::Feature, tags }
    }

    /// A criteria at rule scope.
    pub fn rule(tags: Vec<String>) -> (res: Criteria)
        ensures
            res@.scope == HookScope::Rule,
            res@.tags == tags.deep_view(),
    {
        Criteria { scope: HookScope::Rule, tags }
    }

    /// A criteria at scenario scope.
    pub fn scenario(tags: Vec<String>) -> (res: Criteria)
        ensures
            res@.scope == HookScope::Scenario,
            res@.tags == tags.deep_view(),
    {
        Criteria { scope: HookScope::Scenario, tags }
    }

    /// Whether this criteria fires at feature scope.
    pub fn is_feature(&self) -> (r: bool)
        ensures
            r == (self.scope is Feature),
    {
        matches!(self.scope, HookScope::Feature)
    }

    /// Whether this criteria fires at rule scope.
    pub fn is_rule(&self) -> (r: bool)
        ensures
            r == (self.scope is Rule),
    {
        matches!(self.scope, HookScope::Rule)
    }

    /// Whether this criteria fires at scenario scope.
    pub fn is_scenario(&self) -> (r: bool)
        ensures
            r == (self.scope is Scenario),
    {
        matches!(self.scope, HookScope::Scenario)
    }

    /// Evaluates the tag predicate at a tree location: every non-connector
    /// token must be visible there.
    pub fn eval(&self, feature: &Feature, rule: Option<&Rule>, scenario: Option<&Scenario>) -> (r:
        bool)
        ensures
            r == spec_eval(self@.tags, feature@, rule.deep_view(), scenario.deep_view()),
    {
        let and_tok = "and".to_owned();
        let or_tok = "or".to_owned();
        let mut i: usize = 0;
        while i < self.tags.len()
            invariant
                i <= self.tags@.len(),
                and_tok@ == "and"@,
                or_tok@ == "or"@,
                forall|k: int|
                    0 <= k < i && !spec_connector(self@.tags[k]) ==> spec_tag_visible(
                        self@.tags[k],
                        feature@,
                        rule.deep_view(),
                        scenario.deep_view(),
                    ),
            decreases self.tags@.len() - i,
        {
            let tok = &self.tags[i];
            let connector = tok.eq(&and_tok) || tok.eq(&or_tok);
            if !connector {
                let mut found = tag_in(&feature.tags, tok);
                if !found {
                    if let Some(r) = rule {
                        found = tag_in(&r.tags, tok);
                    }
                }
                if !found {
                    if let Some(s) = scenario {
                        found = tag_in(&s.tags, tok);
                    }
                }
                if !found {
                    proof {
                        assert(!spec_connector(self@.tags[i as int]));
                        assert(!spec_tag_visible(
                            self@.tags[i as int],
                            feature@,
                            rule.deep_view(),
                            scenario.deep_view(),
                        ));
                    }
                    return false;
                }
            }
            i += 1;
        }
        true
    }
}

} // verus!
