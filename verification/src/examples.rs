//! Expansion of templated scenarios ("scenario outlines").
//!
//! An examples table attached to a scenario turns it into one concrete
//! scenario per data row: every `<header>` occurrence in a step's text and
//! docstring, and in the scenario name, is substituted with the row's value
//! for that header. If substituting into the scenario name changes nothing
//! (no placeholder was present), the name is disambiguated by appending the
//! 1-based row index, so that the run's scenario identities stay distinct.

use vstd::prelude::*;
use vstd::string::StrSliceExecFns;
use vstd::string::StringExecFns;

use crate::model::ExamplesTable;
use crate::model::Scenario;
use crate::model::Step;
use crate::model::StepView;

verus! {

/// Mathematical value of an [`ExampleValues`].
#[verifier::ext_equal]
pub struct ExampleValuesView {
    pub keys: Seq<Seq<char>>,
    pub values: Seq<Seq<char>>,
}

/// One row of an examples table: a header name and the row's value for it,
/// position by position. An empty instance stands for a plain scenario run
/// with no substitution.
#[derive(Debug, PartialEq, Eq)]
pub struct ExampleValues {
    /// The header names, in table order.
    pub keys: Vec<String>,
    /// The row's values, in the same order.
    pub values: Vec<String>,
}

impl View for ExampleValues {
    type V = ExampleValuesView;

    open spec fn view(&self) -> ExampleValuesView {
        ExampleValuesView { keys: self.keys.deep_view(), values: self.values.deep_view() }
    }
}

impl DeepView for ExampleValues {
    type V = ExampleValuesView;

    open spec fn deep_view(&self) -> ExampleValuesView {
        self.view()
    }
}

/// The view of an example row with no substitutions.
pub open spec fn spec_empty_values() -> ExampleValuesView {
    ExampleValuesView { keys: Seq::empty(), values: Seq::empty() }
}

impl ExampleValues {
    /// An example row with no substitutions.
    pub fn empty() -> (res: ExampleValues)
        ensures
            res@ == spec_empty_values(),
    {
        let res = ExampleValues { keys: Vec::new(), values: Vec::new() };
        proof {
            assert(res@ =~= spec_empty_values());
        }
        res
    }

    /// Whether this row substitutes nothing.
    pub fn is_empty(&self) -> (r: bool)
        ensures
            r == (self@.keys.len() == 0),
    {
        self.keys.len() == 0
    }
}

impl Clone for ExampleValues {
    fn clone(&self) -> (res: Self)
        ensures
            res@ == self@,
    {
        let res = ExampleValues { keys: self.keys.clone(), values: self.values.clone() };
        proof {
            crate::model::lemma_string_vec_clone(self.keys, res.keys);
            crate::model::lemma_string_vec_clone(self.values, res.values);
            assert(res@ =~= self@);
        }
        res
    }
}

/// Left-to-right, non-overlapping replacement of every occurrence of `pat`
/// in `s` with `to`. An empty pattern replaces nothing.
pub open spec fn spec_replace_all(s: Seq<char>, pat: Seq<char>, to: Seq<char>) -> Seq<char>
    decreases s.len(),
{
    if pat.len() == 0 || s.len() < pat.len() {
        s
    } else if s.take(pat.len() as int) == pat {
        to + spec_replace_all(s.skip(pat.len() as int), pat, to)
    } else {
        seq![s[0]] + spec_replace_all(s.skip(1), pat, to)
    }
}

/// Whether `pat` occurs in `text` starting at character position `i`.
fn match_at(text: &str, pat: &str, i: usize) -> (r: bool)
    requires
        i + pat@.len() <= text@.len() <= usize::MAX,
    ensures
        r == (text@.subrange(i as int, i + pat@.len()) == pat@),
{
    let p = pat.unicode_len();
    let mut j: usize = 0;
    while j < p
        invariant
            j <= p,
            p == pat@.len(),
            i + p <= text@.len() <= usize::MAX,
            forall|k: int| 0 <= k < j ==> text@[i + k] == pat@[k],
        decreases p - j,
    {
        if text.get_char(i + j) != pat.get_char(j) {
            proof {
                assert(text@.subrange(i as int, i + pat@.len())[j as int] != pat@[j as int]);
            }
            return false;
        }
        j += 1;
    }
    proof {
        assert(text@.subrange(i as int, i + pat@.len()) =~= pat@);
    }
    true
}

/// Replaces every occurrence of `pat` in `text` with `to`, left to right
/// and without overlap.
fn replace_all(text: &str, pat: &str, to: &str) -> (res: String)
    requires
        pat@.len() > 0,
    ensures
        res@ == spec_replace_all(text@, pat@, to@),
{
    let n = text.unicode_len();
    let p = pat.unicode_len();
    let mut res = String::new();
    let mut i: usize = 0;
    proof {
        assert(text@.skip(0) =~= text@);
    }
    while i < n
        invariant
            i <= n,
            n == text@.len(),
            p == pat@.len(),
            p > 0,
            res@ + spec_replace_all(text@.skip(i as int), pat@, to@) == spec_replace_all(
                text@,
                pat@,
                to@,
            ),
        decreases n - i,
    {
        let ghost s_rem = text@.skip(i as int);
        if p <= n - i && match_at(text, pat, i) {
            proof {
                assert(s_rem.take(p as int) =~= text@.subrange(i as int, i + p));
                assert(s_rem.skip(p as int) =~= text@.skip(i + p));
                assert((res@ + to@) + spec_replace_all(text@.skip(i + p), pat@, to@) =~= res@ + (
                to@ + spec_replace_all(s_rem.skip(p as int), pat@, to@)));
            }
            res.append(to);
            i += p;
        } else {
            let c = text.substring_char(i, i + 1);
            proof {
                if p <= n - i {
                    assert(s_rem.take(p as int) =~= text@.subrange(i as int, i + p));
                    assert(s_rem.take(p as int) != pat@);
                }
                assert(c@ =~= seq![s_rem[0]]);
                assert(s_rem.skip(1) =~= text@.skip(i + 1));
                assert((res@ + c@) + spec_replace_all(text@.skip(i + 1), pat@, to@) =~= res@ + (
                seq![s_rem[0]] + spec_replace_all(s_rem.skip(1), pat@, to@)));
            }
            res.append(c);
            i += 1;
        }
    }
    proof {
        assert(spec_replace_all(text@.skip(n as int), pat@, to@) =~= Seq::<char>::empty());
        assert(res@ + Seq::<char>::empty() =~= res@);
    }
    res
}

/// The literal pattern that an examples header matches: the name wrapped in
/// angle brackets.
pub open spec fn spec_wrap_key(k: Seq<char>) -> Seq<char> {
    "<"@ + k + ">"@
}

/// Substitution of the pairs of `ev` from position `i` on: each header's
/// wrapped pattern is replaced by its value, in table order. Positions with
/// no partner (a header row longer than the data row, or the reverse) are
/// ignored.
pub open spec fn spec_insert_from(
    s: Seq<char>,
    ev: ExampleValuesView,
    i: int,
) -> Seq<char>
    decreases ev.keys.len() - i,
{
    if i < 0 || i >= ev.keys.len() || i >= ev.values.len() {
        s
    } else {
        spec_insert_from(
            spec_replace_all(s, spec_wrap_key(ev.keys[i]), ev.values[i]),
            ev,
            i + 1,
        )
    }
}

/// Substitution of every pair of `ev` into `s`, in table order.
pub open spec fn spec_insert_values(s: Seq<char>, ev: ExampleValuesView) -> Seq<char> {
    spec_insert_from(s, ev, 0)
}

impl ExampleValues {
    /// Substitutes every `<header>` occurrence in `text` with the row's
    /// value for that header, header by header in table order.
    pub fn insert_values(&self, text: &str) -> (res: String)
        ensures
            res@ == spec_insert_values(text@, self@),
    {
        let mut res = text.to_owned();
        let mut i: usize = 0;
        while i < self.keys.len() && i < self.values.len()
            invariant
                spec_insert_from(text@, self@, 0) == spec_insert_from(res@, self@, i as int),
            decreases self.keys.len() - i,
        {
            proof {
                reveal_strlit("<");
                reveal_strlit(">");
            }
            let mut pat = String::from_str("<");
            pat.append(self.keys[i].as_str());
            pat.append(">");
            proof {
                assert(self.keys[i as int]@ == self@.keys[i as int]);
                assert(pat@ == spec_wrap_key(self@.keys[i as int]));
                assert(self.values[i as int]@ == self@.values[i as int]);
            }
            let replaced = replace_all(res.as_str(), pat.as_str(), self.values[i].as_str());
            res = replaced;
            i += 1;
        }
        res
    }
}

/// The decimal digit character for `d`.
pub open spec fn spec_digit_char(d: int) -> char {
    if d == 0 {
        '0'
    } else if d == 1 {
        '1'
    } else if d == 2 {
        '2'
    } else if d == 3 {
        '3'
    } else if d == 4 {
        '4'
    } else if d == 5 {
        '5'
    } else if d == 6 {
        '6'
    } else if d == 7 {
        '7'
    } else if d == 8 {
        '8'
    } else {
        '9'
    }
}

/// The decimal digits of `n`, most significant first.
pub open spec fn spec_digits(n: nat) -> Seq<char>
    decreases n,
{
    if n < 10 {
        seq![spec_digit_char(n as int)]
    } else {
        spec_digits(n / 10).push(spec_digit_char((n % 10) as int))
    }
}

/// The one-character text for a single decimal digit.
fn digit_str(d: u64) -> (r: &'static str)
    requires
        d < 10,
    ensures
        r@ == seq![spec_digit_char(d as int)],
{
    if d == 0 {
        proof {
            reveal_strlit("0");
            assert("0"@ =~= seq![spec_digit_char(0)]);
        }
        "0"
    } else if d == 1 {
        proof {
            reveal_strlit("1");
            assert("1"@ =~= seq![spec_digit_char(1)]);
        }
        "1"
    } else if d == 2 {
        proof {
            reveal_strlit("2");
            assert("2"@ =~= seq![spec_digit_char(2)]);
        }
        "2"
    } else if d == 3 {
        proof {
            reveal_strlit("3");
            assert("3"@ =~= seq![spec_digit_char(3)]);
        }
        "3"
    } else if d == 4 {
        proof {
            reveal_strlit("4");
            assert("4"@ =~= seq![spec_digit_char(4)]);
        }
        "4"
    } else if d == 5 {
        proof {
            reveal_strlit("5");
            assert("5"@ =~= seq![spec_digit_char(5)]);
        }
        "5"
    } else if d == 6 {
        proof {
            reveal_strlit("6");
            assert("6"@ =~= seq![spec_digit_char(6)]);
        }
        "6"
    } else if d == 7 {
        proof {
            reveal_strlit("7");
            assert("7"@ =~= seq![spec_digit_char(7)]);
        }
        "7"
    } else if d == 8 {
        proof {
            reveal_strlit("8");
            assert("8"@ =~= seq![spec_digit_char(8)]);
        }
        "8"
    } else {
        proof {
            reveal_strlit("9");
            assert("9"@ =~= seq![spec_digit_char(9)]);
        }
        "9"
    }
}

/// Renders `n` in decimal.
pub fn u64_digits(n: u64) -> (res: String)
    ensures
        res@ == spec_digits(n as nat),
    decreases n,
{
    if n < 10 {
        digit_str(n).to_owned()
    } else {
        let mut s = u64_digits(n / 10);
        s.append(digit_str(n % 10));
        proof {
            assert(s@ =~= spec_digits((n as nat) / 10).push(spec_digit_char((n as nat % 10) as int)));
        }
        s
    }
}

/// Decimal renderings are never empty, and numbers of ten or more take at
/// least two digits.
proof fn lemma_digits_len(n: nat)
    ensures
        spec_digits(n).len() >= 1,
        n >= 10 ==> spec_digits(n).len() >= 2,
    decreases n,
{
    if n >= 10 {
        lemma_digits_len(n / 10);
    }
}

/// Different numbers have different decimal renderings.
proof fn lemma_digits_injective(a: nat, b: nat)
    requires
        a != b,
    ensures
        spec_digits(a) != spec_digits(b),
    decreases a + b,
{
    if a < 10 && b < 10 {
        assert(spec_digits(a)[0] == spec_digit_char(a as int));
        assert(spec_digits(b)[0] == spec_digit_char(b as int));
        assert(spec_digit_char(a as int) != spec_digit_char(b as int));
    } else if a < 10 {
        lemma_digits_len(a);
        lemma_digits_len(b);
        assert(spec_digits(a).len() == 1);
    } else if b < 10 {
        lemma_digits_len(a);
        lemma_digits_len(b);
        assert(spec_digits(b).len() == 1);
    } else {
        if a % 10 != b % 10 {
            assert(spec_digits(a).last() == spec_digit_char((a % 10) as int));
            assert(spec_digits(b).last() == spec_digit_char((b % 10) as int));
            assert(spec_digit_char((a % 10) as int) != spec_digit_char((b % 10) as int));
        } else {
            assert(a / 10 != b / 10) by {
                if a / 10 == b / 10 {
                    assert(a == 10 * (a / 10) + a % 10);
                    assert(b == 10 * (b / 10) + b % 10);
                }
            }
            lemma_digits_injective(a / 10, b / 10);
            assert(spec_digits(a).drop_last() =~= spec_digits(a / 10));
            assert(spec_digits(b).drop_last() =~= spec_digits(b / 10));
        }
    }
}

/// Two different rows whose substitution leaves the template name
/// unchanged receive distinct disambiguated names: the appended row
/// numbers differ, so the instances' identities stay distinct across the
/// run.
pub proof fn lemma_disambiguated_names_distinct(
    name: Seq<char>,
    ev1: ExampleValuesView,
    ev2: ExampleValuesView,
    row1: nat,
    row2: nat,
)
    requires
        spec_insert_values(name, ev1) == name,
        spec_insert_values(name, ev2) == name,
        row1 != row2,
    ensures
        spec_instance_name(name, ev1, row1) != spec_instance_name(name, ev2, row2),
{
    lemma_digits_injective(row1, row2);
    let d1 = spec_digits(row1);
    let d2 = spec_digits(row2);
    let n1 = spec_instance_name(name, ev1, row1);
    let n2 = spec_instance_name(name, ev2, row2);
    assert(n1 == name + " #"@ + d1);
    assert(n2 == name + " #"@ + d2);
    if n1 == n2 {
        assert(n1.len() == name.len() + " #"@.len() + d1.len());
        assert(n2.len() == name.len() + " #"@.len() + d2.len());
        assert(d1.len() == d2.len());
        assert forall|k: int| 0 <= k < d1.len() implies d1[k] == d2[k] by {
            assert(n1[name.len() + " #"@.len() + k] == d1[k]);
            assert(n2[name.len() + " #"@.len() + k] == d2[k]);
        }
        assert(d1 =~= d2);
    }
}

/// One step of a concrete instance: the row's values substituted into the
/// step text and docstring.
pub open spec fn spec_substituted_step(st: StepView, ev: ExampleValuesView) -> StepView {
    StepView {
        keyword: st.keyword,
        ty: st.ty,
        value: spec_insert_values(st.value, ev),
        docstring: match st.docstring {
            Some(d) => Some(spec_insert_values(d, ev)),
            None => None,
        },
    }
}

/// Every step of a concrete instance.
pub open spec fn spec_substituted_steps(steps: Seq<StepView>, ev: ExampleValuesView) -> Seq<
    StepView,
> {
    steps.map_values(|st: StepView| spec_substituted_step(st, ev))
}

/// The name of a concrete instance: the row's values substituted into the
/// template name; if that changes nothing, the 1-based row number is
/// appended instead, to keep the instances' identities distinct.
pub open spec fn spec_instance_name(name: Seq<char>, ev: ExampleValuesView, row: nat) -> Seq<
    char,
> {
    let n = spec_insert_values(name, ev);
    if n == name {
        name + " #"@ + spec_digits(row)
    } else {
        n
    }
}

/// The concrete scenario made from a template and one example row.
pub open spec fn spec_expanded_scenario(
    s: crate::model::ScenarioView,
    ev: ExampleValuesView,
    row: nat,
) -> crate::model::ScenarioView {
    crate::model::ScenarioView {
        name: spec_instance_name(s.name, ev, row),
        steps: spec_substituted_steps(s.steps, ev),
        examples: s.examples,
        tags: s.tags,
    }
}

impl ExampleValues {
    /// The example rows of a scenario's table, one per data row; a missing
    /// or empty table yields a single row with no substitutions.
    pub fn from_examples(examples: &Option<ExamplesTable>) -> (res: Vec<ExampleValues>)
        ensures
            match examples.deep_view() {
                None => res.deep_view() =~= seq![spec_empty_values()],
                Some(t) => {
                    if t.rows.len() == 0 {
                        res.deep_view() =~= seq![spec_empty_values()]
                    } else {
                        &&& res.deep_view().len() == t.rows.len()
                        &&& forall|i: int|
                            0 <= i < t.rows.len() ==> res.deep_view()[i]
                                == (ExampleValuesView { keys: t.header, values: t.rows[i] })
                    }
                },
            },
    {
        match examples {
            None => {
                let mut res: Vec<ExampleValues> = Vec::new();
                res.push(ExampleValues::empty());
                proof {
                    assert(res.deep_view() =~= seq![spec_empty_values()]);
                }
                res
            },
            Some(t) => {
                if t.rows.len() == 0 {
                    let mut res: Vec<ExampleValues> = Vec::new();
                    res.push(ExampleValues::empty());
                    proof {
                        assert(res.deep_view() =~= seq![spec_empty_values()]);
                    }
                    res
                } else {
                    let mut res: Vec<ExampleValues> = Vec::new();
                    let mut i: usize = 0;
                    while i < t.rows.len()
                        invariant
                            i <= t.rows@.len(),
                            res.deep_view().len() == i,
                            forall|k: int|
                                0 <= k < i ==> res.deep_view()[k] == (ExampleValuesView {
                                    keys: t@.header,
                                    values: t@.rows[k],
                                }),
                        decreases t.rows@.len() - i,
                    {
                        let keys = t.header.clone();
                        let values = t.rows[i].clone();
                        proof {
                            crate::model::lemma_string_vec_clone(t.header, keys);
                            crate::model::lemma_string_vec_clone(t.rows[i as int], values);
                        }
                        let ev = ExampleValues { keys, values };
                        proof {
                            assert(ev@ =~= (ExampleValuesView {
                                keys: t@.header,
                                values: t@.rows[i as int],
                            }));
                        }
                        let ghost pre = res;
                        res.push(ev);
                        proof {
                            crate::model::lemma_push_deep_view(pre, res, ev);
                        }
                        i += 1;
                    }
                    res
                }
            },
        }
    }
}

/// Builds the concrete scenario for one example row.
fn instantiate(scenario: &Scenario, ev: &ExampleValues, row: u64) -> (res: Scenario)
    ensures
        res@ == spec_expanded_scenario(scenario@, ev@, row as nat),
{
    let name0 = ev.insert_values(scenario.name.as_str());
    let name = if name0 == scenario.name {
        let mut n = scenario.name.clone();
        n.append(" #");
        let digits = u64_digits(row);
        n.append(digits.as_str());
        n
    } else {
        name0
    };
    let mut steps: Vec<Step> = Vec::new();
    let mut i: usize = 0;
    while i < scenario.steps.len()
        invariant
            i <= scenario.steps@.len(),
            steps.deep_view().len() == i,
            forall|k: int|
                0 <= k < i ==> steps.deep_view()[k] == spec_substituted_step(
                    scenario@.steps[k],
                    ev@,
                ),
        decreases scenario.steps@.len() - i,
    {
        let st = &scenario.steps[i];
        let docstring = match &st.docstring {
            Some(d) => Some(ev.insert_values(d.as_str())),
            None => None,
        };
        let next = Step {
            keyword: st.keyword.clone(),
            ty: st.ty,
            value: ev.insert_values(st.value.as_str()),
            docstring,
        };
        proof {
            assert(next@ == spec_substituted_step(scenario@.steps[i as int], ev@));
        }
        let ghost pre = steps;
        steps.push(next);
        proof {
            crate::model::lemma_push_deep_view(pre, steps, next);
        }
        i += 1;
    }
    let res = Scenario {
        name,
        steps,
        examples: scenario.examples.clone(),
        tags: scenario.tags.clone(),
    };
    proof {
        crate::model::lemma_string_vec_clone(scenario.tags, res.tags);
        assert(res@.steps =~= spec_substituted_steps(scenario@.steps, ev@));
        assert(res@ =~= spec_expanded_scenario(scenario@, ev@, row as nat));
    }
    res
}

/// Expands a scenario into its concrete instances: one per example row, or
/// a single unchanged instance when no examples are attached.
pub fn expand_scenario(scenario: &Scenario) -> (res: Vec<(ExampleValues, Scenario)>)
    ensures
        match scenario@.examples {
            None => res.deep_view() =~= seq![(spec_empty_values(), scenario@)],
            Some(t) => {
                if t.rows.len() == 0 {
                    res.deep_view() =~= seq![(spec_empty_values(), scenario@)]
                } else {
                    &&& res.deep_view().len() == t.rows.len()
                    &&& forall|i: int|
                        0 <= i < t.rows.len() ==> res.deep_view()[i].0 == (ExampleValuesView {
                            keys: t.header,
                            values: t.rows[i],
                        }) && res.deep_view()[i].1 == spec_expanded_scenario(
                            scenario@,
                            ExampleValuesView { keys: t.header, values: t.rows[i] },
                            (i + 1) as nat,
                        )
                }
            },
        },
{
    match &scenario.examples {
        None => {
            let mut res: Vec<(ExampleValues, Scenario)> = Vec::new();
            res.push((ExampleValues::empty(), scenario.clone()));
            proof {
                assert(res.deep_view() =~= seq![(spec_empty_values(), scenario@)]);
            }
            res
        },
        Some(t) => {
            if t.rows.len() == 0 {
                let mut res: Vec<(ExampleValues, Scenario)> = Vec::new();
                res.push((ExampleValues::empty(), scenario.clone()));
                proof {
                    assert(res.deep_view() =~= seq![(spec_empty_values(), scenario@)]);
                }
                res
            } else {
                let mut res: Vec<(ExampleValues, Scenario)> = Vec::new();
                let mut i: usize = 0;
                while i < t.rows.len()
                    invariant
                        i <= t.rows@.len(),
                        t.rows@.len() <= usize::MAX,
                        scenario@.examples == Some(t@),
                        res.deep_view().len() == i,
                        forall|k: int|
                            0 <= k < i ==> res.deep_view()[k].0 == (ExampleValuesView {
                                keys: t@.header,
                                values: t@.rows[k],
                            }) && res.deep_view()[k].1 == spec_expanded_scenario(
                                scenario@,
                                ExampleValuesView { keys: t@.header, values: t@.rows[k] },
                                (k + 1) as nat,
                            ),
                    decreases t.rows@.len() - i,
                {
                    let keys = t.header.clone();
                    let values = t.rows[i].clone();
                    proof {
                        crate::model::lemma_string_vec_clone(t.header, keys);
                        crate::model::lemma_string_vec_clone(t.rows[i as int], values);
                    }
                    let ev = ExampleValues { keys, values };
                    proof {
                        assert(ev@ =~= (ExampleValuesView {
                            keys: t@.header,
                            values: t@.rows[i as int],
                        }));
                    }
                    let inst = instantiate(scenario, &ev, (i + 1) as u64);
                    let pair = (ev, inst);
                    let ghost pre = res;
                    res.push(pair);
                    proof {
                        crate::model::lemma_push_deep_view(pre, res, pair);
                    }
                    i += 1;
                }
                res
            }
        },
    }
}

} // verus!
