//! Rules: a named bundle of conditions (all- or any-mode), exceptions
//! that veto the rule, and actions, together with the evaluation
//! semantics against one mail.

use vstd::prelude::*;
use crate::action::{Action, ActionModel, parse_action};
use crate::condition::{CondModel, Condition, cond_matches, parse_cond};
use crate::error::{Error, ErrorModel};
use crate::mail::{Mail, MailModel};

verus! {

/// Ghost model of a [`Rule`].
pub struct RuleModel {
    pub name: Seq<char>,
    pub description: Option<Seq<char>>,
    pub any: bool,
    pub conditions: Seq<CondModel>,
    pub actions: Seq<ActionModel>,
    pub exceptions: Seq<CondModel>,
}

/// A named rule: conditions with an all/any mode, exceptions that veto
/// the rule, and the actions to run when it applies. Immutable once
/// built; order of every list is the configured order.
#[derive(Debug)]
pub struct Rule {
    pub name: String,
    pub description: Option<String>,
    pub any: bool,
    pub conditions: Vec<Condition>,
    pub actions: Vec<Action>,
    pub exceptions: Vec<Condition>,
}

impl View for Rule {
    type V = RuleModel;

    open spec fn view(&self) -> RuleModel {
        RuleModel {
            name: self.name@,
            description: self.description.deep_view(),
            any: self.any,
            conditions: self.conditions.deep_view(),
            actions: self.actions.deep_view(),
            exceptions: self.exceptions.deep_view(),
        }
    }
}

impl DeepView for Rule {
    type V = RuleModel;

    open spec fn deep_view(&self) -> RuleModel {
        self.view()
    }
}

/// Whether the conditions of a rule pass for a mail: every condition in
/// all-mode, at least one in any-mode.
pub open spec fn conditions_pass(r: RuleModel, m: MailModel) -> bool {
    if r.any {
        exists|i: int| 0 <= i < r.conditions.len() && cond_matches(r.conditions[i], m)
    } else {
        forall|i: int| 0 <= i < r.conditions.len() ==> cond_matches(r.conditions[i], m)
    }
}

/// Whether some exception of a rule matches a mail and so vetoes it.
pub open spec fn exception_vetoes(r: RuleModel, m: MailModel) -> bool {
    exists|i: int| 0 <= i < r.exceptions.len() && cond_matches(r.exceptions[i], m)
}

/// Whether a rule applies to a mail: its conditions pass and no
/// exception vetoes it.
pub open spec fn rule_applies(r: RuleModel, m: MailModel) -> bool {
    conditions_pass(r, m) && !exception_vetoes(r, m)
}

/// The error from parsing a list of condition texts, reading them in
/// order, or `None` when all parse.
pub open spec fn conds_parse_err(l: Seq<Seq<char>>) -> Option<ErrorModel>
    decreases l.len(),
{
    if l.len() == 0 {
        None
    } else {
        match parse_cond(l[0]) {
            Err(e) => Some(e),
            Ok(_) => conds_parse_err(l.drop_first()),
        }
    }
}

/// The error from parsing a list of action texts, reading them in order,
/// or `None` when all parse.
pub open spec fn actions_parse_err(l: Seq<Seq<char>>) -> Option<ErrorModel>
    decreases l.len(),
{
    if l.len() == 0 {
        None
    } else {
        match parse_action(l[0]) {
            Err(e) => Some(e),
            Ok(_) => actions_parse_err(l.drop_first()),
        }
    }
}

proof fn lemma_conds_parse_err_at(l: Seq<Seq<char>>, i: int)
    requires
        0 <= i < l.len(),
        forall|k: int| 0 <= k < i ==> parse_cond(l[k]) is Ok,
        parse_cond(l[i]) is Err,
    ensures
        conds_parse_err(l) == Some(parse_cond(l[i])->Err_0),
    decreases i,
{
    if i > 0 {
        assert(parse_cond(l[0]) is Ok);
        assert forall|k: int| 0 <= k < i - 1 implies parse_cond(l.drop_first()[k]) is Ok by {
            assert(l.drop_first()[k] == l[k + 1]);
        }
        assert(l.drop_first()[i - 1] == l[i]);
        lemma_conds_parse_err_at(l.drop_first(), i - 1);
    }
}

proof fn lemma_conds_parse_err_none(l: Seq<Seq<char>>)
    requires
        forall|k: int| 0 <= k < l.len() ==> parse_cond(l[k]) is Ok,
    ensures
        conds_parse_err(l) is None,
    decreases l.len(),
{
    if l.len() > 0 {
        lemma_conds_parse_err_none(l.drop_first());
    }
}

proof fn lemma_actions_parse_err_at(l: Seq<Seq<char>>, i: int)
    requires
        0 <= i < l.len(),
        forall|k: int| 0 <= k < i ==> parse_action(l[k]) is Ok,
        parse_action(l[i]) is Err,
    ensures
        actions_parse_err(l) == Some(parse_action(l[i])->Err_0),
    decreases i,
{
    if i > 0 {
        assert(parse_action(l[0]) is Ok);
        assert forall|k: int| 0 <= k < i - 1 implies parse_action(l.drop_first()[k]) is Ok by {
            assert(l.drop_first()[k] == l[k + 1]);
        }
        assert(l.drop_first()[i - 1] == l[i]);
        lemma_actions_parse_err_at(l.drop_first(), i - 1);
    }
}

proof fn lemma_actions_parse_err_none(l: Seq<Seq<char>>)
    requires
        forall|k: int| 0 <= k < l.len() ==> parse_action(l[k]) is Ok,
    ensures
        actions_parse_err(l) is None,
    decreases l.len(),
{
    if l.len() > 0 {
        lemma_actions_parse_err_none(l.drop_first());
    }
}

/// Parses a list of condition texts in order, stopping at the first
/// failure.
fn parse_conditions(texts: &Vec<String>) -> (r: Result<Vec<Condition>, Error>)
    ensures
        match r {
            Ok(cs) => {
                &&& conds_parse_err(texts.deep_view()) is None
                &&& cs.deep_view().len() == texts.deep_view().len()
                &&& forall|i: int|
                    0 <= i < texts.deep_view().len() ==> parse_cond(texts.deep_view()[i]) == Ok::<
                        CondModel,
                        ErrorModel,
                    >(cs.deep_view()[i])
            },
            Err(e) => conds_parse_err(texts.deep_view()) == Some(e@),
        },
{
    let mut out: Vec<Condition> = Vec::new();
    let mut i: usize = 0;
    while i < texts.len()
        invariant
            0 <= i <= texts@.len(),
            out.deep_view().len() == i,
            forall|k: int|
                0 <= k < i ==> parse_cond(texts.deep_view()[k]) == Ok::<CondModel, ErrorModel>(
                    out.deep_view()[k],
                ),
        decreases texts@.len() - i,
    {
        match Condition::new(texts[i].as_str()) {
            Ok(c) => {
                out.push(c);
            },
            Err(e) => {
                proof {
                    lemma_conds_parse_err_at(texts.deep_view(), i as int);
                }
                return Err(e);
            },
        }
        i = i + 1;
    }
    proof {
        lemma_conds_parse_err_none(texts.deep_view());
    }
    Ok(out)
}

/// Parses a list of action texts in order, stopping at the first
/// failure.
fn parse_actions(texts: &Vec<String>) -> (r: Result<Vec<Action>, Error>)
    ensures
        match r {
            Ok(acts) => {
                &&& actions_parse_err(texts.deep_view()) is None
                &&& acts.deep_view().len() == texts.deep_view().len()
                &&& forall|i: int|
                    0 <= i < texts.deep_view().len() ==> parse_action(texts.deep_view()[i]) == Ok::<
                        ActionModel,
                        ErrorModel,
                    >(acts.deep_view()[i])
            },
            Err(e) => actions_parse_err(texts.deep_view()) == Some(e@),
        },
{
    let mut out: Vec<Action> = Vec::new();
    let mut i: usize = 0;
    while i < texts.len()
        invariant
            0 <= i <= texts@.len(),
            out.deep_view().len() == i,
            forall|k: int|
                0 <= k < i ==> parse_action(texts.deep_view()[k]) == Ok::<ActionModel, ErrorModel>(
                    out.deep_view()[k],
                ),
        decreases texts@.len() - i,
    {
        match Action::new(texts[i].as_str()) {
            Ok(a) => {
                out.push(a);
            },
            Err(e) => {
                proof {
                    lemma_actions_parse_err_at(texts.deep_view(), i as int);
                }
                return Err(e);
            },
        }
        i = i + 1;
    }
    proof {
        lemma_actions_parse_err_none(texts.deep_view());
    }
    Ok(out)
}

/// Whether some condition in a list matches the mail.
fn some_cond_matches(conds: &Vec<Condition>, mail: &Mail) -> (r: bool)
    ensures
        r == exists|i: int|
            0 <= i < conds.deep_view().len() && cond_matches(conds.deep_view()[i], mail@),
{
    let mut i: usize = 0;
    while i < conds.len()
        invariant
            0 <= i <= conds@.len(),
            forall|k: int| 0 <= k < i ==> !cond_matches(conds.deep_view()[k], mail@),
        decreases conds@.len() - i,
    {
        if conds[i].check(mail) {
            proof {
                assert(cond_matches(conds.deep_view()[i as int], mail@));
            }
            return true;
        }
        i = i + 1;
    }
    false
}

/// Whether every condition in a list matches the mail.
fn all_conds_match(conds: &Vec<Condition>, mail: &Mail) -> (r: bool)
    ensures
        r == forall|i: int|
            0 <= i < conds.deep_view().len() ==> cond_matches(conds.deep_view()[i], mail@),
{
    let mut i: usize = 0;
    while i < conds.len()
        invariant
            0 <= i <= conds@.len(),
            forall|k: int| 0 <= k < i ==> cond_matches(conds.deep_view()[k], mail@),
        decreases conds@.len() - i,
    {
        if !conds[i].check(mail) {
            proof {
                assert(!cond_matches(conds.deep_view()[i as int], mail@));
            }
            return false;
        }
        i = i + 1;
    }
    true
}

impl Rule {
    /// Builds a rule from its parts as configuration delivers them:
    /// condition, action and exception texts are parsed in that order and
    /// the first malformed text is reported.
    pub fn new(
        name: String,
        description: Option<String>,
        any: bool,
        conditions: Vec<String>,
        actions: Vec<String>,
        exceptions: Vec<String>,
    ) -> (r: Result<Rule, Error>)
        ensures
            match r {
                Ok(rule) => {
                    &&& conds_parse_err(conditions.deep_view()) is None
                    &&& actions_parse_err(actions.deep_view()) is None
                    &&& conds_parse_err(exceptions.deep_view()) is None
                    &&& rule@.name == name@
                    &&& rule@.description == description.deep_view()
                    &&& rule@.any == any
                    &&& rule@.conditions.len() == conditions.deep_view().len()
                    &&& forall|i: int|
                        0 <= i < conditions.deep_view().len() ==> parse_cond(
                            conditions.deep_view()[i],
                        ) == Ok::<CondModel, ErrorModel>(rule@.conditions[i])
                    &&& rule@.actions.len() == actions.deep_view().len()
                    &&& forall|i: int|
                        0 <= i < actions.deep_view().len() ==> parse_action(
                            actions.deep_view()[i],
                        ) == Ok::<ActionModel, ErrorModel>(rule@.actions[i])
                    &&& rule@.exceptions.len() == exceptions.deep_view().len()
                    &&& forall|i: int|
                        0 <= i < exceptions.deep_view().len() ==> parse_cond(
                            exceptions.deep_view()[i],
                        ) == Ok::<CondModel, ErrorModel>(rule@.exceptions[i])
                },
                Err(e) => {
                    if conds_parse_err(conditions.deep_view()) is Some {
                        conds_parse_err(conditions.deep_view()) == Some(e@)
                    } else if actions_parse_err(actions.deep_view()) is Some {
                        actions_parse_err(actions.deep_view()) == Some(e@)
                    } else {
                        conds_parse_err(exceptions.deep_view()) == Some(e@)
                    }
                },
            },
    {
        let parsed_conditions = match parse_conditions(&conditions) {
            Ok(cs) => cs,
            Err(e) => {
                return Err(e);
            },
        };
        let parsed_actions = match parse_actions(&actions) {
            Ok(acts) => acts,
            Err(e) => {
                return Err(e);
            },
        };
        let parsed_exceptions = match parse_conditions(&exceptions) {
            Ok(cs) => cs,
            Err(e) => {
                return Err(e);
            },
        };
        Ok(
            Rule {
                name,
                description,
                any,
                conditions: parsed_conditions,
                actions: parsed_actions,
                exceptions: parsed_exceptions,
            },
        )
    }

    /// Whether this rule applies to `mail`: in any-mode at least one
    /// condition must match, in all-mode every condition must, and any
    /// matching exception vetoes the rule.
    pub fn evaluate(&self, mail: &Mail) -> (r: bool)
        ensures
            r == rule_applies(self@, mail@),
    {
        proof {
            assert(self@.conditions == self.conditions.deep_view());
            assert(self@.exceptions == self.exceptions.deep_view());
        }
        let passed = if self.any {
            some_cond_matches(&self.conditions, mail)
        } else {
            all_conds_match(&self.conditions, mail)
        };
        proof {
            assert(passed == conditions_pass(self@, mail@));
        }
        if !passed {
            return false;
        }
        let vetoed = some_cond_matches(&self.exceptions, mail);
        proof {
            assert(vetoed == exception_vetoes(self@, mail@));
        }
        !vetoed
    }
}

/// In an all-mode rule a single failing condition makes the rule not
/// apply, whatever the other conditions say.
pub proof fn lemma_all_mode_single_failure(r: RuleModel, m: MailModel, i: int)
    requires
        !r.any,
        0 <= i < r.conditions.len(),
        !cond_matches(r.conditions[i], m),
    ensures
        !rule_applies(r, m),
{
}

/// In an any-mode rule with no matching exception, the rule applies if
/// and only if at least one condition matches; with all conditions false
/// it does not apply.
pub proof fn lemma_any_mode_iff(r: RuleModel, m: MailModel)
    requires
        r.any,
        forall|i: int| 0 <= i < r.exceptions.len() ==> !cond_matches(r.exceptions[i], m),
    ensures
        rule_applies(r, m) <==> exists|i: int|
            0 <= i < r.conditions.len() && cond_matches(r.conditions[i], m),
{
}

/// In an any-mode rule, if every condition is false the rule does not
/// apply, whatever the exceptions say.
pub proof fn lemma_any_mode_all_false(r: RuleModel, m: MailModel)
    requires
        r.any,
        forall|i: int| 0 <= i < r.conditions.len() ==> !cond_matches(r.conditions[i], m),
    ensures
        !rule_applies(r, m),
{
}

/// Evaluation has no hidden state: any two results that satisfy
/// `evaluate`'s contract for the same rule and the same mail are equal,
/// so re-evaluating an immutable rule against an immutable mail yields
/// the same outcome.
pub proof fn lemma_evaluate_deterministic(rm: RuleModel, m: MailModel, r1: bool, r2: bool)
    requires
        r1 == rule_applies(rm, m),
        r2 == rule_applies(rm, m),
    ensures
        r1 == r2,
{
}

/// A matching exception vetoes a rule: whether or not the conditions
/// pass, the rule does not apply.
pub proof fn lemma_exception_veto(r: RuleModel, m: MailModel, i: int)
    requires
        0 <= i < r.exceptions.len(),
        cond_matches(r.exceptions[i], m),
    ensures
        !rule_applies(r, m),
{
}

} // verus!
