//! The evaluator: applies an ordered list of rules to one mail and plans
//! the mailbox-session operations to perform, reporting whether the
//! message was removed from the sequence-number space.

use vstd::prelude::*;
use crate::action::{ActionModel, OpModel, SessionOp, ops_of, removes_message, stops_processing};
use crate::mail::{Mail, MailModel};
use crate::rule::{Rule, RuleModel, rule_applies};

verus! {

/// The plan for one applying rule's action list: the operations in
/// order, whether an action stopped rule processing, and whether an
/// action removed the message. The list is cut short after the first
/// stopping or removing action.
pub open spec fn rule_action_plan(actions: Seq<ActionModel>, idx: int) -> (Seq<OpModel>, bool, bool)
    decreases actions.len(),
{
    if actions.len() == 0 {
        (Seq::empty(), false, false)
    } else {
        let a = actions[0];
        let ops = ops_of(a, idx);
        if stops_processing(a) {
            (ops, true, false)
        } else if removes_message(a) {
            (ops, false, true)
        } else {
            let rest = rule_action_plan(actions.drop_first(), idx);
            (ops + rest.0, rest.1, rest.2)
        }
    }
}

/// The plan for one mail against an ordered rule list: the operations of
/// every applying rule in order, ending at the first rule whose actions
/// stop processing or remove the message; the flag says whether the
/// message was removed.
pub open spec fn mail_plan(rules: Seq<RuleModel>, m: MailModel, idx: int) -> (Seq<OpModel>, bool)
    decreases rules.len(),
{
    if rules.len() == 0 {
        (Seq::empty(), false)
    } else {
        let r = rules[0];
        if !rule_applies(r, m) {
            mail_plan(rules.drop_first(), m, idx)
        } else {
            let p = rule_action_plan(r.actions, idx);
            if p.1 {
                (p.0, false)
            } else if p.2 {
                (p.0, true)
            } else {
                let rest = mail_plan(rules.drop_first(), m, idx);
                (p.0 + rest.0, rest.1)
            }
        }
    }
}

/// Runs one applying rule's action list: plans each action's operations
/// in order, stopping after the first stopping or removing action.
fn run_rule_actions(rule: &Rule, idx: usize) -> (r: (Vec<SessionOp>, bool, bool))
    ensures
        r.0.deep_view() == rule_action_plan(rule@.actions, idx as int).0,
        r.1 == rule_action_plan(rule@.actions, idx as int).1,
        r.2 == rule_action_plan(rule@.actions, idx as int).2,
{
    let ghost full: Seq<ActionModel> = rule@.actions;
    let mut ops: Vec<SessionOp> = Vec::new();
    proof {
        assert(full.subrange(0, full.len() as int) =~= full);
        assert(ops.deep_view() =~= Seq::<OpModel>::empty());
        assert(Seq::<OpModel>::empty() + rule_action_plan(full, idx as int).0 =~= rule_action_plan(
            full,
            idx as int,
        ).0);
    }
    let mut j: usize = 0;
    while j < rule.actions.len()
        invariant
            full == rule@.actions,
            full.len() == rule.actions@.len(),
            0 <= j <= full.len(),
            rule_action_plan(full, idx as int).0 == ops.deep_view() + rule_action_plan(
                full.subrange(j as int, full.len() as int),
                idx as int,
            ).0,
            rule_action_plan(full, idx as int).1 == rule_action_plan(
                full.subrange(j as int, full.len() as int),
                idx as int,
            ).1,
            rule_action_plan(full, idx as int).2 == rule_action_plan(
                full.subrange(j as int, full.len() as int),
                idx as int,
            ).2,
        decreases full.len() - j,
    {
        let ghost suf = full.subrange(j as int, full.len() as int);
        proof {
            assert(suf[0] == full[j as int]);
            assert(suf.drop_first() =~= full.subrange(j + 1, full.len() as int));
        }
        let a = &rule.actions[j];
        let ghost ops_before = ops.deep_view();
        let mut aops = a.session_ops(idx);
        ops.append(&mut aops);
        proof {
            assert(ops.deep_view() =~= ops_before + ops_of(full[j as int], idx as int));
        }
        if a.stops_rule_processing() {
            proof {
                assert(rule_action_plan(full, idx as int).0 =~= ops.deep_view());
            }
            return (ops, true, false);
        }
        if a.remove_mail() {
            proof {
                assert(rule_action_plan(full, idx as int).0 =~= ops.deep_view());
            }
            return (ops, false, true);
        }
        proof {
            assert(rule_action_plan(suf, idx as int).0 == ops_of(full[j as int], idx as int)
                + rule_action_plan(suf.drop_first(), idx as int).0);
            assert(rule_action_plan(full, idx as int).0 =~= ops.deep_view() + rule_action_plan(
                full.subrange(j + 1, full.len() as int),
                idx as int,
            ).0);
        }
        j = j + 1;
    }
    proof {
        assert(full.subrange(full.len() as int, full.len() as int) =~= Seq::<ActionModel>::empty());
        assert(rule_action_plan(full, idx as int).0 =~= ops.deep_view());
    }
    (ops, false, false)
}

/// Applies every rule in order to one mail: each applying rule's actions
/// are planned in order; the first stopping action ends processing with
/// the message kept, the first removing action ends processing with the
/// message removed. Returns the planned operations and whether the
/// message was removed from the sequence-number space.
pub fn apply_rules(rules: &Vec<Rule>, mail: &Mail, idx: usize) -> (r: (Vec<SessionOp>, bool))
    ensures
        r.0.deep_view() == mail_plan(rules.deep_view(), mail@, idx as int).0,
        r.1 == mail_plan(rules.deep_view(), mail@, idx as int).1,
{
    let ghost full: Seq<RuleModel> = rules.deep_view();
    let mut ops: Vec<SessionOp> = Vec::new();
    proof {
        assert(full.subrange(0, full.len() as int) =~= full);
        assert(ops.deep_view() =~= Seq::<OpModel>::empty());
        assert(Seq::<OpModel>::empty() + mail_plan(full, mail@, idx as int).0 =~= mail_plan(
            full,
            mail@,
            idx as int,
        ).0);
    }
    let mut i: usize = 0;
    while i < rules.len()
        invariant
            full == rules.deep_view(),
            full.len() == rules@.len(),
            0 <= i <= full.len(),
            mail_plan(full, mail@, idx as int).0 == ops.deep_view() + mail_plan(
                full.subrange(i as int, full.len() as int),
                mail@,
                idx as int,
            ).0,
            mail_plan(full, mail@, idx as int).1 == mail_plan(
                full.subrange(i as int, full.len() as int),
                mail@,
                idx as int,
            ).1,
        decreases full.len() - i,
    {
        let ghost suf = full.subrange(i as int, full.len() as int);
        proof {
            assert(suf[0] == full[i as int]);
            assert(suf.drop_first() =~= full.subrange(i + 1, full.len() as int));
        }
        let rule = &rules[i];
        if rule.evaluate(mail) {
            let ghost ops_before = ops.deep_view();
            let (mut rops, stopped, removed) = run_rule_actions(rule, idx);
            ops.append(&mut rops);
            proof {
                assert(ops.deep_view() =~= ops_before + rule_action_plan(
                    full[i as int].actions,
                    idx as int,
                ).0);
            }
            if stopped {
                proof {
                    assert(mail_plan(full, mail@, idx as int).0 =~= ops.deep_view());
                }
                return (ops, false);
            }
            if removed {
                proof {
                    assert(mail_plan(full, mail@, idx as int).0 =~= ops.deep_view());
                }
                return (ops, true);
            }
            proof {
                assert(mail_plan(full, mail@, idx as int).0 =~= ops.deep_view() + mail_plan(
                    full.subrange(i + 1, full.len() as int),
                    mail@,
                    idx as int,
                ).0);
            }
        } else {
            proof {
                assert(mail_plan(suf, mail@, idx as int) == mail_plan(
                    suf.drop_first(),
                    mail@,
                    idx as int,
                ));
            }
        }
        i = i + 1;
    }
    proof {
        assert(full.subrange(full.len() as int, full.len() as int) =~= Seq::<RuleModel>::empty());
        assert(mail_plan(full, mail@, idx as int).0 =~= ops.deep_view());
    }
    (ops, false)
}

} // verus!
