//! The loaded configuration of one account: its connection settings and
//! its rules, in configured order.

use vstd::prelude::*;
use crate::account::Account;
use crate::rule::Rule;

verus! {

/// The configuration of one account: the account settings and the rules
/// to apply, in order. Immutable for the lifetime of a scan session.
#[derive(Debug)]
pub struct Config {
    pub account: Account,
    pub rules: Vec<Rule>,
}

impl Config {
    /// Bundles an account with its rules.
    pub fn new(account: Account, rules: Vec<Rule>) -> (r: Config)
        ensures
            r.account@ == account@,
            r.rules.deep_view() == rules.deep_view(),
    {
        Config { account, rules }
    }
}

} // verus!
