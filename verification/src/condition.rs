//! Conditions: a (field, checker, target) predicate over a mail value,
//! parsed from the textual form `<field> <checker> <target>`.

use vstd::prelude::*;
use vstd::string::StrSliceExecFns;
use crate::error::{Error, ErrorModel};
use crate::mail::{Mail, MailModel, joined, joined_of};
use crate::text::{contains_seq, contains_str, find_char, index_of_char, str_eq, trim_of, trim_str};

verus! {

/// How a condition compares the derived field text with its target.
#[derive(Clone, Copy, Debug, PartialEq, Eq, Structural)]
pub enum ConditionChecker {
    /// The target must occur in the derived text as a substring.
    Contains,
    /// The derived text must equal the target exactly.
    Is,
}

/// Which part of a mail a condition reads.
#[derive(Clone, Copy, Debug, PartialEq, Eq, Structural)]
pub enum FieldKind {
    Sender,
    Cc,
    Recipient,
    Subject,
    Content,
}

/// Ghost model of a condition.
pub struct CondModel {
    pub field: FieldKind,
    pub checker: ConditionChecker,
    pub target: Seq<char>,
}

/// The text a condition's field derives from a mail: the joined address
/// list for the address fields, the trimmed subject or body otherwise.
pub open spec fn derived_text(m: MailModel, f: FieldKind) -> Seq<char> {
    match f {
        FieldKind::Sender => joined_of(m.from),
        FieldKind::Cc => joined_of(m.cc),
        FieldKind::Recipient => joined_of(m.to),
        FieldKind::Subject => trim_of(m.subject),
        FieldKind::Content => trim_of(m.content),
    }
}

/// Whether a checker accepts a derived text for a target: exact equality
/// for `Is`, substring presence for `Contains`.
pub open spec fn checker_accepts(c: ConditionChecker, target: Seq<char>, derived: Seq<char>) -> bool {
    match c {
        ConditionChecker::Is => derived == target,
        ConditionChecker::Contains => contains_seq(derived, target),
    }
}

/// Whether a condition holds of a mail.
pub open spec fn cond_matches(c: CondModel, m: MailModel) -> bool {
    checker_accepts(c.checker, c.target, derived_text(m, c.field))
}

/// The checker named by a checker token, if any.
pub open spec fn parse_checker(s: Seq<char>) -> Option<ConditionChecker> {
    if s == "is"@ {
        Some(ConditionChecker::Is)
    } else if s == "contains"@ {
        Some(ConditionChecker::Contains)
    } else {
        None
    }
}

/// The field named by a field token, if any.
pub open spec fn parse_field(s: Seq<char>) -> Option<FieldKind> {
    if s == "sender"@ {
        Some(FieldKind::Sender)
    } else if s == "cc"@ {
        Some(FieldKind::Cc)
    } else if s == "recipient"@ {
        Some(FieldKind::Recipient)
    } else if s == "subject"@ {
        Some(FieldKind::Subject)
    } else if s == "content"@ {
        Some(FieldKind::Content)
    } else {
        None
    }
}

/// The condition described by the form `<field> <checker> <target>`, or
/// the error for a malformed form: a bad checker token is reported by
/// itself, any other malformation reports the whole text.
pub open spec fn parse_cond(s: Seq<char>) -> Result<CondModel, ErrorModel> {
    let i = index_of_char(s, ' ');
    if i == s.len() {
        Err(ErrorModel::InvalidCondition(s))
    } else {
        let rest = s.subrange(i + 1, s.len() as int);
        let j = index_of_char(rest, ' ');
        if j == rest.len() {
            Err(ErrorModel::InvalidCondition(s))
        } else {
            let ck_tok = rest.subrange(0, j);
            let target = rest.subrange(j + 1, rest.len() as int);
            match parse_checker(ck_tok) {
                None => Err(ErrorModel::InvalidConditionChecker(ck_tok)),
                Some(ck) => match parse_field(s.subrange(0, i)) {
                    None => Err(ErrorModel::InvalidCondition(s)),
                    Some(f) => Ok(CondModel { field: f, checker: ck, target }),
                },
            }
        }
    }
}

impl ConditionChecker {
    /// Reads a checker token: `is` or `contains`.
    pub fn parse(checker: &str) -> (r: Result<ConditionChecker, Error>)
        ensures
            match r {
                Ok(c) => parse_checker(checker@) == Some(c),
                Err(e) => parse_checker(checker@) is None && e@
                    == ErrorModel::InvalidConditionChecker(checker@),
            },
    {
        if str_eq(checker, "is") {
            Ok(ConditionChecker::Is)
        } else if str_eq(checker, "contains") {
            Ok(ConditionChecker::Contains)
        } else {
            Err(Error::InvalidConditionChecker(checker.to_owned()))
        }
    }

    /// Whether this checker accepts the derived text `to_check` for the
    /// target `target`.
    pub fn check(&self, target: &str, to_check: &str) -> (r: bool)
        ensures
            r == checker_accepts(*self, target@, to_check@),
    {
        match self {
            ConditionChecker::Is => str_eq(target, to_check),
            ConditionChecker::Contains => contains_str(to_check, target),
        }
    }
}

/// A condition over one mail field, with its checker and target text.
#[derive(Debug, PartialEq)]
pub enum ConditionType {
    Sender(ConditionChecker, String),
    Cc(ConditionChecker, String),
    Recipient(ConditionChecker, String),
    Subject(ConditionChecker, String),
    Content(ConditionChecker, String),
}

impl View for ConditionType {
    type V = CondModel;

    open spec fn view(&self) -> CondModel {
        match self {
            ConditionType::Sender(c, t) => CondModel {
                field: FieldKind::Sender,
                checker: *c,
                target: t@,
            },
            ConditionType::Cc(c, t) => CondModel { field: FieldKind::Cc, checker: *c, target: t@ },
            ConditionType::Recipient(c, t) => CondModel {
                field: FieldKind::Recipient,
                checker: *c,
                target: t@,
            },
            ConditionType::Subject(c, t) => CondModel {
                field: FieldKind::Subject,
                checker: *c,
                target: t@,
            },
            ConditionType::Content(c, t) => CondModel {
                field: FieldKind::Content,
                checker: *c,
                target: t@,
            },
        }
    }
}

impl DeepView for ConditionType {
    type V = CondModel;

    open spec fn deep_view(&self) -> CondModel {
        self.view()
    }
}

impl ConditionType {
    /// Reads the textual form `<field> <checker> <target>`.
    pub fn parse(condition: &str) -> (r: Result<ConditionType, Error>)
        ensures
            match r {
                Ok(ct) => parse_cond(condition@) == Ok::<CondModel, ErrorModel>(ct@),
                Err(e) => parse_cond(condition@) == Err::<CondModel, ErrorModel>(e@),
            },
    {
        let n = condition.unicode_len();
        let i = find_char(condition, ' ');
        if i == n {
            return Err(Error::InvalidCondition(condition.to_owned()));
        }
        let rest = condition.substring_char(i + 1, n);
        let rn = rest.unicode_len();
        let j = find_char(rest, ' ');
        if j == rn {
            return Err(Error::InvalidCondition(condition.to_owned()));
        }
        let ck_tok = rest.substring_char(0, j);
        let ck = match ConditionChecker::parse(ck_tok) {
            Ok(c) => c,
            Err(e) => {
                return Err(e);
            },
        };
        let target = rest.substring_char(j + 1, rn).to_owned();
        let field_tok = condition.substring_char(0, i);
        if str_eq(field_tok, "sender") {
            Ok(ConditionType::Sender(ck, target))
        } else if str_eq(field_tok, "cc") {
            Ok(ConditionType::Cc(ck, target))
        } else if str_eq(field_tok, "recipient") {
            Ok(ConditionType::Recipient(ck, target))
        } else if str_eq(field_tok, "subject") {
            Ok(ConditionType::Subject(ck, target))
        } else if str_eq(field_tok, "content") {
            Ok(ConditionType::Content(ck, target))
        } else {
            Err(Error::InvalidCondition(condition.to_owned()))
        }
    }

    /// Whether this condition holds of `mail`.
    pub fn check(&self, mail: &Mail) -> (r: bool)
        ensures
            r == cond_matches(self@, mail@),
    {
        match self {
            ConditionType::Sender(c, t) => {
                let derived = joined(&mail.from);
                c.check(t.as_str(), derived.as_str())
            },
            ConditionType::Cc(c, t) => {
                let derived = joined(&mail.cc);
                c.check(t.as_str(), derived.as_str())
            },
            ConditionType::Recipient(c, t) => {
                let derived = joined(&mail.to);
                c.check(t.as_str(), derived.as_str())
            },
            ConditionType::Subject(c, t) => {
                let derived = trim_str(mail.subject.as_str());
                c.check(t.as_str(), derived.as_str())
            },
            ConditionType::Content(c, t) => {
                let derived = trim_str(mail.content.as_str());
                c.check(t.as_str(), derived.as_str())
            },
        }
    }
}

/// A condition as rule evaluation uses it.
#[derive(Debug, PartialEq)]
pub struct Condition(pub ConditionType);

impl View for Condition {
    type V = CondModel;

    open spec fn view(&self) -> CondModel {
        self.0@
    }
}

impl DeepView for Condition {
    type V = CondModel;

    open spec fn deep_view(&self) -> CondModel {
        self.view()
    }
}

impl Condition {
    /// Builds a condition from its textual form.
    pub fn new(condition: &str) -> (r: Result<Condition, Error>)
        ensures
            match r {
                Ok(c) => parse_cond(condition@) == Ok::<CondModel, ErrorModel>(c@),
                Err(e) => parse_cond(condition@) == Err::<CondModel, ErrorModel>(e@),
            },
    {
        match ConditionType::parse(condition) {
            Ok(ct) => Ok(Condition(ct)),
            Err(e) => Err(e),
        }
    }

    /// Whether this condition holds of `mail`.
    pub fn check(&self, mail: &Mail) -> (r: bool)
        ensures
            r == cond_matches(self@, mail@),
    {
        self.0.check(mail)
    }
}

} // verus!
