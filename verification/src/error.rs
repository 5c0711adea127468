//! Errors raised while building rules from configuration text or while
//! parsing a fetched message. Evaluation itself is total and never fails.

use vstd::prelude::*;
use vstd::string::StringExecFns;

verus! {

/// Ghost model of an [`Error`].
pub enum ErrorModel {
    InvalidAction(Seq<char>),
    InvalidCondition(Seq<char>),
    InvalidConditionChecker(Seq<char>),
    MailParse,
}

/// An error from constructing a rule part out of configuration text, or
/// from parsing a fetched message into a mail value.
#[derive(Debug, PartialEq)]
pub enum Error {
    /// The action text matches no known action form.
    InvalidAction(String),
    /// The condition text matches no known condition form.
    InvalidCondition(String),
    /// The checker word of a condition is neither `is` nor `contains`.
    InvalidConditionChecker(String),
    /// The raw message could not be parsed into headers.
    MailParse,
}

impl View for Error {
    type V = ErrorModel;

    open spec fn view(&self) -> ErrorModel {
        match self {
            Error::InvalidAction(s) => ErrorModel::InvalidAction(s@),
            Error::InvalidCondition(s) => ErrorModel::InvalidCondition(s@),
            Error::InvalidConditionChecker(s) => ErrorModel::InvalidConditionChecker(s@),
            Error::MailParse => ErrorModel::MailParse,
        }
    }
}

impl DeepView for Error {
    type V = ErrorModel;

    open spec fn deep_view(&self) -> ErrorModel {
        self.view()
    }
}

impl Error {
    /// The diagnostic line for this error, naming the offending text.
    pub fn message(&self) -> (r: String)
        ensures
            match self {
                Error::InvalidAction(s) => r@ == "action `"@ + s@ + "` is invalid"@,
                Error::InvalidCondition(s) => r@ == "condition `"@ + s@ + "` is invalid"@,
                Error::InvalidConditionChecker(s) => r@ == "checker `"@ + s@ + "` is invalid"@,
                Error::MailParse => r@ == "mail could not be parsed"@,
            },
    {
        match self {
            Error::InvalidAction(s) => {
                let mut out = String::from_str("action `");
                out.append(s.as_str());
                out.append("` is invalid");
                out
            },
            Error::InvalidCondition(s) => {
                let mut out = String::from_str("condition `");
                out.append(s.as_str());
                out.append("` is invalid");
                out
            },
            Error::InvalidConditionChecker(s) => {
                let mut out = String::from_str("checker `");
                out.append(s.as_str());
                out.append("` is invalid");
                out
            },
            Error::MailParse => String::from_str("mail could not be parsed"),
        }
    }
}

} // verus!
