//! Actions: the effect a rule applies to the mailbox for one message,
//! parsed from a textual form, and the mailbox-session operations each
//! action performs.

use vstd::prelude::*;
use vstd::string::StrSliceExecFns;
use vstd::string::StringExecFns;
use crate::error::{Error, ErrorModel};
use crate::text::{prefix_of, starts_with_str, str_eq, trim_of, trim_str};

verus! {

/// Ghost model of an [`ActionType`].
pub enum ActionModel {
    NoMoreRules,
    CopyTo(Seq<char>),
    MoveTo(Seq<char>),
    Delete,
    PermanentDelete,
    ForwardTo(Seq<char>),
    ReplyWith(Seq<char>),
    SetFlag(Seq<char>),
    RemoveFlag(Seq<char>),
    ClearFlags,
    MarkAsImportant,
    MarkAsRead,
}

/// The effect a rule can apply to the mailbox for one message.
#[derive(Debug, PartialEq)]
pub enum ActionType {
    NoMoreRules,
    CopyTo(String),
    MoveTo(String),
    Delete,
    PermanentDelete,
    ForwardTo(String),
    ReplyWith(String),
    SetFlag(String),
    RemoveFlag(String),
    ClearFlags,
    MarkAsImportant,
    MarkAsRead,
}

impl View for ActionType {
    type V = ActionModel;

    open spec fn view(&self) -> ActionModel {
        match self {
            ActionType::NoMoreRules => ActionModel::NoMoreRules,
            ActionType::CopyTo(f) => ActionModel::CopyTo(f@),
            ActionType::MoveTo(f) => ActionModel::MoveTo(f@),
            ActionType::Delete => ActionModel::Delete,
            ActionType::PermanentDelete => ActionModel::PermanentDelete,
            ActionType::ForwardTo(a) => ActionModel::ForwardTo(a@),
            ActionType::ReplyWith(t) => ActionModel::ReplyWith(t@),
            ActionType::SetFlag(f) => ActionModel::SetFlag(f@),
            ActionType::RemoveFlag(f) => ActionModel::RemoveFlag(f@),
            ActionType::ClearFlags => ActionModel::ClearFlags,
            ActionType::MarkAsImportant => ActionModel::MarkAsImportant,
            ActionType::MarkAsRead => ActionModel::MarkAsRead,
        }
    }
}

impl DeepView for ActionType {
    type V = ActionModel;

    open spec fn deep_view(&self) -> ActionModel {
        self.view()
    }
}

/// The action described by an action text, after trimming, or the error
/// for a text that matches no action form; the error carries the trimmed
/// text.
pub open spec fn parse_action(s0: Seq<char>) -> Result<ActionModel, ErrorModel> {
    let s = trim_of(s0);
    if s == "no more rules"@ {
        Ok(ActionModel::NoMoreRules)
    } else if prefix_of(s, "copy to "@) {
        Ok(ActionModel::CopyTo(s.subrange("copy to "@.len() as int, s.len() as int)))
    } else if prefix_of(s, "move to "@) {
        Ok(ActionModel::MoveTo(s.subrange("move to "@.len() as int, s.len() as int)))
    } else if s == "delete"@ {
        Ok(ActionModel::Delete)
    } else if s == "permanent delete"@ {
        Ok(ActionModel::PermanentDelete)
    } else if prefix_of(s, "forward to "@) {
        Ok(ActionModel::ForwardTo(s.subrange("forward to "@.len() as int, s.len() as int)))
    } else if prefix_of(s, "reply with "@) {
        Ok(ActionModel::ReplyWith(s.subrange("reply with "@.len() as int, s.len() as int)))
    } else if prefix_of(s, "set flag "@) {
        Ok(ActionModel::SetFlag(s.subrange("set flag "@.len() as int, s.len() as int)))
    } else if prefix_of(s, "remove flag "@) {
        Ok(ActionModel::RemoveFlag(s.subrange("remove flag "@.len() as int, s.len() as int)))
    } else if s == "clear flags"@ {
        Ok(ActionModel::ClearFlags)
    } else if s == "mark as important"@ {
        Ok(ActionModel::MarkAsImportant)
    } else if s == "mark as read"@ {
        Ok(ActionModel::MarkAsRead)
    } else {
        Err(ErrorModel::InvalidAction(s))
    }
}

/// Whether an action removes the message from the mailbox's current
/// sequence-number space.
pub open spec fn removes_message(a: ActionModel) -> bool {
    a is MoveTo || a is PermanentDelete
}

/// Whether an action stops rule processing for the current mail.
pub open spec fn stops_processing(a: ActionModel) -> bool {
    a is NoMoreRules
}

/// Ghost model of a [`SessionOp`].
pub enum OpModel {
    Create(Seq<char>),
    Copy(int, Seq<char>),
    Store(int, Seq<char>),
    Expunge,
    Forward(int, Seq<char>),
    Reply(int, Seq<char>),
}

/// One operation against the mailbox session: the engine plans these and
/// an unverified driver performs them in order.
#[derive(Debug, PartialEq)]
pub enum SessionOp {
    /// Ensure the folder exists (tolerating one that already does).
    Create(String),
    /// Copy the message at the sequence number into the folder.
    Copy(usize, String),
    /// Alter the flags of the message at the sequence number.
    Store(usize, String),
    /// Permanently remove the messages flagged for deletion.
    Expunge,
    /// Send the message at the sequence number on to an address.
    Forward(usize, String),
    /// Send a reply to the message at the sequence number.
    Reply(usize, String),
}

impl View for SessionOp {
    type V = OpModel;

    open spec fn view(&self) -> OpModel {
        match self {
            SessionOp::Create(f) => OpModel::Create(f@),
            SessionOp::Copy(i, f) => OpModel::Copy(*i as int, f@),
            SessionOp::Store(i, q) => OpModel::Store(*i as int, q@),
            SessionOp::Expunge => OpModel::Expunge,
            SessionOp::Forward(i, a) => OpModel::Forward(*i as int, a@),
            SessionOp::Reply(i, t) => OpModel::Reply(*i as int, t@),
        }
    }
}

impl DeepView for SessionOp {
    type V = OpModel;

    open spec fn deep_view(&self) -> OpModel {
        self.view()
    }
}

/// The mailbox-session operations an action performs for the message at
/// sequence number `idx`, in order.
pub open spec fn ops_of(a: ActionModel, idx: int) -> Seq<OpModel> {
    match a {
        ActionModel::NoMoreRules => Seq::empty(),
        ActionModel::CopyTo(f) => seq![OpModel::Create(f), OpModel::Copy(idx, f)],
        ActionModel::MoveTo(f) => seq![
            OpModel::Create(f),
            OpModel::Copy(idx, f),
            OpModel::Store(idx, "+flags (\\deleted)"@),
            OpModel::Expunge,
        ],
        ActionModel::Delete => seq![OpModel::Store(idx, "+flags (\\deleted)"@)],
        ActionModel::PermanentDelete => seq![
            OpModel::Store(idx, "+flags (\\deleted)"@),
            OpModel::Expunge,
        ],
        ActionModel::ForwardTo(a) => seq![OpModel::Forward(idx, a)],
        ActionModel::ReplyWith(t) => seq![OpModel::Reply(idx, t)],
        ActionModel::SetFlag(fl) => seq![OpModel::Store(idx, "+flags ("@ + fl + ")"@)],
        ActionModel::RemoveFlag(fl) => seq![OpModel::Store(idx, "-flags ("@ + fl + ")"@)],
        ActionModel::ClearFlags => Seq::empty(),
        ActionModel::MarkAsImportant => seq![OpModel::Copy(idx, "Important"@)],
        ActionModel::MarkAsRead => seq![OpModel::Store(idx, "+flags (\\seen)"@)],
    }
}

impl ActionType {
    /// Reads an action text after trimming surrounding whitespace.
    pub fn parse(action: &str) -> (r: Result<ActionType, Error>)
        ensures
            match r {
                Ok(a) => parse_action(action@) == Ok::<ActionModel, ErrorModel>(a@),
                Err(e) => parse_action(action@) == Err::<ActionModel, ErrorModel>(e@),
            },
    {
        let t = trim_str(action);
        let s = t.as_str();
        let n = s.unicode_len();
        if str_eq(s, "no more rules") {
            Ok(ActionType::NoMoreRules)
        } else if starts_with_str(s, "copy to ") {
            let p = "copy to ".unicode_len();
            Ok(ActionType::CopyTo(s.substring_char(p, n).to_owned()))
        } else if starts_with_str(s, "move to ") {
            let p = "move to ".unicode_len();
            Ok(ActionType::MoveTo(s.substring_char(p, n).to_owned()))
        } else if str_eq(s, "delete") {
            Ok(ActionType::Delete)
        } else if str_eq(s, "permanent delete") {
            Ok(ActionType::PermanentDelete)
        } else if starts_with_str(s, "forward to ") {
            let p = "forward to ".unicode_len();
            Ok(ActionType::ForwardTo(s.substring_char(p, n).to_owned()))
        } else if starts_with_str(s, "reply with ") {
            let p = "reply with ".unicode_len();
            Ok(ActionType::ReplyWith(s.substring_char(p, n).to_owned()))
        } else if starts_with_str(s, "set flag ") {
            let p = "set flag ".unicode_len();
            Ok(ActionType::SetFlag(s.substring_char(p, n).to_owned()))
        } else if starts_with_str(s, "remove flag ") {
            let p = "remove flag ".unicode_len();
            Ok(ActionType::RemoveFlag(s.substring_char(p, n).to_owned()))
        } else if str_eq(s, "clear flags") {
            Ok(ActionType::ClearFlags)
        } else if str_eq(s, "mark as important") {
            Ok(ActionType::MarkAsImportant)
        } else if str_eq(s, "mark as read") {
            Ok(ActionType::MarkAsRead)
        } else {
            Err(Error::InvalidAction(t))
        }
    }

    /// The mailbox-session operations this action performs for the
    /// message at sequence number `idx`, in order.
    pub fn session_ops(&self, idx: usize) -> (r: Vec<SessionOp>)
        ensures
            r.deep_view() == ops_of(self@, idx as int),
    {
        let mut out: Vec<SessionOp> = Vec::new();
        match self {
            ActionType::NoMoreRules => {},
            ActionType::CopyTo(f) => {
                out.push(SessionOp::Create(f.clone()));
                out.push(SessionOp::Copy(idx, f.clone()));
            },
            ActionType::MoveTo(f) => {
                out.push(SessionOp::Create(f.clone()));
                out.push(SessionOp::Copy(idx, f.clone()));
                out.push(SessionOp::Store(idx, String::from_str("+flags (\\deleted)")));
                out.push(SessionOp::Expunge);
            },
            ActionType::Delete => {
                out.push(SessionOp::Store(idx, String::from_str("+flags (\\deleted)")));
            },
            ActionType::PermanentDelete => {
                out.push(SessionOp::Store(idx, String::from_str("+flags (\\deleted)")));
                out.push(SessionOp::Expunge);
            },
            ActionType::ForwardTo(a) => {
                out.push(SessionOp::Forward(idx, a.clone()));
            },
            ActionType::ReplyWith(t) => {
                out.push(SessionOp::Reply(idx, t.clone()));
            },
            ActionType::SetFlag(fl) => {
                let mut q = String::from_str("+flags (");
                q.append(fl.as_str());
                q.append(")");
                out.push(SessionOp::Store(idx, q));
            },
            ActionType::RemoveFlag(fl) => {
                let mut q = String::from_str("-flags (");
                q.append(fl.as_str());
                q.append(")");
                out.push(SessionOp::Store(idx, q));
            },
            ActionType::ClearFlags => {},
            ActionType::MarkAsImportant => {
                out.push(SessionOp::Copy(idx, String::from_str("Important")));
            },
            ActionType::MarkAsRead => {
                out.push(SessionOp::Store(idx, String::from_str("+flags (\\seen)")));
            },
        }
        proof {
            assert(out.deep_view() =~= ops_of(self@, idx as int));
        }
        out
    }
}

/// An action as rule evaluation applies it.
#[derive(Debug, PartialEq)]
pub struct Action(pub ActionType);

impl View for Action {
    type V = ActionModel;

    open spec fn view(&self) -> ActionModel {
        self.0@
    }
}

impl DeepView for Action {
    type V = ActionModel;

    open spec fn deep_view(&self) -> ActionModel {
        self.view()
    }
}

impl Action {
    /// Builds an action from its textual form.
    pub fn new(action: &str) -> (r: Result<Action, Error>)
        ensures
            match r {
                Ok(a) => parse_action(action@) == Ok::<ActionModel, ErrorModel>(a@),
                Err(e) => parse_action(action@) == Err::<ActionModel, ErrorModel>(e@),
            },
    {
        match ActionType::parse(action) {
            Ok(a) => Ok(Action(a)),
            Err(e) => Err(e),
        }
    }

    /// Whether this action removes the message from the current
    /// sequence-number space.
    pub fn remove_mail(&self) -> (r: bool)
        ensures
            r == removes_message(self@),
    {
        match &self.0 {
            ActionType::MoveTo(_) => true,
            ActionType::PermanentDelete => true,
            _ => false,
        }
    }

    /// Whether this action stops rule processing for the current mail.
    pub fn stops_rule_processing(&self) -> (r: bool)
        ensures
            r == stops_processing(self@),
    {
        match &self.0 {
            ActionType::NoMoreRules => true,
            _ => false,
        }
    }

    /// The mailbox-session operations this action performs for the
    /// message at sequence number `idx`, in order.
    pub fn session_ops(&self, idx: usize) -> (r: Vec<SessionOp>)
        ensures
            r.deep_view() == ops_of(self@, idx as int),
    {
        self.0.session_ops(idx)
    }
}

} // verus!
