use narricky::action::ActionType;
use narricky::condition::{ConditionChecker, ConditionType};
use narricky::error::Error;

#[test]
fn action_no_rules() {
    assert_eq!(
        ActionType::parse("no more rules").unwrap(),
        ActionType::NoMoreRules,
        "fail with action no more ruels"
    );
}

fn action_copy_helper(dest: &str) {
    let test_val = ActionType::CopyTo(dest.to_string());
    assert_eq!(
        test_val,
        ActionType::parse(&format!("copy to {}", dest)).unwrap(),
        "failed on copy {}",
        dest
    )
}

#[test]
fn action_copy() {
    action_copy_helper("INBOX");
    action_copy_helper("TRASH");
}

fn action_move_helper(dest: &str) {
    let test_val = ActionType::MoveTo(dest.to_string());
    assert_eq!(
        test_val,
        ActionType::parse(&format!("move to {}", dest)).unwrap(),
        "failed on move {}",
        dest
    )
}

#[test]
fn action_move() {
    action_move_helper("INBOX");
    action_move_helper("TRASH");
}

#[test]
fn action_delete() {
    assert_eq!(
        ActionType::parse("delete").unwrap(),
        ActionType::Delete,
        "fail with action delete"
    );
    assert_eq!(
        ActionType::parse("  delete   ").unwrap(),
        ActionType::Delete,
        "fail with action delete"
    );
}

#[test]
fn action_permanent_delete() {
    assert_eq!(
        ActionType::parse("permanent delete").unwrap(),
        ActionType::PermanentDelete,
        "fail with action permanent delete"
    );
}

fn action_forward_helper(dest: &str) {
    let test_val = ActionType::ForwardTo(dest.to_string());
    assert_eq!(
        test_val,
        ActionType::parse(&format!("forward to {}", dest)).unwrap(),
        "failed on forward {}",
        dest
    )
}

#[test]
fn action_forward() {
    action_forward_helper("test@test.com");
}

fn action_reply_helper(dest: &str) {
    let test_val = ActionType::ReplyWith(dest.to_string());
    assert_eq!(
        test_val,
        ActionType::parse(&format!("reply with {}", dest)).unwrap(),
        "failed on reply {}",
        dest
    )
}

#[test]
fn action_reply() {
    action_reply_helper("Hello world");
    action_reply_helper("Testing reply with");
}

fn action_set_flag_helper(dest: &str) {
    let test_val = ActionType::SetFlag(dest.to_string());
    assert_eq!(
        test_val,
        ActionType::parse(&format!("set flag {}", dest)).unwrap(),
        "failed on flag {}",
        dest
    )
}

#[test]
fn action_set_flag() {
    action_set_flag_helper("\\Seen");
    action_set_flag_helper("\\Important");
}

fn action_remove_flag_helper(dest: &str) {
    let test_val = ActionType::RemoveFlag(dest.to_string());
    assert_eq!(
        test_val,
        ActionType::parse(&format!("remove flag {}", dest)).unwrap(),
        "failed on flag {}",
        dest
    )
}

#[test]
fn action_remove_flag() {
    action_remove_flag_helper("\\Seen");
    action_remove_flag_helper("\\Important");
}

#[test]
fn action_clear_flag() {
    assert_eq!(
        ActionType::parse("clear flags").unwrap(),
        ActionType::ClearFlags,
        "fail with clear flags"
    );
}

#[test]
fn action_mark_as_important() {
    assert_eq!(
        ActionType::parse("mark as important").unwrap(),
        ActionType::MarkAsImportant,
        "fail with mark as important"
    );
}

#[test]
fn action_mark_as_read() {
    assert_eq!(
        ActionType::parse("mark as read").unwrap(),
        ActionType::MarkAsRead,
        "fail with mark as read"
    );
}

#[test]
fn condition_sender() {
    assert_eq!(
        ConditionType::parse("sender is hello@world").unwrap(),
        ConditionType::Sender(ConditionChecker::Is, "hello@world".to_string()),
        "fail with sender is"
    );
    assert_eq!(
        ConditionType::parse("sender contains hello").unwrap(),
        ConditionType::Sender(ConditionChecker::Contains, "hello".to_string()),
        "fail with sender contains"
    );
}

#[test]
fn condition_cc() {
    assert_eq!(
        ConditionType::parse("cc is hello@world").unwrap(),
        ConditionType::Cc(ConditionChecker::Is, "hello@world".to_string()),
        "fail with cc is"
    );
    assert_eq!(
        ConditionType::parse("cc contains hello").unwrap(),
        ConditionType::Cc(ConditionChecker::Contains, "hello".to_string()),
        "fail with cc contains"
    );
}

#[test]
fn condition_recipient() {
    assert_eq!(
        ConditionType::parse("recipient is hello@world").unwrap(),
        ConditionType::Recipient(ConditionChecker::Is, "hello@world".to_string()),
        "fail with recipient is"
    );
    assert_eq!(
        ConditionType::parse("recipient contains hello").unwrap(),
        ConditionType::Recipient(ConditionChecker::Contains, "hello".to_string()),
        "fail with recipient contains"
    );
}

#[test]
fn condition_subject() {
    assert_eq!(
        ConditionType::parse("subject is hello world").unwrap(),
        ConditionType::Subject(ConditionChecker::Is, "hello world".to_string()),
        "fail with subject is"
    );
    assert_eq!(
        ConditionType::parse("subject contains hello").unwrap(),
        ConditionType::Subject(ConditionChecker::Contains, "hello".to_string()),
        "fail with subject contains"
    );
}

#[test]
fn condition_content() {
    assert_eq!(
        ConditionType::parse("content is hello world").unwrap(),
        ConditionType::Content(ConditionChecker::Is, "hello world".to_string()),
        "fail with content is"
    );
    assert_eq!(
        ConditionType::parse("content contains hello").unwrap(),
        ConditionType::Content(ConditionChecker::Contains, "hello".to_string()),
        "fail with content contains"
    );
}

#[test]
fn action_unknown_fails() {
    match ActionType::parse("unknown verb") {
        Err(Error::InvalidAction(text)) => assert_eq!(text, "unknown verb"),
        other => panic!("expected an invalid-action error, got {:?}", other),
    }
}

#[test]
fn condition_bad_checker_fails() {
    match ConditionType::parse("sender looks hello") {
        Err(Error::InvalidConditionChecker(text)) => assert_eq!(text, "looks"),
        other => panic!("expected an invalid-checker error, got {:?}", other),
    }
}

#[test]
fn condition_bad_field_fails() {
    match ConditionType::parse("body is hello") {
        Err(Error::InvalidCondition(text)) => assert_eq!(text, "body is hello"),
        other => panic!("expected an invalid-condition error, got {:?}", other),
    }
}

#[test]
fn condition_too_short_fails() {
    match ConditionType::parse("sender") {
        Err(Error::InvalidCondition(text)) => assert_eq!(text, "sender"),
        other => panic!("expected an invalid-condition error, got {:?}", other),
    }
    match ConditionType::parse("sender is") {
        Err(Error::InvalidCondition(text)) => assert_eq!(text, "sender is"),
        other => panic!("expected an invalid-condition error, got {:?}", other),
    }
}

#[test]
fn error_messages_name_the_text() {
    assert_eq!(
        Error::InvalidAction("x".to_string()).message(),
        "action `x` is invalid"
    );
    assert_eq!(
        Error::InvalidCondition("y z".to_string()).message(),
        "condition `y z` is invalid"
    );
    assert_eq!(
        Error::InvalidConditionChecker("was".to_string()).message(),
        "checker `was` is invalid"
    );
}
