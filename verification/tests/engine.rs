use narricky::action::SessionOp;
use narricky::cursor::{simulate_sweep, ScanCursor};
use narricky::engine::apply_rules;
use narricky::mail::{Mail, MailAddress};
use narricky::rule::Rule;
use narricky::session::{folder_list_query, mail_number_from_status};

fn mail_with(sender: &str, subject: &str) -> Mail {
    Mail {
        from: vec![MailAddress::new(String::new(), sender.to_string())],
        to: vec![],
        cc: vec![],
        subject: subject.to_string(),
        content: String::new(),
    }
}

fn strings(texts: &[&str]) -> Vec<String> {
    texts.iter().map(|s| s.to_string()).collect()
}

#[test]
fn all_mode_fails_on_one_false_condition() {
    let rule = Rule::new(
        "r".to_string(),
        None,
        false,
        strings(&["sender contains a", "subject is X"]),
        strings(&[]),
        strings(&[]),
    )
    .unwrap();
    let mail = mail_with("abc@mail.org", "Hello");
    assert!(!rule.evaluate(&mail));
}

#[test]
fn any_mode_passes_on_one_true_condition() {
    let rule = Rule::new(
        "r".to_string(),
        None,
        true,
        strings(&["sender contains a", "subject is X"]),
        strings(&[]),
        strings(&[]),
    )
    .unwrap();
    let mail = mail_with("abc@mail.org", "Hello");
    assert!(rule.evaluate(&mail));
}

#[test]
fn any_mode_fails_when_all_conditions_false() {
    let rule = Rule::new(
        "r".to_string(),
        None,
        true,
        strings(&["sender contains zzz", "subject is X"]),
        strings(&[]),
        strings(&[]),
    )
    .unwrap();
    let mail = mail_with("abc@mail.org", "Hello");
    assert!(!rule.evaluate(&mail));
}

#[test]
fn exception_vetoes_matching_rule() {
    let rule = Rule::new(
        "r".to_string(),
        None,
        false,
        strings(&["sender contains a"]),
        strings(&[]),
        strings(&["subject contains Hello"]),
    )
    .unwrap();
    let vetoed = mail_with("abc@mail.org", "Hello there");
    assert!(!rule.evaluate(&vetoed));
    let allowed = mail_with("abc@mail.org", "Other");
    assert!(rule.evaluate(&allowed));
}

#[test]
fn evaluation_is_repeatable() {
    let rule = Rule::new(
        "r".to_string(),
        Some("re-evaluation".to_string()),
        true,
        strings(&["sender contains a"]),
        strings(&[]),
        strings(&["subject is veto"]),
    )
    .unwrap();
    let mail = mail_with("abc@mail.org", "Hello");
    let first = rule.evaluate(&mail);
    let second = rule.evaluate(&mail);
    assert_eq!(first, second);
    assert!(first);
}

#[test]
fn rule_new_reports_first_bad_text() {
    let bad = Rule::new(
        "r".to_string(),
        None,
        false,
        strings(&["sender contains a", "subject looks X"]),
        strings(&["delete"]),
        strings(&[]),
    );
    match bad {
        Err(e) => assert_eq!(e.message(), "checker `looks` is invalid"),
        Ok(_) => panic!("expected the malformed condition to be rejected"),
    }
    let bad_action = Rule::new(
        "r".to_string(),
        None,
        false,
        strings(&["sender contains a"]),
        strings(&["discard"]),
        strings(&[]),
    );
    match bad_action {
        Err(e) => assert_eq!(e.message(), "action `discard` is invalid"),
        Ok(_) => panic!("expected the malformed action to be rejected"),
    }
}

#[test]
fn move_to_plans_removal_ops() {
    let rule = Rule::new(
        "archive".to_string(),
        None,
        false,
        strings(&["subject contains news"]),
        strings(&["move to Archive"]),
        strings(&[]),
    )
    .unwrap();
    let mail = mail_with("a@b.org", "daily news");
    let (ops, removed) = apply_rules(&vec![rule], &mail, 5);
    assert!(removed);
    assert_eq!(
        ops,
        vec![
            SessionOp::Create("Archive".to_string()),
            SessionOp::Copy(5, "Archive".to_string()),
            SessionOp::Store(5, "+flags (\\deleted)".to_string()),
            SessionOp::Expunge,
        ]
    );
}

#[test]
fn no_more_rules_stops_later_rules() {
    let first = Rule::new(
        "stop".to_string(),
        None,
        false,
        strings(&["sender contains a"]),
        strings(&["mark as read", "no more rules"]),
        strings(&[]),
    )
    .unwrap();
    let second = Rule::new(
        "never".to_string(),
        None,
        false,
        strings(&["sender contains a"]),
        strings(&["permanent delete"]),
        strings(&[]),
    )
    .unwrap();
    let mail = mail_with("abc@mail.org", "x");
    let (ops, removed) = apply_rules(&vec![first, second], &mail, 2);
    assert!(!removed);
    assert_eq!(ops, vec![SessionOp::Store(2, "+flags (\\seen)".to_string())]);
}

#[test]
fn non_matching_rules_plan_nothing() {
    let rule = Rule::new(
        "r".to_string(),
        None,
        false,
        strings(&["subject is exact"]),
        strings(&["delete"]),
        strings(&[]),
    )
    .unwrap();
    let mail = mail_with("a@b.org", "other");
    let (ops, removed) = apply_rules(&vec![rule], &mail, 1);
    assert!(!removed);
    assert!(ops.is_empty());
}

#[test]
fn flag_actions_build_exact_queries() {
    let rule = Rule::new(
        "flags".to_string(),
        None,
        false,
        strings(&["sender contains a"]),
        strings(&["set flag \\Answered", "remove flag \\Draft"]),
        strings(&[]),
    )
    .unwrap();
    let mail = mail_with("abc@mail.org", "x");
    let (ops, removed) = apply_rules(&vec![rule], &mail, 7);
    assert!(!removed);
    assert_eq!(
        ops,
        vec![
            SessionOp::Store(7, "+flags (\\Answered)".to_string()),
            SessionOp::Store(7, "-flags (\\Draft)".to_string()),
        ]
    );
}

#[test]
fn sweep_with_removal_visits_renumbered_slot() {
    let mut cursor = ScanCursor::start_sweep(3);
    let mut visited: Vec<usize> = Vec::new();
    while cursor.has_next() {
        let i = cursor.next_index();
        visited.push(i);
        let removed = visited.len() == 2;
        cursor.record(removed);
    }
    assert_eq!(visited, vec![1, 2, 2]);
    assert_eq!(cursor.total, 2);
    assert_eq!(cursor.last_processed, 2);
}

#[test]
fn removal_keeps_next_index_and_drops_count() {
    let mut cursor = ScanCursor::start_sweep(4);
    assert_eq!(cursor.next_index(), 1);
    cursor.record(false);
    assert_eq!(cursor.next_index(), 2);
    cursor.record(true);
    // The message renumbered into slot 2 is visited next, none skipped.
    assert_eq!(cursor.next_index(), 2);
    assert_eq!(cursor.total, 3);
}

#[test]
fn sweep_processes_every_message_once_in_order() {
    // Removals at the front, in the middle and at the end renumber the
    // mailbox, yet each message is processed exactly once, in order.
    let mailbox = vec![
        (10, true),
        (11, false),
        (12, true),
        (13, true),
        (14, false),
        (15, true),
    ];
    assert_eq!(simulate_sweep(mailbox), vec![10, 11, 12, 13, 14, 15]);
    assert_eq!(simulate_sweep(vec![]), Vec::<u64>::new());
}

#[test]
fn recount_cases_match_the_sync_rules() {
    let mut cursor = ScanCursor::start_sweep(3);
    while cursor.has_next() {
        cursor.record(false);
    }
    assert_eq!(cursor.last_processed, 3);
    // Same count: nothing new to do.
    assert!(!cursor.recount(3));
    assert_eq!(cursor.last_processed, 3);
    // Larger count: the gap is processed.
    assert!(cursor.recount(5));
    assert_eq!(cursor.last_processed, 3);
    assert_eq!(cursor.total, 5);
    // Smaller count: clamp below the new count, process nothing.
    assert!(!cursor.recount(2));
    assert_eq!(cursor.last_processed, 1);
    assert_eq!(cursor.total, 2);
    // Shrink to an empty mailbox clamps to zero.
    assert!(!cursor.recount(0));
    assert_eq!(cursor.last_processed, 0);
    assert_eq!(cursor.total, 0);
}

#[test]
fn mail_number_reads_status_digits() {
    assert_eq!(
        mail_number_from_status("* STATUS INBOX (MESSAGES 42)"),
        Some(42)
    );
    assert_eq!(mail_number_from_status("(messages 0)"), Some(0));
    assert_eq!(mail_number_from_status("no digits here"), None);
}

#[test]
fn folder_list_query_splits_on_last_slash() {
    let (folder, name) = folder_list_query("Archive");
    assert_eq!(folder, "/");
    assert_eq!(name, "Archive");
    let (folder, name) = folder_list_query("a/b/c");
    assert_eq!(folder, "a/b/");
    assert_eq!(name, "c");
}
