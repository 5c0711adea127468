use narricky::condition::Condition;
use narricky::mail::{Mail, MailAddress};

#[test]
fn mail_address_parse_imap() {
    let test_val = MailAddress::new("Test".to_owned(), "test@test.com".to_owned());
    assert_eq!(
        MailAddress::parse_imap("Test <test@test.com>"),
        test_val,
        "error with parsing"
    );
}

#[test]
fn mail_address_parse_bare() {
    let parsed = MailAddress::parse_imap("  test@test.com ");
    assert_eq!(parsed.name, "");
    assert_eq!(parsed.address, "test@test.com");
}

fn sample_mail() -> Mail {
    Mail::parse_fetched(
        vec![
            "Subject: Hehe\r\n",
            "From: Inconnito <inconnito@superrito.com>\r\n",
            "To: hineen1975@superrito.com\r\n",
        ]
        .iter()
        .map(|s| s.to_string())
        .collect(),
        vec!["Hello world\r\n", "This is some text\r\n", "Wow"]
            .iter()
            .map(|s| s.to_string())
            .collect(),
    )
    .unwrap()
}

#[test]
fn condition_check_subject() {
    let mail = sample_mail();
    let c = Condition::new("subject is Hehe").unwrap();
    assert!(c.check(&mail));
    let c = Condition::new("subject contains Hehe").unwrap();
    assert!(c.check(&mail));
}

#[test]
fn condition_check_sender() {
    let mail = sample_mail();
    let c = Condition::new("sender contains Inconnito").unwrap();
    assert!(c.check(&mail));
}

#[test]
fn condition_check_recipient() {
    let mail = sample_mail();
    let c = Condition::new("recipient contains hineen").unwrap();
    assert!(c.check(&mail));
    let c = Condition::new("recipient is hineen1975@superrito.com").unwrap();
    assert!(c.check(&mail));
}

#[test]
fn condition_check_cc() {
    let mail = Mail::parse_fetched(
        vec![
            "Subject: Hehe\r\n",
            "From: Inconnito <inconnito@superrito.com>\r\n",
            "To: hineen1975@superrito.com\r\n",
            "Cc: hineen1975@superrito.com\r\n",
        ]
        .iter()
        .map(|s| s.to_string())
        .collect(),
        vec!["Hello world\r\n", "This is some text\r\n", "Wow"]
            .iter()
            .map(|s| s.to_string())
            .collect(),
    )
    .unwrap();
    let c = Condition::new("cc contains hineen").unwrap();
    assert!(c.check(&mail));
    let c = Condition::new("cc is hineen1975@superrito.com").unwrap();
    assert!(c.check(&mail));
}

#[test]
fn condition_check_content() {
    let mail = sample_mail();
    let c = Condition::new("content is Hello world\r\nThis is some text\r\nWow").unwrap();
    assert!(c.check(&mail));
    let c = Condition::new("content contains This").unwrap();
    assert!(c.check(&mail));
    let c = Condition::new("content contains is").unwrap();
    assert!(c.check(&mail));
}

#[test]
fn parse_fetched_extracts_structured_headers() {
    let mail = sample_mail();
    assert_eq!(mail.subject, "Hehe");
    assert_eq!(mail.from.len(), 1);
    assert_eq!(mail.from[0].name, "Inconnito");
    assert_eq!(mail.from[0].address, "inconnito@superrito.com");
    assert_eq!(mail.to.len(), 1);
    assert_eq!(mail.to[0].name, "");
    assert_eq!(mail.to[0].address, "hineen1975@superrito.com");
    assert_eq!(mail.cc.len(), 0);
    assert_eq!(mail.content, "Hello world\r\nThis is some text\r\nWow");
}

#[test]
fn parse_fetched_splits_address_lists() {
    let mail = Mail::parse_fetched(
        vec![
            "Subject: Team\r\n",
            "From: A <a@x.org>, B <b@y.org>\r\n",
            "To: c@z.org\r\n",
        ]
        .iter()
        .map(|s| s.to_string())
        .collect(),
        vec!["hi"].iter().map(|s| s.to_string()).collect(),
    )
    .unwrap();
    assert_eq!(mail.from.len(), 2);
    assert_eq!(mail.from[0].name, "A");
    assert_eq!(mail.from[0].address, "a@x.org");
    assert_eq!(mail.from[1].name, "B");
    assert_eq!(mail.from[1].address, "b@y.org");
}

#[test]
fn sender_contains_is_case_sensitive_on_address() {
    let mail = Mail {
        from: vec![MailAddress::new(
            "Inconnito".to_string(),
            "inconnito@superrito.com".to_string(),
        )],
        to: vec![],
        cc: vec![],
        subject: String::new(),
        content: String::new(),
    };
    let c = Condition::new("sender contains inconnito").unwrap();
    assert!(c.check(&mail));
}

#[test]
fn subject_is_check_is_case_sensitive() {
    let mail = Mail {
        from: vec![],
        to: vec![],
        cc: vec![],
        subject: "Hehe".to_string(),
        content: String::new(),
    };
    let hit = Condition::new("subject is Hehe").unwrap();
    assert!(hit.check(&mail));
    let miss = Condition::new("subject is hehe").unwrap();
    assert!(!miss.check(&mail));
}

#[test]
fn empty_target_and_empty_field_edge_cases() {
    let mail = Mail {
        from: vec![],
        to: vec![],
        cc: vec![],
        subject: String::new(),
        content: "anything".to_string(),
    };
    // An empty target is a substring of every derived text.
    let c = Condition::new("content contains ").unwrap();
    assert!(c.check(&mail));
    // An empty derived text equals an empty target.
    let c = Condition::new("subject is ").unwrap();
    assert!(c.check(&mail));
    // An empty sender list derives an empty text.
    let c = Condition::new("sender is ").unwrap();
    assert!(c.check(&mail));
}
