use blendbar::email_admin::{
    apply_update, check_update, google_mailbox, looks_like_an_address, test_outcome, test_recipient, EmailSettings,
    TestRequest, UpdateEmailSettings,
};
use blendbar::error::AppError;

#[test]
fn accepts_ordinary_addresses() {
    for a in ["hello@theblendbarokc.com", "no-reply@mail.theblendbarokc.com", "a.b+tag@example.co.uk"] {
        assert!(looks_like_an_address(a), "rejected {a}");
    }
}

#[test]
fn rejects_things_that_are_not_addresses() {
    for a in ["", "nodomain", "@example.com", "a@b", "a@.com", "a@b.", "two words@x.com"] {
        assert!(!looks_like_an_address(a), "accepted {a}");
    }
}

#[test]
fn an_address_is_checked_after_trimming() {
    assert!(looks_like_an_address("  hello@theblendbarokc.com \n"));
}

fn update(from: Option<&str>, name: Option<&str>, reply: Option<&str>) -> UpdateEmailSettings {
    UpdateEmailSettings {
        from_address: from.map(String::from),
        from_name: name.map(String::from),
        reply_to: reply.map(String::from),
        order_ready_enabled: None,
    }
}

fn bad_request(r: Result<(), AppError>) -> String {
    match r {
        Err(AppError::BadRequest(m)) => m,
        other => panic!("expected a bad request, got {other:?}"),
    }
}

#[test]
fn update_refusals_name_the_field() {
    assert_eq!(
        bad_request(check_update(&update(Some("nope"), None, None))),
        "the From address doesn't look like an email address"
    );
    assert_eq!(
        bad_request(check_update(&update(None, None, Some("nope")))),
        "the Reply-to address doesn't look like an email address"
    );
    assert_eq!(bad_request(check_update(&update(None, Some("   "), None))), "the sender name can't be blank");
}

#[test]
fn a_blank_address_clears_the_field_and_is_accepted() {
    assert!(check_update(&update(Some("  "), Some("The Blend Bar"), Some(""))).is_ok());
}

#[test]
fn an_update_replaces_only_what_it_carries_trimmed() {
    let current = EmailSettings {
        from_address: Some("old@theblendbarokc.com".into()),
        from_name: "Old".into(),
        reply_to: None,
        order_ready_enabled: true,
    };
    let next = apply_update(&current, &update(Some(" new@theblendbarokc.com "), None, None));
    assert_eq!(next.from_address.as_deref(), Some("new@theblendbarokc.com"));
    assert_eq!(next.from_name, "Old");
    assert_eq!(next.reply_to, None);
    assert!(next.order_ready_enabled);
}

#[test]
fn the_google_mailbox_is_lower_cased_and_checked() {
    assert_eq!(google_mailbox(false, "  Hello@TheBlendBarOKC.com ").unwrap(), "hello@theblendbarokc.com");
    assert!(matches!(google_mailbox(false, "hello"), Err(AppError::BadRequest(_))));
    assert!(matches!(google_mailbox(true, "hello@theblendbarokc.com"), Err(AppError::Conflict(_))));
}

#[test]
fn a_test_send_through_the_mock_is_not_reported_as_sent() {
    let to = test_recipient(&TestRequest { to: " ops@theblendbarokc.com ".into() }).unwrap();
    assert_eq!(to, "ops@theblendbarokc.com");
    assert_eq!(test_outcome(Ok(()), true, &to), (true, "Test message sent to ops@theblendbarokc.com.".to_string()));
    assert!(!test_outcome(Ok(()), false, &to).0);
    assert_eq!(test_outcome(Err("relay said no".into()), true, &to), (false, "relay said no".to_string()));
    assert!(test_recipient(&TestRequest { to: "bad".into() }).is_err());
}
