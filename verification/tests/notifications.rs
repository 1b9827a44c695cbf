use blendbar::notifications::{target_label, test_outcome, url_hint, yes};

#[test]
fn the_hint_shows_the_host_and_a_short_tail() {
    assert_eq!(url_hint("https://discord.com/api/webhooks/123/abcdSECRETwxyz"), "discord.com/…wxyz");
    assert_eq!(url_hint("abc"), "/…abc");
    assert_eq!(url_hint("https://hooks.slack.com"), "hooks.slack.com/….com");
}

#[test]
fn targets_default_to_notifying() {
    assert!(yes());
    assert_eq!(target_label(" Team ").unwrap(), "Team");
    assert!(target_label("").is_err());
    assert_eq!(test_outcome(Ok(())), (true, "Test message sent.".to_string()));
    assert_eq!(test_outcome(Err("404".into())), (false, "404".to_string()));
}
