use stalwart_mcp::config::Capabilities;
use stalwart_mcp::error::ToolErrorKind;
use stalwart_mcp::mcp::tools::admission::{
    admit_bulk, admit_bulk_junk, admit_compose, admit_list_recent, admit_search, admit_spam_train,
};
use stalwart_mcp::mcp::tools::mail::SearchArgs;
use stalwart_mcp::rate_limit::RateLimiters;

fn strings(v: &[&str]) -> Vec<String> {
    v.iter().map(|s| s.to_string()).collect()
}

fn search(after: Option<i64>, before: Option<i64>, query: Option<&str>) -> SearchArgs {
    SearchArgs {
        account: None,
        query: query.map(|q| q.to_string()),
        from: None,
        to: None,
        subject: None,
        folder: None,
        after,
        before,
        has_attachment: None,
        limit: None,
    }
}

#[test]
fn search_without_filter_is_refused_before_the_rate_limit() {
    let mut r = RateLimiters::new();
    for _ in 0..100 {
        let e = admit_search(&mut r, &search(None, None, None)).unwrap_err();
        assert_eq!(e.message, "At least one search filter must be provided");
    }
    // nothing was charged: the full burst of thirty is still there
    for _ in 0..30 {
        assert!(admit_search(&mut r, &search(None, None, Some("x"))).is_ok());
    }
    let e = admit_search(&mut r, &search(Some(5), Some(1), Some("x"))).unwrap_err();
    assert_eq!(e.message, "Rate limit exceeded for 'mail_search'. Try again shortly.");
}

#[test]
fn search_checks_time_range_after_rate() {
    let mut r = RateLimiters::new();
    let e = admit_search(&mut r, &search(Some(5), Some(1), None)).unwrap_err();
    assert_eq!(e.kind, ToolErrorKind::InvalidParams);
    assert_eq!(e.message, "'after' must be before 'before'");
    assert!(admit_list_recent(&mut r, Some(1), Some(5)).is_ok());
    assert_eq!(admit_list_recent(&mut r, Some(5), Some(5)).unwrap_err().message, "'after' must be before 'before'");
}

#[test]
fn sending_checks_capability_then_recipients() {
    let mut r = RateLimiters::new();
    let off = Capabilities::default();
    let on = Capabilities { send: true, spam_training: false };
    let bad = strings(&["nope"]);
    let good = strings(&["a@b.c"]);
    let e = admit_compose(&mut r, true, &off, &bad, &[]).unwrap_err();
    assert_eq!(e.kind, ToolErrorKind::InvalidRequest);
    assert_eq!(e.message, "Sending emails is disabled. Enable 'capabilities.send = true' in config.");
    let e = admit_compose(&mut r, true, &on, &good, &bad).unwrap_err();
    assert_eq!(e.message, "Invalid email address: 'nope'");
    assert!(admit_compose(&mut r, false, &off, &good, &good).is_ok());
    // two of the five sends are used; three remain
    for _ in 0..3 {
        assert!(admit_compose(&mut r, true, &on, &good, &[]).is_ok());
    }
    let e = admit_compose(&mut r, true, &on, &good, &[]).unwrap_err();
    assert_eq!(e.message, "Rate limit exceeded for 'mail_send'. Try again shortly.");
}

#[test]
fn bulk_checks_action_then_ids() {
    let mut r = RateLimiters::new();
    let ids = strings(&["m1"]);
    assert_eq!(admit_bulk_junk(&mut r, "junk", &ids), Ok((true, "junk")));
    assert_eq!(admit_bulk_junk(&mut r, "notjunk", &ids), Ok((false, "not junk")));
    let e = admit_bulk_junk(&mut r, "spam", &[]).unwrap_err();
    assert_eq!(e.message, "Unknown action 'spam'. Use: junk, notjunk");
    let e = admit_bulk_junk(&mut r, "junk", &[]).unwrap_err();
    assert_eq!(e.message, "No email IDs provided");
    assert!(admit_bulk(&mut r, "mail_bulk_read", &ids).is_ok());
    assert_eq!(admit_bulk(&mut r, "mail_bulk_delete", &[]).unwrap_err().message, "No email IDs provided");
}

#[test]
fn spam_training_checks_in_order() {
    let mut r = RateLimiters::new();
    let off = Capabilities::default();
    let on = Capabilities { send: false, spam_training: true };
    let e = admit_spam_train(&mut r, &off, false, "bogus").unwrap_err();
    assert_eq!(e.message, "Spam training is disabled. Enable 'capabilities.spam_training = true' in config.");
    let e = admit_spam_train(&mut r, &on, false, "bogus").unwrap_err();
    assert_eq!(e.kind, ToolErrorKind::Internal);
    let e = admit_spam_train(&mut r, &on, true, "bogus").unwrap_err();
    assert_eq!(e.message, "Unknown classification 'bogus'. Use: spam, ham");
    assert_eq!(admit_spam_train(&mut r, &on, true, "spam"), Ok(true));
    // five per minute: the fifth call is the last allowed
    assert_eq!(admit_spam_train(&mut r, &on, true, "ham"), Ok(false));
    assert_eq!(
        admit_spam_train(&mut r, &on, true, "ham").unwrap_err().message,
        "Rate limit exceeded for 'spam_train'. Try again shortly."
    );
}
