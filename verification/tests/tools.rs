use stalwart_mcp::config::Capabilities;
use stalwart_mcp::error::ToolErrorKind;
use stalwart_mcp::mcp::tools::mail::{
    bulk_deleted_message, bulk_junk_message, bulk_read_message, clamp_count, default_junk_action,
    draft_saved_message, flagged_message, junk_target_role, mailbox_missing, moved_message,
    admin_unavailable, parse_classification, parse_flag_action, require_fetched, parse_junk_action, require_ids, require_send,
    require_spam_training, sent_message, validate_recipients, validate_timestamps, FlagAction,
    SearchArgs,
};

fn strings(v: &[&str]) -> Vec<String> {
    v.iter().map(|s| s.to_string()).collect()
}

#[test]
fn timestamps_must_be_ordered() {
    assert!(validate_timestamps(None, None).is_ok());
    assert!(validate_timestamps(Some(5), None).is_ok());
    assert!(validate_timestamps(Some(1), Some(2)).is_ok());
    let e = validate_timestamps(Some(2), Some(2)).unwrap_err();
    assert_eq!(e.kind, ToolErrorKind::InvalidParams);
    assert_eq!(e.message, "'after' must be before 'before'");
    assert!(validate_timestamps(Some(3), Some(2)).is_err());
}

#[test]
fn recipients_need_at_sign_and_three_bytes() {
    assert!(validate_recipients(&strings(&["a@b", "user@example.com"])).is_ok());
    assert!(validate_recipients(&[]).is_ok());
    let e = validate_recipients(&strings(&["ok@x", "nope", "@"])).unwrap_err();
    assert_eq!(e.kind, ToolErrorKind::InvalidParams);
    assert_eq!(e.message, "Invalid email address: 'nope'");
    let e = validate_recipients(&strings(&["a@"])).unwrap_err();
    assert_eq!(e.message, "Invalid email address: 'a@'");
    assert!(validate_recipients(&strings(&["é@"])).is_ok());
}

#[test]
fn counts_default_to_twenty_and_cap_at_hundred() {
    assert_eq!(clamp_count(None), 20);
    assert_eq!(clamp_count(Some(5)), 5);
    assert_eq!(clamp_count(Some(100)), 100);
    assert_eq!(clamp_count(Some(1000)), 100);
}

#[test]
fn search_needs_a_condition() {
    let mut a = SearchArgs {
        account: Some("work".to_string()),
        query: None,
        from: None,
        to: None,
        subject: None,
        folder: None,
        after: None,
        before: None,
        has_attachment: None,
        limit: Some(5),
    };
    let e = a.require_filter().unwrap_err();
    assert_eq!(e.message, "At least one search filter must be provided");
    a.has_attachment = Some(false);
    assert!(a.require_filter().is_ok());
}

#[test]
fn flag_actions() {
    assert_eq!(parse_flag_action("read").unwrap(), FlagAction::Seen(true));
    assert_eq!(parse_flag_action("unread").unwrap(), FlagAction::Seen(false));
    assert_eq!(parse_flag_action("flag").unwrap(), FlagAction::Flagged(true));
    assert_eq!(parse_flag_action("unflag").unwrap(), FlagAction::Flagged(false));
    assert_eq!(parse_flag_action("junk").unwrap(), FlagAction::Junk);
    assert_eq!(parse_flag_action("notjunk").unwrap(), FlagAction::NotJunk);
    let e = parse_flag_action("Read").unwrap_err();
    assert_eq!(e.message, "Unknown action 'Read'. Use: read, unread, flag, unflag, junk, notjunk");
    assert_eq!(FlagAction::Seen(false).keyword(), "$seen");
    assert!(!FlagAction::Seen(false).set());
    assert_eq!(FlagAction::Junk.keyword(), "$junk");
    assert!(FlagAction::Junk.set());
    assert_eq!(FlagAction::Flagged(true).keyword(), "$flagged");
}

#[test]
fn junk_actions_and_classifications() {
    assert_eq!(default_junk_action(), "junk");
    assert_eq!(parse_junk_action("junk").unwrap(), (true, "junk"));
    assert_eq!(parse_junk_action("notjunk").unwrap(), (false, "not junk"));
    assert_eq!(parse_junk_action("spam").unwrap_err().message, "Unknown action 'spam'. Use: junk, notjunk");
    assert_eq!(parse_classification("spam").unwrap(), true);
    assert_eq!(parse_classification("ham").unwrap(), false);
    assert_eq!(
        parse_classification("eggs").unwrap_err().message,
        "Unknown classification 'eggs'. Use: spam, ham"
    );
    assert_eq!(junk_target_role(true), "Junk");
    assert_eq!(junk_target_role(false), "Inbox");
    let e = mailbox_missing("Junk");
    assert_eq!(e.kind, ToolErrorKind::Internal);
    assert_eq!(e.message, "Junk mailbox not found");
}

#[test]
fn preconditions_of_tools() {
    assert_eq!(require_ids(&[]).unwrap_err().message, "No email IDs provided");
    assert!(require_ids(&strings(&["x"])).is_ok());
    let off = Capabilities::default();
    let e = require_send(&off).unwrap_err();
    assert_eq!(e.kind, ToolErrorKind::InvalidRequest);
    assert_eq!(e.message, "Sending emails is disabled. Enable 'capabilities.send = true' in config.");
    assert_eq!(
        require_spam_training(&off).unwrap_err().message,
        "Spam training is disabled. Enable 'capabilities.spam_training = true' in config."
    );
    let on = Capabilities { send: true, spam_training: true };
    assert!(require_send(&on).is_ok());
    assert!(require_spam_training(&on).is_ok());
}

#[test]
fn tool_answers() {
    assert_eq!(flagged_message("m1", "read"), "Email m1 marked as read");
    assert_eq!(moved_message("m1", "Archive"), "Email m1 moved to Archive");
    assert_eq!(draft_saved_message("d7"), "Draft saved with ID: d7");
    assert_eq!(sent_message("s1"), "Email sent successfully (ID: s1)");
    assert_eq!(bulk_junk_message(3, "not junk"), "3 emails marked as not junk");
    assert_eq!(bulk_deleted_message(0), "0 emails permanently deleted");
    assert_eq!(bulk_read_message(120), "120 emails marked as read");
}

#[test]
fn only_junk_actions_move_the_email() {
    assert_eq!(FlagAction::Junk.target_role(), Some("Junk"));
    assert_eq!(FlagAction::NotJunk.target_role(), Some("Inbox"));
    assert_eq!(FlagAction::Seen(true).target_role(), None);
    assert_eq!(FlagAction::Flagged(false).target_role(), None);
}

#[test]
fn training_needs_at_least_one_fetched_email() {
    assert!(require_fetched(1).is_ok());
    assert!(require_fetched(3).is_ok());
    let e = require_fetched(0).unwrap_err();
    assert_eq!(e.kind, ToolErrorKind::InvalidParams);
    assert_eq!(e.message, "Could not fetch any of the specified emails");
}

#[test]
fn missing_admin_client_is_internal_error() {
    let e = admin_unavailable();
    assert_eq!(e.kind, ToolErrorKind::Internal);
    assert_eq!(e.message, "Admin API client not available. Check STALWART_ADMIN_PASSWORD env var.");
}
