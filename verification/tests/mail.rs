use stalwart_mcp::jmap::mail::{
    email_to_detail, email_to_summary, extract_addresses, first_message_id, mailbox_id_by_name,
    mailbox_id_by_role, mailbox_or_literal, outgoing_email, outgoing_keywords, recent_query, search_query,
    submission_id_or_default, AttachmentInfo, ComposeEmail, EmailAddress, EmailFilter, FetchedEmail,
    created_draft_id, email_required, mailbox_required, sending_identity, EmailSort, FilterPlan, MailboxInfo, SearchFilters, SortKey,
};

fn mailbox(id: &str, name: &str, role: &str) -> MailboxInfo {
    MailboxInfo {
        id: id.to_string(),
        name: name.to_string(),
        role: role.to_string(),
        total_emails: 0,
        unread_emails: 0,
        parent_id: None,
    }
}

fn addr(name: Option<&str>, email: &str) -> EmailAddress {
    EmailAddress { name: name.map(|s| s.to_string()), email: email.to_string() }
}

fn fetched() -> FetchedEmail {
    FetchedEmail {
        id: Some("m1".to_string()),
        subject: Some("Hello".to_string()),
        from: Some(vec![addr(Some("Ann"), "ann@example.com")]),
        to: Some(vec![addr(None, "bob@example.com"), addr(Some("Cy"), "cy@example.com")]),
        cc: None,
        received_at: Some(1_700_000_000),
        keywords: vec!["$flagged".to_string()],
        preview: Some("Hi".to_string()),
        text_body: Some(vec![Some("1".to_string()), Some("3".to_string())]),
        html_body: Some(vec![Some("2".to_string())]),
        body_values: vec![("1".to_string(), "plain".to_string()), ("2".to_string(), "<p>x</p>".to_string())],
        attachments: Some(vec![AttachmentInfo {
            name: Some("a.pdf".to_string()),
            content_type: Some("application/pdf".to_string()),
            size: 42,
        }]),
    }
}

#[test]
fn addresses_are_shown_with_names() {
    let a = [addr(Some("Ann"), "ann@example.com"), addr(None, "bob@example.com")];
    assert_eq!(extract_addresses(Some(&a)), vec!["Ann <ann@example.com>", "bob@example.com"]);
    assert!(extract_addresses(None).is_empty());
}

#[test]
fn summary_of_fetched_message() {
    let s = email_to_summary(&fetched());
    assert_eq!(s.id, "m1");
    assert_eq!(s.subject.as_deref(), Some("Hello"));
    assert_eq!(s.from, vec!["Ann <ann@example.com>"]);
    assert_eq!(s.to, vec!["bob@example.com", "Cy <cy@example.com>"]);
    assert_eq!(s.received_at, Some(1_700_000_000));
    assert!(s.is_unread);
    assert!(s.is_flagged);
    assert_eq!(s.preview.as_deref(), Some("Hi"));
    let mut e = fetched();
    e.id = None;
    e.keywords = vec!["$seen".to_string()];
    let s = email_to_summary(&e);
    assert_eq!(s.id, "");
    assert!(!s.is_unread);
    assert!(!s.is_flagged);
}

#[test]
fn detail_of_fetched_message() {
    let d = email_to_detail(&fetched());
    assert_eq!(d.text_body.as_deref(), Some("plain"));
    assert_eq!(d.html_body.as_deref(), Some("<p>x</p>"));
    assert!(d.cc.is_empty());
    assert_eq!(d.attachments.len(), 1);
    assert_eq!(d.attachments[0].size, 42);
    let mut e = fetched();
    e.text_body = Some(vec![None]);
    e.html_body = Some(vec![Some("9".to_string())]);
    e.attachments = None;
    let d = email_to_detail(&e);
    assert_eq!(d.text_body, None);
    assert_eq!(d.html_body, None);
    assert!(d.attachments.is_empty());
}

#[test]
fn mailbox_lookup_ignores_ascii_case() {
    let mbs = [mailbox("a", "INBOX", "Inbox"), mailbox("b", "Junk Mail", "Junk"), mailbox("c", "inbox", "None")];
    assert_eq!(mailbox_id_by_name(&mbs, "Inbox"), Some("a".to_string()));
    assert_eq!(mailbox_id_by_name(&mbs, "junk mail"), Some("b".to_string()));
    assert_eq!(mailbox_id_by_name(&mbs, "Archive"), None);
    assert_eq!(mailbox_id_by_role(&mbs, "junk"), Some("b".to_string()));
    assert_eq!(mailbox_id_by_role(&mbs, "Trash"), None);
    assert_eq!(mailbox_or_literal(None, "m42"), "m42");
    assert_eq!(mailbox_or_literal(Some("a".to_string()), "INBOX"), "a");
}

#[test]
fn recent_query_combines_all_conditions() {
    let q = recent_query(None, 20, false, None, None, None);
    assert_eq!(q.filter, FilterPlan::Unfiltered);
    assert_eq!(q.limit, 20);
    let q = recent_query(Some("mb"), 5, false, None, None, Some(100));
    assert_eq!(q.filter, FilterPlan::All(vec![EmailFilter::InMailbox("mb".to_string())]));
    assert_eq!(q.position, Some(100));
    let q = recent_query(Some("mb"), 5, true, Some(1), Some(2), None);
    assert_eq!(
        q.filter,
        FilterPlan::All(vec![
            EmailFilter::InMailbox("mb".to_string()),
            EmailFilter::NotKeyword("$seen".to_string()),
            EmailFilter::After(1),
            EmailFilter::Before(2),
        ])
    );
}

#[test]
fn search_query_uses_single_condition_alone() {
    let q = search_query(&SearchFilters { text: Some("test"), limit: 5, ..Default::default() });
    assert_eq!(q.filter, FilterPlan::Single(EmailFilter::Text("test".to_string())));
    assert_eq!(q.limit, 5);
    let q = search_query(&SearchFilters::default());
    assert_eq!(q.filter, FilterPlan::Unfiltered);
    let q = search_query(&SearchFilters { has_attachment: Some(false), ..Default::default() });
    assert_eq!(q.filter, FilterPlan::Unfiltered);
    let q = search_query(&SearchFilters {
        from: Some("ann"),
        subject: Some("hi"),
        has_attachment: Some(true),
        limit: 3,
        ..Default::default()
    });
    assert_eq!(
        q.filter,
        FilterPlan::All(vec![
            EmailFilter::From("ann".to_string()),
            EmailFilter::Subject("hi".to_string()),
            EmailFilter::HasAttachment(true),
        ])
    );
}

#[test]
fn outgoing_message_details() {
    assert_eq!(outgoing_keywords(true), vec!["$draft", "$seen"]);
    assert_eq!(outgoing_keywords(false), vec!["$seen"]);
    assert_eq!(first_message_id(Some(&["<a@x>".to_string(), "<b@x>".to_string()])), Some("<a@x>".to_string()));
    assert_eq!(first_message_id(Some(&[])), None);
    assert_eq!(first_message_id(None), None);
    assert_eq!(submission_id_or_default(None), "sent");
    assert_eq!(submission_id_or_default(Some("s1".to_string())), "s1");
    let c = ComposeEmail::default();
    assert!(c.to.is_empty() && c.from.is_empty() && c.in_reply_to.is_none());
}

#[test]
fn outgoing_email_carries_the_composed_fields() {
    let to = vec!["bob@example.com".to_string()];
    let cc = vec!["carol@example.com".to_string()];
    let compose = ComposeEmail {
        from: "alice@example.com",
        to: &to,
        cc: &cc,
        subject: "Hi",
        body: "Hello",
        in_reply_to: Some("<m1@x>"),
        references: None,
    };
    let m = outgoing_email(&compose, "mb-sent", false);
    assert_eq!(m.mailbox_id, "mb-sent");
    assert_eq!(m.keywords, vec!["$seen"]);
    assert_eq!(m.from, "alice@example.com");
    assert_eq!(m.to, to);
    assert_eq!(m.cc, Some(cc.clone()));
    assert_eq!(m.subject, "Hi");
    assert_eq!(m.body_part_id, "1");
    assert_eq!(m.body, "Hello");
    assert_eq!(m.in_reply_to, Some("<m1@x>".to_string()));
    assert_eq!(m.references, None);

    let none: Vec<String> = vec![];
    let draft = ComposeEmail { from: "a@x", to: &to, cc: &none, subject: "", body: "", in_reply_to: None, references: Some("<r@x>") };
    let d = outgoing_email(&draft, "mb-drafts", true);
    assert_eq!(d.keywords, vec!["$draft", "$seen"]);
    assert_eq!(d.cc, None);
    assert_eq!(d.in_reply_to, None);
    assert_eq!(d.references, Some("<r@x>".to_string()));
}

#[test]
fn queries_list_newest_first() {
    let newest = EmailSort { key: SortKey::ReceivedAt, ascending: false };
    assert_eq!(recent_query(None, 20, false, None, None, None).sort, newest);
    assert_eq!(recent_query(Some("mb"), 5, true, Some(1), Some(2), Some(10)).sort, newest);
    assert_eq!(search_query(&SearchFilters::default()).sort, newest);
    assert_eq!(search_query(&SearchFilters { text: Some("x"), limit: 3, ..Default::default() }).sort, newest);
}

#[test]
fn missing_pieces_are_reported() {
    assert_eq!(mailbox_required(Some("mb1".to_string()), "Drafts"), Ok("mb1".to_string()));
    assert_eq!(
        mailbox_required(None, "Sent"),
        Err(stalwart_mcp::error::AppError::NotFound("Sent mailbox not found".to_string()))
    );
    assert_eq!(email_required(Some(3)), Ok(3));
    assert_eq!(
        email_required::<u8>(None),
        Err(stalwart_mcp::error::AppError::NotFound("Email not found".to_string()))
    );
    assert_eq!(created_draft_id(Some("d1".to_string())), Ok("d1".to_string()));
    assert_eq!(
        created_draft_id(None),
        Err(stalwart_mcp::error::AppError::JmapRequest("Failed to create draft".to_string()))
    );
    assert_eq!(sending_identity(Some("id1".to_string())), Ok("id1".to_string()));
    assert_eq!(
        sending_identity(None),
        Err(stalwart_mcp::error::AppError::JmapRequest("No identity found for sending".to_string()))
    );
}
