use std::sync::Arc;
use stalwart_mcp::error::AppError;
use stalwart_mcp::jmap::{account_records, check_event_stream_status, event_source_url, redirect_host, AccountManager, UrlPart};

fn entry(name: &str, client: u32) -> (String, Arc<u32>) {
    (name.to_string(), Arc::new(client))
}

#[test]
fn no_accounts_configured() {
    let r = AccountManager::<u32>::assemble(0, vec![], None);
    assert_eq!(r.err(), Some(AppError::Config("No accounts configured".to_string())));
}

#[test]
fn no_account_connected() {
    let r = AccountManager::<u32>::assemble(2, vec![], Some("work"));
    assert_eq!(r.err(), Some(AppError::Config("No accounts could be connected".to_string())));
}

#[test]
fn requested_default_is_used_when_connected() {
    let m = AccountManager::assemble(2, vec![entry("personal", 1), entry("work", 2)], Some("work")).unwrap();
    assert_eq!(m.default_name(), "work");
    assert_eq!(**m.get(None).unwrap(), 2);
    assert_eq!(**m.get(Some("personal")).unwrap(), 1);
}

#[test]
fn missing_default_falls_back_to_first() {
    let m = AccountManager::assemble(2, vec![entry("personal", 1), entry("work", 2)], Some("gone")).unwrap();
    assert_eq!(m.default_name(), "personal");
    let m = AccountManager::assemble(1, vec![entry("solo", 7)], None).unwrap();
    assert_eq!(m.default_name(), "solo");
    assert_eq!(**m.get(None).unwrap(), 7);
}

#[test]
fn unknown_account_is_not_found() {
    let m = AccountManager::assemble(1, vec![entry("solo", 7)], None).unwrap();
    assert_eq!(
        m.get(Some("other")).err(),
        Some(AppError::NotFound("Account 'other' not found".to_string()))
    );
    assert!(m.get(Some("SOLO")).is_err());
}

#[test]
fn later_account_of_same_name_replaces_earlier() {
    let m = AccountManager::assemble(3, vec![entry("a", 1), entry("b", 2), entry("a", 3)], None).unwrap();
    let l = m.list();
    assert_eq!(l.len(), 2);
    assert_eq!(l[0].0, "a");
    assert_eq!(*l[0].1.as_ref(), 3);
    assert_eq!(l[1].0, "b");
    assert_eq!(**m.get(Some("a")).unwrap(), 3);
    assert_eq!(m.default_name(), "a");
}

#[test]
fn event_source_url_is_filled() {
    let parts = vec![
        UrlPart::Value("https://mail.example.com/eventsource/?types=".to_string()),
        UrlPart::Types,
        UrlPart::Value("&closeafter=".to_string()),
        UrlPart::CloseAfter,
        UrlPart::Value("&ping=".to_string()),
        UrlPart::Ping,
    ];
    assert_eq!(
        event_source_url(&parts, 30),
        "https://mail.example.com/eventsource/?types=Email,Mailbox,EmailDelivery&closeafter=no&ping=30"
    );
    assert_eq!(event_source_url(&[UrlPart::Ping], 0), "0");
    assert_eq!(event_source_url(&[UrlPart::Ping], 4294967295), "4294967295");
    assert_eq!(event_source_url(&[], 5), "");
}

#[test]
fn redirect_host_of_account_url() {
    assert_eq!(redirect_host("https://mail.example.com/jmap"), Ok("mail.example.com".to_string()));
    match redirect_host("not a url") {
        Err(AppError::JmapConnection(m)) => assert!(m.starts_with("Invalid URL: ")),
        other => panic!("unexpected {:?}", other),
    }
    assert_eq!(
        redirect_host("mailto:user@example.com"),
        Err(AppError::JmapConnection("No host in URL".to_string()))
    );
}

#[test]
fn default_account_by_name_is_the_default() {
    let m = AccountManager::assemble(3, vec![entry("a", 1), entry("b", 2), entry("c", 3)], Some("b")).unwrap();
    let name = m.default_name().to_string();
    assert_eq!(**m.get(None).unwrap(), **m.get(Some(&name)).unwrap());
    let marked: Vec<bool> = m.list().iter().map(|(n, _)| *n == m.default_name()).collect();
    assert_eq!(marked, vec![false, true, false]);
}

#[test]
fn event_stream_status_is_checked() {
    assert_eq!(check_event_stream_status(true, "200 OK"), Ok(()));
    assert_eq!(
        check_event_stream_status(false, "404 Not Found"),
        Err(AppError::JmapConnection("EventSource returned HTTP 404 Not Found".to_string()))
    );
}

#[test]
fn redirect_host_keeps_the_port_out() {
    assert_eq!(redirect_host("http://127.0.0.1:8080/"), Ok("127.0.0.1".to_string()));
    assert_eq!(redirect_host("https://Mail.Example.COM"), Ok("mail.example.com".to_string()));
}

#[test]
fn accounts_resource_marks_only_the_default() {
    let entries = vec![
        ("personal".to_string(), "a1".to_string(), "me@home".to_string()),
        ("work".to_string(), "a2".to_string(), "me@work".to_string()),
    ];
    let r = account_records(&entries, "work");
    assert_eq!(r.len(), 2);
    assert_eq!((r[0].name.as_str(), r[0].id.as_str(), r[0].username.as_str(), r[0].is_default), ("personal", "a1", "me@home", false));
    assert_eq!((r[1].name.as_str(), r[1].id.as_str(), r[1].username.as_str(), r[1].is_default), ("work", "a2", "me@work", true));
}
